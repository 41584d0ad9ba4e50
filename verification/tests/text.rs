use ruma_bot::text::{find_whitespace, is_whitespace, parse_command, COMMAND_PREFIX};

#[test]
fn whitespace_agrees_with_std_on_every_char() {
    let mut code: u32 = 0;
    while code <= 0x10FFFF {
        if let Some(c) = char::from_u32(code) {
            assert_eq!(is_whitespace(c), c.is_whitespace(), "U+{:04X}", code);
        }
        code += 1;
    }
}

#[test]
fn whitespace_edges() {
    assert!(is_whitespace(' '));
    assert!(is_whitespace('\t'));
    assert!(is_whitespace('\n'));
    assert!(is_whitespace('\u{B}'));
    assert!(is_whitespace('\u{C}'));
    assert!(is_whitespace('\r'));
    assert!(is_whitespace('\u{85}'));
    assert!(is_whitespace('\u{A0}'));
    assert!(is_whitespace('\u{1680}'));
    assert!(is_whitespace('\u{2000}'));
    assert!(is_whitespace('\u{200A}'));
    assert!(is_whitespace('\u{2028}'));
    assert!(is_whitespace('\u{2029}'));
    assert!(is_whitespace('\u{202F}'));
    assert!(is_whitespace('\u{205F}'));
    assert!(is_whitespace('\u{3000}'));
    assert!(!is_whitespace('\u{8}'));
    assert!(!is_whitespace('\u{E}'));
    assert!(!is_whitespace('\u{1F}'));
    assert!(!is_whitespace('!'));
    assert!(!is_whitespace('\u{84}'));
    assert!(!is_whitespace('\u{86}'));
    assert!(!is_whitespace('\u{180E}'));
    assert!(!is_whitespace('\u{1FFF}'));
    assert!(!is_whitespace('\u{200B}'));
    assert!(!is_whitespace('\u{FEFF}'));
    assert!(!is_whitespace('a'));
}

#[test]
fn prefix_is_the_exclamation_mark() {
    assert_eq!(COMMAND_PREFIX, '!');
}

#[test]
fn find_whitespace_counts_characters() {
    assert_eq!(find_whitespace(""), None);
    assert_eq!(find_whitespace("abc"), None);
    assert_eq!(find_whitespace(" abc"), Some(0));
    assert_eq!(find_whitespace("!echo a b"), Some(5));
    assert_eq!(find_whitespace("ab\tc d"), Some(2));
    // "é" and "ö" take two bytes each; the position is counted in characters.
    assert_eq!(find_whitespace("héllö wörld"), Some(5));
    assert_eq!(find_whitespace("日本語\u{3000}テキスト"), Some(3));
}

#[test]
fn parse_splits_at_first_whitespace() {
    assert_eq!(parse_command("!count now"), Some(("count", "now")));
    assert_eq!(parse_command("!echo a b  c"), Some(("echo", "a b  c")));
    assert_eq!(parse_command("!echo  two"), Some(("echo", " two")));
    assert_eq!(parse_command("!x\ty"), Some(("x", "y")));
    assert_eq!(parse_command("!x\ny z"), Some(("x", "y z")));
}

#[test]
fn parse_accepts_empty_payload_and_empty_token() {
    assert_eq!(parse_command("!help "), Some(("help", "")));
    assert_eq!(parse_command("! rest"), Some(("", "rest")));
    assert_eq!(parse_command("! "), Some(("", "")));
}

#[test]
fn parse_rejects_bodies_without_prefix() {
    assert_eq!(parse_command(""), None);
    assert_eq!(parse_command("hello world"), None);
    assert_eq!(parse_command(" !help me"), None);
    assert_eq!(parse_command("help !me"), None);
    assert_eq!(parse_command("?help me"), None);
}

#[test]
fn parse_rejects_bodies_without_whitespace() {
    assert_eq!(parse_command("!"), None);
    assert_eq!(parse_command("!help"), None);
    assert_eq!(parse_command("!help!me"), None);
}

#[test]
fn parse_is_case_sensitive_and_exact() {
    assert_eq!(parse_command("!Help me"), Some(("Help", "me")));
    assert_eq!(parse_command("!!help me"), Some(("!help", "me")));
}

#[test]
fn parse_handles_wide_characters() {
    // The separator takes two bytes; the payload starts after it.
    assert_eq!(parse_command("!cmd\u{A0}rest"), Some(("cmd", "rest")));
    assert_eq!(parse_command("!cmd\u{3000}残り"), Some(("cmd", "残り")));
    assert_eq!(parse_command("!héllo wörld"), Some(("héllo", "wörld")));
    assert_eq!(parse_command("!日本 語"), Some(("日本", "語")));
}

#[test]
fn parse_rebuilds_the_body() {
    let bodies = ["!a b", "!token  x y", "!t\tpayload", "! ", "!ü\u{2003}ß"];
    for body in bodies {
        let (token, payload) = parse_command(body).unwrap();
        let separator = body.chars().nth(1 + token.chars().count()).unwrap();
        assert!(separator.is_whitespace());
        assert!(!token.chars().any(char::is_whitespace));
        assert_eq!(format!("!{}{}{}", token, separator, payload), body);
    }
}
