//! Recognising command messages in the text of a room message.
//!
//! A message body is a command occurrence when it opens with the prefix `!`
//! and holds a white-space character. The command token is what stands
//! between the prefix and the first white-space character; the payload is
//! what follows that character.

use vstd::prelude::*;

verus! {

/// The character that opens every command message.
pub const COMMAND_PREFIX: char = '!';

/// Whether `c` has the Unicode property `White_Space`.
pub open spec fn is_white_space(c: char) -> bool {
    let n = c as u32;
    ||| 0x09 <= n <= 0x0D
    ||| n == 0x20
    ||| n == 0x85
    ||| n == 0xA0
    ||| n == 0x1680
    ||| 0x2000 <= n <= 0x200A
    ||| n == 0x2028
    ||| n == 0x2029
    ||| n == 0x202F
    ||| n == 0x205F
    ||| n == 0x3000
}

/// Whether no character of `s` is white space.
pub open spec fn no_white_space(s: Seq<char>) -> bool {
    forall|j: int| 0 <= j < s.len() ==> !is_white_space(#[trigger] s[j])
}

/// Whether `i` is the position of the first white-space character of `s`.
pub open spec fn is_first_white_space(s: Seq<char>, i: int) -> bool {
    &&& 0 <= i < s.len()
    &&& is_white_space(s[i])
    &&& no_white_space(s.take(i))
}

/// The position of the first white-space character of `s`, if it has one.
pub open spec fn first_white_space(s: Seq<char>) -> Option<int> {
    if exists|i: int| is_first_white_space(s, i) {
        Some(choose|i: int| is_first_white_space(s, i))
    } else {
        None
    }
}

/// Whether `body` is a command occurrence: it opens with the prefix and holds
/// a white-space character.
pub open spec fn is_command_occurrence(body: Seq<char>) -> bool {
    &&& body.len() > 0
    &&& body[0] == COMMAND_PREFIX
    &&& first_white_space(body) is Some
}

/// The command token and the payload of `body`, where it is a command
/// occurrence.
pub open spec fn command_parts(body: Seq<char>) -> Option<(Seq<char>, Seq<char>)> {
    if is_command_occurrence(body) {
        let i = first_white_space(body)->0;
        Some((body.subrange(1, i), body.subrange(i + 1, body.len() as int)))
    } else {
        None
    }
}

/// A sequence has at most one first white-space character.
pub proof fn lemma_first_white_space_unique(s: Seq<char>, i: int, j: int)
    requires
        is_first_white_space(s, i),
        is_first_white_space(s, j),
    ensures
        i == j,
{
    if i < j {
        assert(s.take(j)[i] == s[i]);
    } else if j < i {
        assert(s.take(i)[j] == s[j]);
    }
}

/// The first white-space character is where `is_first_white_space` says.
pub proof fn lemma_first_white_space_at(s: Seq<char>, i: int)
    requires
        is_first_white_space(s, i),
    ensures
        first_white_space(s) == Some(i),
{
    let k = choose|k: int| is_first_white_space(s, k);
    lemma_first_white_space_unique(s, i, k);
}

/// A sequence without white space has no first white-space character.
pub proof fn lemma_no_white_space_none(s: Seq<char>)
    requires
        no_white_space(s),
    ensures
        first_white_space(s) is None,
{
    if exists|i: int| is_first_white_space(s, i) {
        let k = choose|k: int| is_first_white_space(s, k);
        assert(is_white_space(s[k]));
    }
}

/// A body made of the prefix, a token without white space, a space and any
/// text is a command occurrence with that token and that text as payload;
/// the text may be empty.
pub proof fn lemma_command_parts_of(token: Seq<char>, rest: Seq<char>)
    requires
        no_white_space(token),
    ensures
        command_parts(seq![COMMAND_PREFIX] + token + seq![' '] + rest) == Some((token, rest)),
{
    lemma_command_parts_with(token, ' ', rest);
}

/// The same with any white-space character in the place of the space.
pub proof fn lemma_command_parts_with(token: Seq<char>, separator: char, rest: Seq<char>)
    requires
        no_white_space(token),
        is_white_space(separator),
    ensures
        command_parts(seq![COMMAND_PREFIX] + token + seq![separator] + rest) == Some((token, rest)),
{
    let body = seq![COMMAND_PREFIX] + token + seq![separator] + rest;
    let i: int = token.len() as int + 1;
    assert(body[i] == separator);
    assert forall|j: int| 0 <= j < i implies !is_white_space(#[trigger] body.take(i)[j]) by {
        if j > 0 {
            assert(body.take(i)[j] == token[j - 1]);
        }
    }
    lemma_first_white_space_at(body, i);
    assert(body.subrange(1, i) == token);
    assert(body.subrange(i + 1, body.len() as int) == rest);
}

/// A body that does not open with the prefix, or that holds no white space,
/// is no command occurrence.
pub proof fn lemma_not_a_command(body: Seq<char>)
    requires
        body.len() == 0 || body[0] != COMMAND_PREFIX || no_white_space(body),
    ensures
        command_parts(body) is None,
{
    if no_white_space(body) {
        lemma_no_white_space_none(body);
    }
}

/// What `command_parts` yields puts the body together again: the prefix, the
/// token, one white-space character and the payload; the token holds no
/// white space.
pub proof fn lemma_command_parts_rebuild(body: Seq<char>)
    requires
        command_parts(body) is Some,
    ensures
        ({
            let (token, payload) = command_parts(body)->0;
            let separator = body[token.len() as int + 1];
            &&& no_white_space(token)
            &&& is_white_space(separator)
            &&& body == seq![COMMAND_PREFIX] + token + seq![separator] + payload
        }),
{
    let i = first_white_space(body)->0;
    let (token, payload) = command_parts(body)->0;
    assert(is_first_white_space(body, i));
    assert(i >= 1) by {
        if i == 0 {
            assert(is_white_space(body[0]));
        }
    }
    assert forall|j: int| 0 <= j < token.len() implies !is_white_space(#[trigger] token[j]) by {
        assert(body.take(i)[j + 1] == token[j]);
    }
    assert(body =~= seq![COMMAND_PREFIX] + token + seq![body[i]] + payload);
}

/// Tells whether `c` is a white-space character.
pub fn is_whitespace(c: char) -> (r: bool)
    ensures
        r == is_white_space(c),
{
    let n: u32 = c as u32;
    (0x09 <= n && n <= 0x0D) || n == 0x20 || n == 0x85 || n == 0xA0 || n == 0x1680 || (0x2000 <= n
        && n <= 0x200A) || n == 0x2028 || n == 0x2029 || n == 0x202F || n == 0x205F || n == 0x3000
}

/// Finds the first white-space character of `text`, counted in characters.
pub fn find_whitespace(text: &str) -> (r: Option<usize>)
    ensures
        match r {
            Some(i) => first_white_space(text@) == Some(i as int),
            None => first_white_space(text@) is None,
        },
{
    let len = text.unicode_len();
    let mut i: usize = 0;
    for c in it: text.chars()
        invariant
            i == it.index(),
            it.seq() == text@,
            len == text@.len(),
            no_white_space(text@.take(i as int)),
    {
        if is_whitespace(c) {
            proof {
                lemma_first_white_space_at(text@, i as int);
            }
            return Some(i);
        }
        assert(text@.take(i + 1) == text@.take(i as int).push(text@[i as int]));
        i += 1;
    }
    proof {
        assert(text@.take(i as int) == text@);
        lemma_no_white_space_none(text@);
    }
    None
}

/// Splits a message body into its command token and its payload.
///
/// Returns `None` for a body that is no command occurrence.
pub fn parse_command<'a>(body: &'a str) -> (r: Option<(&'a str, &'a str)>)
    ensures
        match r {
            Some((command, payload)) => command_parts(body@) == Some((command@, payload@)),
            None => command_parts(body@) is None,
        },
{
    let len = body.unicode_len();
    if len == 0 || body.get_char(0) != COMMAND_PREFIX {
        return None;
    }
    match find_whitespace(body) {
        Some(i) => {
            let command = body.substring_char(1, i);
            let payload = body.substring_char(i + 1, len);
            Some((command, payload))
        },
        None => None,
    }
}

} // verus!
