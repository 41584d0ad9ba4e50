use ruma_bot::config::Environment;
use ruma_bot::registry::{CommandHandler, ParamKind};
use ruma_bot::state::TypeKey;
use ruma_bot::util::Param;
use ruma_bot::{Bot, BotBuilder, GetParam, HandlerParamMatcher, MsgContent, State};
use url::Url;

#[derive(Clone, Debug, PartialEq)]
struct Silent;

impl CommandHandler for Silent {
    fn commands(&self) -> Vec<String> {
        vec![]
    }

    fn params(&self) -> Vec<ParamKind> {
        vec![]
    }
}

fn bot() -> Bot<u8, Silent, String> {
    let env = Environment {
        homeserver_url: Some("https://matrix.example".to_string()),
        username: Some("bot".to_string()),
        password: Some("pw".to_string()),
    };
    BotBuilder::new()
        .state(TypeKey(1), "one".to_string())
        .state(TypeKey(2), "two".to_string())
        .build(&env, |_url: &Url| Ok::<u8, String>(42))
        .unwrap()
}

#[test]
fn matcher_resolves_the_payload() {
    let bot = bot();
    let matcher = HandlerParamMatcher { bot: &bot, msg_content: "some text" };
    let content: Option<MsgContent> = matcher.get();
    assert_eq!(content, Some(MsgContent("some text".to_string())));
    assert_eq!(&*content.unwrap(), "some text");
}

#[test]
fn matcher_resolves_the_bot_itself() {
    let bot = bot();
    let matcher = HandlerParamMatcher { bot: &bot, msg_content: "" };
    let resolved: Option<&Bot<u8, Silent, String>> = matcher.get();
    let resolved = resolved.unwrap();
    assert!(std::ptr::eq(resolved, &bot));
    assert_eq!(*resolved.client(), 42);
}

#[test]
fn matcher_resolves_state_by_key() {
    let bot = bot();
    let matcher = HandlerParamMatcher { bot: &bot, msg_content: "" };
    let one: State<String> = matcher.state(TypeKey(1)).unwrap();
    assert_eq!(*one, "one");
    assert_eq!(one.len(), 3);
    assert_eq!(*matcher.state(TypeKey(2)).unwrap(), "two");
    assert!(matcher.state(TypeKey(3)).is_none());
}

#[test]
fn resolve_yields_one_item_per_kind() {
    let bot = bot();
    let matcher = HandlerParamMatcher { bot: &bot, msg_content: "payload" };
    assert_eq!(matcher.resolve(ParamKind::Bot), Some(Param::Bot));
    assert_eq!(
        matcher.resolve(ParamKind::MsgContent),
        Some(Param::MsgContent(MsgContent("payload".to_string())))
    );
    match matcher.resolve(ParamKind::State(TypeKey(2))) {
        Some(Param::State(snapshot)) => assert_eq!(*snapshot, "two"),
        other => panic!("expected a snapshot, got {:?}", other),
    }
    assert_eq!(matcher.resolve(ParamKind::State(TypeKey(9))), None);
}

#[test]
fn resolve_all_keeps_the_declared_order() {
    let bot = bot();
    let matcher = HandlerParamMatcher { bot: &bot, msg_content: "p" };
    let kinds = vec![
        ParamKind::State(TypeKey(2)),
        ParamKind::MsgContent,
        ParamKind::Bot,
        ParamKind::State(TypeKey(1)),
        ParamKind::MsgContent,
    ];
    let params = matcher.resolve_all(&kinds).unwrap();
    assert_eq!(params.len(), 5);
    match &params[0] {
        Param::State(snapshot) => assert_eq!(**snapshot, "two"),
        other => panic!("expected a snapshot, got {:?}", other),
    }
    assert_eq!(params[1], Param::MsgContent(MsgContent("p".to_string())));
    assert_eq!(params[2], Param::Bot);
    match &params[3] {
        Param::State(snapshot) => assert_eq!(**snapshot, "one"),
        other => panic!("expected a snapshot, got {:?}", other),
    }
    assert_eq!(params[4], Param::MsgContent(MsgContent("p".to_string())));
    assert_eq!(matcher.resolve_all(&vec![]), Some(vec![]));
}

#[test]
fn resolve_all_fails_when_a_state_item_is_missing() {
    let bot = bot();
    let matcher = HandlerParamMatcher { bot: &bot, msg_content: "p" };
    let kinds = vec![ParamKind::MsgContent, ParamKind::State(TypeKey(3)), ParamKind::Bot];
    assert_eq!(matcher.resolve_all(&kinds), None);
    let kinds = vec![ParamKind::State(TypeKey(1)), ParamKind::State(TypeKey(8))];
    assert_eq!(matcher.resolve_all(&kinds), None);
}

#[test]
fn msg_content_derefs_to_its_text() {
    let content = MsgContent("hello".to_string());
    assert_eq!(&*content, "hello");
    assert!(content.starts_with("he"));
    assert_eq!(content.clone(), content);
    assert_eq!(content.0, "hello");
}

#[test]
fn state_wraps_and_hands_out_its_value() {
    let state = State::new(vec![1u8, 2, 3]);
    assert_eq!(state.len(), 3);
    assert_eq!(*state, vec![1, 2, 3]);
    let copy = state.clone();
    assert_eq!(copy, state);
    assert_eq!(state.into_inner(), vec![1, 2, 3]);
    let small = State::new(7u32);
    let same = small;
    assert_eq!(*small + *same, 14);
}
