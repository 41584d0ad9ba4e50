use ruma_bot::registry::{CommandHandler, CommandRegistry, DuplicateCommand, ParamKind};
use ruma_bot::state::TypeKey;

#[derive(Clone, Debug, PartialEq)]
struct Named {
    id: u32,
    names: Vec<&'static str>,
    params: Vec<ParamKind>,
}

impl CommandHandler for Named {
    fn commands(&self) -> Vec<String> {
        self.names.iter().map(|name| name.to_string()).collect()
    }

    fn params(&self) -> Vec<ParamKind> {
        self.params.clone()
    }
}

fn named(id: u32, names: &[&'static str]) -> Named {
    Named { id, names: names.to_vec(), params: vec![] }
}

fn strings(names: &[&str]) -> Vec<String> {
    names.iter().map(|name| name.to_string()).collect()
}

#[test]
fn empty_registry_binds_nothing() {
    let registry: CommandRegistry<Named> = CommandRegistry::new();
    assert_eq!(registry.len(), 0);
    assert_eq!(registry.lookup("help"), None);
    assert_eq!(registry.lookup(""), None);
    assert!(registry.handler(0).is_none());
    assert!(registry.params_of(0).is_none());
}

#[test]
fn disjoint_names_all_register_and_resolve_to_their_owner() {
    let registry = CommandRegistry::new()
        .register(named(10, &["help"]))
        .unwrap()
        .register(named(11, &["x", "y", "z"]))
        .unwrap()
        .register(named(12, &[]))
        .unwrap()
        .register(named(13, &["echo"]))
        .unwrap();
    assert_eq!(registry.len(), 4);
    assert_eq!(registry.lookup("help"), Some(0));
    assert_eq!(registry.lookup("x"), Some(1));
    assert_eq!(registry.lookup("y"), Some(1));
    assert_eq!(registry.lookup("z"), Some(1));
    assert_eq!(registry.lookup("echo"), Some(3));
    assert_eq!(registry.handler(0).unwrap().id, 10);
    assert_eq!(registry.handler(1).unwrap().id, 11);
    assert_eq!(registry.handler(2).unwrap().id, 12);
    assert_eq!(registry.handler(3).unwrap().id, 13);
    assert!(registry.handler(4).is_none());
}

#[test]
fn lookup_is_exact_and_case_sensitive() {
    let registry = CommandRegistry::new().register(named(1, &["help"])).unwrap();
    assert_eq!(registry.lookup("help"), Some(0));
    assert_eq!(registry.lookup("Help"), None);
    assert_eq!(registry.lookup("hel"), None);
    assert_eq!(registry.lookup("helps"), None);
    assert_eq!(registry.lookup(" help"), None);
    assert_eq!(registry.lookup(""), None);
}

#[test]
fn second_handler_with_a_bound_name_is_refused() {
    let registry = CommandRegistry::new().register(named(1, &["x"])).unwrap();
    let refused = registry.register(named(2, &["x"]));
    assert_eq!(refused.err(), Some(DuplicateCommand { command: "x".to_string() }));
}

#[test]
fn shared_name_is_refused_in_either_order() {
    let a = named(1, &["a", "shared"]);
    let b = named(2, &["shared", "b"]);
    let first = CommandRegistry::new().register(a.clone()).unwrap().register(b.clone());
    assert_eq!(first.err().unwrap().command, "shared");
    let second = CommandRegistry::new().register(b).unwrap().register(a);
    assert_eq!(second.err().unwrap().command, "shared");
}

#[test]
fn error_names_the_first_clash() {
    let registry = CommandRegistry::new().register(named(1, &["b", "c"])).unwrap();
    let refused = registry.register(named(2, &["a", "c", "b"]));
    assert_eq!(refused.err().unwrap().command, "c");
}

#[test]
fn name_repeated_by_one_handler_is_refused() {
    let refused = CommandRegistry::new().register(named(1, &["x", "y", "x"]));
    assert_eq!(refused.err().unwrap().command, "x");
}

#[test]
fn insert_binds_the_given_names() {
    let registry = CommandRegistry::new()
        .insert(strings(&["one", "two"]), vec![ParamKind::Bot], 'a')
        .unwrap()
        .insert(strings(&["three"]), vec![ParamKind::MsgContent, ParamKind::State(TypeKey(9))], 'b')
        .unwrap();
    assert_eq!(registry.lookup("one"), Some(0));
    assert_eq!(registry.lookup("two"), Some(0));
    assert_eq!(registry.lookup("three"), Some(1));
    assert_eq!(registry.handler(0), Some(&'a'));
    assert_eq!(registry.handler(1), Some(&'b'));
    assert_eq!(registry.params_of(0), Some(&vec![ParamKind::Bot]));
    assert_eq!(
        registry.params_of(1),
        Some(&vec![ParamKind::MsgContent, ParamKind::State(TypeKey(9))])
    );
    assert_eq!(registry.params_of(2), None);
}

#[test]
fn register_keeps_the_declared_params() {
    let handler = Named {
        id: 5,
        names: vec!["count"],
        params: vec![ParamKind::State(TypeKey(1)), ParamKind::MsgContent],
    };
    let registry = CommandRegistry::new().register(handler).unwrap();
    assert_eq!(
        registry.params_of(0),
        Some(&vec![ParamKind::State(TypeKey(1)), ParamKind::MsgContent])
    );
}

#[test]
fn duplicate_command_message() {
    let error = DuplicateCommand { command: "help".to_string() };
    assert_eq!(
        error.message(),
        "ruma_bot: Tried to register a command handler for 'help' when one was already registered"
    );
}

#[test]
fn names_lists_each_bound_name_once() {
    let registry = CommandRegistry::new()
        .register(named(1, &["b", "a"]))
        .unwrap()
        .register(named(2, &[]))
        .unwrap()
        .register(named(3, &["c"]))
        .unwrap();
    let mut names = registry.names();
    names.sort();
    assert_eq!(names, strings(&["a", "b", "c"]));
    assert_eq!(CommandRegistry::<Named>::new().names(), strings(&[]));
}
