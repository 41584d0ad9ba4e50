use ruma_bot::bot::{Phase, Request};
use ruma_bot::builder::{BotBuilder, BuildError};
use ruma_bot::config::{
    resolve_homeserver, resolve_text, ConfigError, Environment, HOMESERVER_URL_VAR, PASSWORD_VAR,
    USERNAME_VAR,
};
use ruma_bot::registry::{CommandHandler, ParamKind};
use ruma_bot::state::TypeKey;
use std::cell::Cell;
use url::Url;

#[derive(Clone, Debug, PartialEq)]
struct Quiet(&'static str);

impl CommandHandler for Quiet {
    fn commands(&self) -> Vec<String> {
        vec![self.0.to_string()]
    }

    fn params(&self) -> Vec<ParamKind> {
        vec![]
    }
}

fn no_env() -> Environment {
    Environment { homeserver_url: None, username: None, password: None }
}

fn full_env() -> Environment {
    Environment {
        homeserver_url: Some("https://env.example".to_string()),
        username: Some("env-user".to_string()),
        password: Some("env-pass".to_string()),
    }
}

fn connect(url: &Url) -> Result<String, String> {
    Ok(url.as_str().to_string())
}

fn builder() -> BotBuilder<Quiet, u32> {
    BotBuilder::new()
}

#[test]
fn variable_names() {
    assert_eq!(HOMESERVER_URL_VAR, "RUMA_BOT_HOMESERVER_URL");
    assert_eq!(USERNAME_VAR, "RUMA_BOT_USERNAME");
    assert_eq!(PASSWORD_VAR, "RUMA_BOT_PASSWORD");
}

#[test]
fn explicit_settings_win_over_the_environment() {
    let mut bot = builder()
        .homeserver_url(Url::parse("https://explicit.example").unwrap())
        .username("alice".to_string())
        .password("secret".to_string())
        .build(&full_env(), connect)
        .unwrap();
    assert_eq!(bot.client(), "https://explicit.example/");
    assert_eq!(bot.current_phase(), Phase::Unauthenticated);
    assert_eq!(
        bot.run::<String>(),
        Some(Request::Login { username: "alice".to_string(), password: "secret".to_string() })
    );
}

#[test]
fn environment_is_the_fallback() {
    let mut bot = builder().build(&full_env(), connect).unwrap();
    assert_eq!(bot.client(), "https://env.example/");
    assert_eq!(
        bot.run::<String>(),
        Some(Request::Login { username: "env-user".to_string(), password: "env-pass".to_string() })
    );
}

#[test]
fn each_setting_falls_back_on_its_own() {
    let env = Environment {
        homeserver_url: None,
        username: Some("env-user".to_string()),
        password: None,
    };
    let mut bot = builder()
        .homeserver_url(Url::parse("https://explicit.example").unwrap())
        .password("secret".to_string())
        .build(&env, connect)
        .unwrap();
    assert_eq!(
        bot.run::<String>(),
        Some(Request::Login { username: "env-user".to_string(), password: "secret".to_string() })
    );
}

#[test]
fn missing_homeserver_is_a_config_error_and_nothing_connects() {
    let called = Cell::new(false);
    let result = builder().username("alice".to_string()).password("secret".to_string()).build(
        &no_env(),
        |url: &Url| {
            called.set(true);
            connect(url)
        },
    );
    assert_eq!(result.err(), Some(BuildError::Config(ConfigError::HomeserverUrlNotConfigured)));
    assert!(!called.get());
}

#[test]
fn invalid_homeserver_in_the_environment_is_a_config_error() {
    let env = Environment {
        homeserver_url: Some("not a url".to_string()),
        username: Some("u".to_string()),
        password: Some("p".to_string()),
    };
    let result = builder().build(&env, connect);
    assert_eq!(result.err(), Some(BuildError::Config(ConfigError::HomeserverUrlInvalid)));
}

#[test]
fn missing_username_is_a_config_error() {
    let env = Environment {
        homeserver_url: Some("https://env.example".to_string()),
        username: None,
        password: Some("p".to_string()),
    };
    let result = builder().build(&env, connect);
    assert_eq!(result.err(), Some(BuildError::Config(ConfigError::UsernameNotConfigured)));
}

#[test]
fn missing_password_is_a_config_error() {
    let env = Environment {
        homeserver_url: Some("https://env.example".to_string()),
        username: Some("u".to_string()),
        password: None,
    };
    let result = builder().build(&env, connect);
    assert_eq!(result.err(), Some(BuildError::Config(ConfigError::PasswordNotConfigured)));
}

#[test]
fn username_is_looked_at_before_password() {
    let env = Environment {
        homeserver_url: Some("https://env.example".to_string()),
        username: None,
        password: None,
    };
    let result = builder().build(&env, connect);
    assert_eq!(result.err(), Some(BuildError::Config(ConfigError::UsernameNotConfigured)));
}

#[test]
fn connection_failure_comes_before_missing_credentials() {
    let env = Environment {
        homeserver_url: Some("https://env.example".to_string()),
        username: None,
        password: None,
    };
    let result = builder().build(&env, |_url: &Url| Err::<String, String>("refused".to_string()));
    assert_eq!(result.err(), Some(BuildError::Connection("refused".to_string())));
}

#[test]
fn connect_gets_the_resolved_url_once() {
    let calls = Cell::new(0);
    let bot = builder()
        .build(&full_env(), |url: &Url| {
            calls.set(calls.get() + 1);
            assert_eq!(url.host_str(), Some("env.example"));
            assert_eq!(url.scheme(), "https");
            Ok::<u8, String>(7)
        })
        .unwrap();
    assert_eq!(calls.get(), 1);
    assert_eq!(*bot.client(), 7);
}

#[test]
fn build_hands_handlers_and_state_to_the_bot() {
    let bot = builder()
        .register(Quiet("help"))
        .unwrap()
        .state(TypeKey(1), 100)
        .register(Quiet("echo"))
        .unwrap()
        .state(TypeKey(2), 200)
        .state(TypeKey(1), 101)
        .build(&full_env(), connect)
        .unwrap();
    assert_eq!(bot.handlers().len(), 2);
    assert_eq!(bot.handlers().lookup("help"), Some(0));
    assert_eq!(bot.handlers().lookup("echo"), Some(1));
    assert_eq!(bot.handlers().handler(1), Some(&Quiet("echo")));
    assert_eq!(bot.state().get(TypeKey(1)), Some(&101));
    assert_eq!(bot.state().get(TypeKey(2)), Some(&200));
    assert_eq!(bot.state().get(TypeKey(3)), None);
}

#[test]
fn builder_refuses_a_second_handler_for_a_name() {
    let refused = builder().register(Quiet("x")).unwrap().register(Quiet("x"));
    assert_eq!(refused.err().unwrap().command, "x");
}

#[test]
fn register_as_binds_the_given_names() {
    let bot = builder()
        .register_as(
            vec!["a".to_string(), "b".to_string()],
            vec![ParamKind::MsgContent],
            Quiet("ignored"),
        )
        .unwrap()
        .build(&full_env(), connect)
        .unwrap();
    assert_eq!(bot.handlers().lookup("a"), Some(0));
    assert_eq!(bot.handlers().lookup("b"), Some(0));
    assert_eq!(bot.handlers().lookup("ignored"), None);
    assert_eq!(bot.handlers().params_of(0), Some(&vec![ParamKind::MsgContent]));
}

#[test]
fn resolve_text_prefers_the_explicit_value() {
    let env = Some("env".to_string());
    assert_eq!(resolve_text(Some("explicit".to_string()), &env), Some("explicit".to_string()));
    assert_eq!(resolve_text(None, &env), Some("env".to_string()));
    assert_eq!(resolve_text(Some("explicit".to_string()), &None), Some("explicit".to_string()));
    assert_eq!(resolve_text(None, &None), None);
}

#[test]
fn resolve_homeserver_parses_the_environment_text() {
    let explicit = Url::parse("https://explicit.example/path").unwrap();
    let env = Some("https://env.example:8448".to_string());
    assert_eq!(resolve_homeserver(Some(explicit.clone()), &env), Ok(explicit));
    let parsed = resolve_homeserver(None, &env).unwrap();
    assert_eq!(parsed.as_str(), "https://env.example:8448/");
    assert_eq!(parsed.port(), Some(8448));
    assert_eq!(resolve_homeserver(None, &None), Err(ConfigError::HomeserverUrlNotConfigured));
    assert_eq!(
        resolve_homeserver(None, &Some("//nothing".to_string())),
        Err(ConfigError::HomeserverUrlInvalid)
    );
    assert_eq!(
        resolve_homeserver(None, &Some(String::new())),
        Err(ConfigError::HomeserverUrlInvalid)
    );
}

#[test]
fn config_error_messages() {
    assert_eq!(
        ConfigError::HomeserverUrlNotConfigured.message(),
        "ruma_bot: homeserver_url not configured"
    );
    assert_eq!(
        ConfigError::HomeserverUrlInvalid.message(),
        "ruma_bot: homeserver_url is not a valid url"
    );
    assert_eq!(ConfigError::UsernameNotConfigured.message(), "ruma_bot: username not configured");
    assert_eq!(ConfigError::PasswordNotConfigured.message(), "ruma_bot: password not configured");
}

#[test]
fn prepare_resolves_the_homeserver_only() {
    let env = Environment {
        homeserver_url: Some("https://env.example".to_string()),
        username: None,
        password: None,
    };
    let pending = builder().prepare(&env).unwrap();
    assert_eq!(pending.homeserver_url().as_str(), "https://env.example/");
    assert!(builder().prepare(&no_env()).is_err());
    assert_eq!(builder().prepare(&no_env()).err(), Some(ConfigError::HomeserverUrlNotConfigured));
    let env = Environment {
        homeserver_url: Some("::".to_string()),
        username: None,
        password: None,
    };
    assert_eq!(builder().prepare(&env).err(), Some(ConfigError::HomeserverUrlInvalid));
}

#[test]
fn finish_reports_the_first_failure() {
    let env = Environment {
        homeserver_url: Some("https://env.example".to_string()),
        username: None,
        password: None,
    };
    let failed = builder().prepare(&env).unwrap().finish(Err::<u8, &str>("down"));
    assert_eq!(failed.err(), Some(BuildError::Connection("down")));
    let no_user = builder().prepare(&env).unwrap().finish(Ok::<u8, &str>(1));
    assert_eq!(no_user.err(), Some(BuildError::Config(ConfigError::UsernameNotConfigured)));
    let no_password =
        builder().username("u".to_string()).prepare(&env).unwrap().finish(Ok::<u8, &str>(1));
    assert_eq!(no_password.err(), Some(BuildError::Config(ConfigError::PasswordNotConfigured)));
    let mut bot = builder()
        .username("u".to_string())
        .password("p".to_string())
        .prepare(&env)
        .unwrap()
        .finish(Ok::<u8, &str>(1))
        .unwrap();
    assert_eq!(*bot.client(), 1);
    assert_eq!(
        bot.run::<&str>(),
        Some(Request::Login { username: "u".to_string(), password: "p".to_string() })
    );
}

#[test]
fn builder_tells_what_was_set() {
    let fresh = builder();
    assert!(!fresh.has_homeserver_url());
    assert!(!fresh.has_username());
    assert!(!fresh.has_password());
    let set = fresh.username("u".to_string());
    assert!(set.has_username());
    assert!(!set.has_password());
    let set = set.password("p".to_string());
    assert!(set.has_password());
    assert!(!set.has_homeserver_url());
    let set = set.homeserver_url(Url::parse("https://explicit.example").unwrap());
    assert!(set.has_homeserver_url());
}

#[test]
fn builder_shows_what_it_gathered() {
    let fresh = builder();
    assert_eq!(fresh.configured_homeserver_url(), None);
    assert_eq!(fresh.configured_username(), None);
    assert_eq!(fresh.handlers().len(), 0);
    let url = Url::parse("https://explicit.example").unwrap();
    let set = fresh
        .homeserver_url(url.clone())
        .username("alice".to_string())
        .register(Quiet("help"))
        .unwrap();
    assert_eq!(set.configured_homeserver_url(), Some(&url));
    assert_eq!(set.configured_username(), Some(&"alice".to_string()));
    assert_eq!(set.handlers().lookup("help"), Some(0));
    assert_eq!(set.handlers().names(), vec!["help".to_string()]);
}
