//! Connection settings: what the builder was told, what the environment
//! holds, and which of the two counts.

use url::Url;
use vstd::prelude::*;

verus! {

/// The environment variable that names the homeserver.
pub const HOMESERVER_URL_VAR: &'static str = "RUMA_BOT_HOMESERVER_URL";

/// The environment variable that holds the user name.
pub const USERNAME_VAR: &'static str = "RUMA_BOT_USERNAME";

/// The environment variable that holds the password.
pub const PASSWORD_VAR: &'static str = "RUMA_BOT_PASSWORD";

/// Declares `url::Url`, a parsed URL. The library carries such a value
/// through and claims nothing of what it holds.
#[verifier::external_type_specification]
#[verifier::external_body]
pub struct ExUrl(url::Url);

/// Declares `url::ParseError`, the error of `url::Url::parse`. The library
/// only tells it from success.
#[verifier::external_type_specification]
#[verifier::external_body]
pub struct ExParseError(url::ParseError);

/// The URL that `url::Url::parse` makes of `text`, or `None` where it
/// refuses the text.
pub uninterp spec fn parsed_url(text: Seq<char>) -> Option<Url>;

/// Calls `url::Url::parse`. The outcome depends on the text alone: the URL
/// that the parser makes of it, or its error where it refuses the text.
#[verifier::external_body]
fn parse_url(text: &str) -> (r: Result<Url, url::ParseError>)
    ensures
        match r {
            Ok(url) => parsed_url(text@) == Some(url),
            Err(_) => parsed_url(text@) is None,
        },
{
    Url::parse(text)
}

/// What the process environment holds of the three settings.
#[derive(Debug, PartialEq, Eq)]
pub struct Environment {
    /// The value of `RUMA_BOT_HOMESERVER_URL`.
    pub homeserver_url: Option<String>,
    /// The value of `RUMA_BOT_USERNAME`.
    pub username: Option<String>,
    /// The value of `RUMA_BOT_PASSWORD`.
    pub password: Option<String>,
}

/// A setting that could not be resolved.
#[derive(Clone, Copy, Debug, PartialEq, Eq, Structural)]
pub enum ConfigError {
    /// No homeserver was given, and the environment names none.
    HomeserverUrlNotConfigured,
    /// The homeserver that the environment names is no URL.
    HomeserverUrlInvalid,
    /// No user name was given, and the environment holds none.
    UsernameNotConfigured,
    /// No password was given, and the environment holds none.
    PasswordNotConfigured,
}

/// The user name and password of the one login.
#[derive(Debug, PartialEq, Eq)]
pub struct ConnectionDetails {
    /// The user name.
    pub username: String,
    /// The password.
    pub password: String,
}

/// The text that counts: the explicit one, else that of the environment.
pub open spec fn text_setting(explicit: Option<Seq<char>>, env: Option<Seq<char>>) -> Option<
    Seq<char>,
> {
    if explicit is Some {
        explicit
    } else {
        env
    }
}

/// The homeserver that counts: the explicit one, else what the text of the
/// environment parses to.
pub open spec fn homeserver_setting(explicit: Option<Url>, env: Option<Seq<char>>) -> Result<
    Url,
    ConfigError,
> {
    match explicit {
        Some(url) => Ok(url),
        None => match env {
            None => Err(ConfigError::HomeserverUrlNotConfigured),
            Some(text) => match parsed_url(text) {
                Some(url) => Ok(url),
                None => Err(ConfigError::HomeserverUrlInvalid),
            },
        },
    }
}

/// The view of an optional text.
pub open spec fn text_view(text: Option<String>) -> Option<Seq<char>> {
    match text {
        Some(t) => Some(t@),
        None => None,
    }
}

/// Resolves a text setting: the explicit value, else that of the environment.
pub fn resolve_text(explicit: Option<String>, env: &Option<String>) -> (r: Option<String>)
    ensures
        text_view(r) == text_setting(text_view(explicit), text_view(*env)),
{
    match explicit {
        Some(text) => Some(text),
        None => match env {
            Some(text) => Some(text.clone()),
            None => None,
        },
    }
}

/// Resolves the homeserver: the explicit URL, else the one that the
/// environment names.
pub fn resolve_homeserver(explicit: Option<Url>, env: &Option<String>) -> (r: Result<
    Url,
    ConfigError,
>)
    ensures
        r == homeserver_setting(explicit, text_view(*env)),
{
    match explicit {
        Some(url) => Ok(url),
        None => match env {
            None => Err(ConfigError::HomeserverUrlNotConfigured),
            Some(text) => match parse_url(text.as_str()) {
                Ok(url) => Ok(url),
                Err(_) => Err(ConfigError::HomeserverUrlInvalid),
            },
        },
    }
}

impl ConfigError {
    /// The message of the error.
    pub fn message(&self) -> (r: &'static str)
        ensures
            r@ == match *self {
                ConfigError::HomeserverUrlNotConfigured =>
                    "ruma_bot: homeserver_url not configured"@,
                ConfigError::HomeserverUrlInvalid =>
                    "ruma_bot: homeserver_url is not a valid url"@,
                ConfigError::UsernameNotConfigured => "ruma_bot: username not configured"@,
                ConfigError::PasswordNotConfigured => "ruma_bot: password not configured"@,
            },
    {
        match self {
            ConfigError::HomeserverUrlNotConfigured => "ruma_bot: homeserver_url not configured",
            ConfigError::HomeserverUrlInvalid => "ruma_bot: homeserver_url is not a valid url",
            ConfigError::UsernameNotConfigured => "ruma_bot: username not configured",
            ConfigError::PasswordNotConfigured => "ruma_bot: password not configured",
        }
    }
}

} // verus!
