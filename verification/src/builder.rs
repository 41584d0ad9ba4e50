//! The builder: it gathers handlers, initial state and connection settings,
//! and makes the bot of them.

use crate::bot::{Bot, Phase};
use crate::config::{
    homeserver_setting, resolve_homeserver, resolve_text, text_setting, text_view, ConfigError,
    ConnectionDetails, Environment,
};
use crate::registry::{
    registered, CommandHandler, CommandRegistry, Declaration, DuplicateCommand, ParamKind,
    RegistryView,
};
use crate::state::{TypeKey, TypedStateStore};
use url::Url;
use vstd::prelude::*;

verus! {

/// Why no bot could be built.
#[derive(Debug, PartialEq, Eq)]
pub enum BuildError<E> {
    /// A setting could not be resolved.
    Config(ConfigError),
    /// The connection could not be set up.
    Connection(E),
}

/// The user name and the password that count, or the setting that is missing;
/// the user name is looked at first.
pub open spec fn credentials_setting(
    username: Option<Seq<char>>,
    password: Option<Seq<char>>,
) -> Result<(Seq<char>, Seq<char>), ConfigError> {
    match username {
        None => Err(ConfigError::UsernameNotConfigured),
        Some(username) => match password {
            None => Err(ConfigError::PasswordNotConfigured),
            Some(password) => Ok((username, password)),
        },
    }
}

/// A builder for the `Bot` type.
pub struct BotBuilder<H, V> {
    handlers: CommandRegistry<H>,
    state: TypedStateStore<V>,
    homeserver_url: Option<Url>,
    username: Option<String>,
    password: Option<String>,
}

impl<H, V> BotBuilder<H, V> {
    /// The registry gathered so far.
    pub closed spec fn registry(&self) -> RegistryView<H> {
        self.handlers@
    }

    /// The initial state gathered so far.
    pub closed spec fn store(&self) -> Map<TypeKey, V> {
        self.state@
    }

    /// The homeserver that was set, if any.
    pub closed spec fn explicit_homeserver(&self) -> Option<Url> {
        self.homeserver_url
    }

    /// The user name that was set, if any.
    pub closed spec fn explicit_username(&self) -> Option<Seq<char>> {
        text_view(self.username)
    }

    /// The password that was set, if any.
    pub closed spec fn explicit_password(&self) -> Option<Seq<char>> {
        text_view(self.password)
    }

    /// The outcome of a registration as a model of the registry.
    pub open spec fn outcome_view(r: Result<Self, DuplicateCommand>) -> Result<
        RegistryView<H>,
        Seq<char>,
    > {
        match r {
            Ok(builder) => Ok(builder.registry()),
            Err(e) => Err(e.command@),
        }
    }

    /// Whether `other` has the settings of `self`.
    pub open spec fn same_settings(&self, other: &Self) -> bool {
        &&& other.explicit_homeserver() == self.explicit_homeserver()
        &&& other.explicit_username() == self.explicit_username()
        &&& other.explicit_password() == self.explicit_password()
    }

    /// Creates a new `BotBuilder`: no handler, no state, nothing set.
    pub fn new() -> (r: Self)
        ensures
            r.registry() == RegistryView::<H>::empty(),
            r.store() == Map::<TypeKey, V>::empty(),
            r.explicit_homeserver() is None,
            r.explicit_username() is None,
            r.explicit_password() is None,
    {
        BotBuilder {
            handlers: CommandRegistry::new(),
            state: TypedStateStore::new(),
            homeserver_url: None,
            username: None,
            password: None,
        }
    }

    /// Registers `handler` under `names`, with the context items `params`.
    ///
    /// Fails at the first name that is bound already or that stands in
    /// `names` twice.
    pub fn register_as(self, names: Vec<String>, params: Vec<ParamKind>, handler: H) -> (r: Result<
        Self,
        DuplicateCommand,
    >)
        ensures
            registered(
                self.registry(),
                (Declaration { names: names.deep_view(), params: params@, handler }),
                Self::outcome_view(r),
            ),
            r matches Ok(builder) ==> builder.store() == self.store() && self.same_settings(
                &builder,
            ),
    {
        let BotBuilder { handlers, state, homeserver_url, username, password } = self;
        match handlers.insert(names, params, handler) {
            Ok(handlers) => Ok(BotBuilder { handlers, state, homeserver_url, username, password }),
            Err(e) => Err(e),
        }
    }

    /// Registers some state to be used across calls to command handlers.
    ///
    /// A value seeded before under the same key is replaced.
    pub fn state(self, key: TypeKey, initial_value: V) -> (r: Self)
        ensures
            r.store() == self.store().insert(key, initial_value),
            r.registry() == self.registry(),
            self.same_settings(&r),
    {
        let mut builder = self;
        builder.state.seed(key, initial_value);
        builder
    }

    /// Sets the homeserver.
    ///
    /// Where it is not set, `build` falls back to the environment variable
    /// `RUMA_BOT_HOMESERVER_URL`.
    pub fn homeserver_url(self, homeserver_url: Url) -> (r: Self)
        ensures
            r.explicit_homeserver() == Some(homeserver_url),
            r.explicit_username() == self.explicit_username(),
            r.explicit_password() == self.explicit_password(),
            r.registry() == self.registry(),
            r.store() == self.store(),
    {
        let mut builder = self;
        builder.homeserver_url = Some(homeserver_url);
        builder
    }

    /// Sets the user name.
    ///
    /// Where it is not set, `build` falls back to the environment variable
    /// `RUMA_BOT_USERNAME`.
    pub fn username(self, username: String) -> (r: Self)
        ensures
            r.explicit_username() == Some(username@),
            r.explicit_homeserver() == self.explicit_homeserver(),
            r.explicit_password() == self.explicit_password(),
            r.registry() == self.registry(),
            r.store() == self.store(),
    {
        let mut builder = self;
        builder.username = Some(username);
        builder
    }

    /// Sets the password.
    ///
    /// Where it is not set, `build` falls back to the environment variable
    /// `RUMA_BOT_PASSWORD`.
    pub fn password(self, password: String) -> (r: Self)
        ensures
            r.explicit_password() == Some(password@),
            r.explicit_homeserver() == self.explicit_homeserver(),
            r.explicit_username() == self.explicit_username(),
            r.registry() == self.registry(),
            r.store() == self.store(),
    {
        let mut builder = self;
        builder.password = Some(password);
        builder
    }

    /// The registry gathered so far.
    pub fn handlers(&self) -> (r: &CommandRegistry<H>)
        ensures
            r@ == self.registry(),
    {
        &self.handlers
    }

    /// The homeserver that was set, if any.
    pub fn configured_homeserver_url(&self) -> (r: Option<&Url>)
        ensures
            match r {
                Some(url) => self.explicit_homeserver() == Some(*url),
                None => self.explicit_homeserver() is None,
            },
    {
        self.homeserver_url.as_ref()
    }

    /// The user name that was set, if any.
    pub fn configured_username(&self) -> (r: Option<&String>)
        ensures
            match r {
                Some(username) => self.explicit_username() == Some(username@),
                None => self.explicit_username() is None,
            },
    {
        self.username.as_ref()
    }

    /// Whether a homeserver was set.
    pub fn has_homeserver_url(&self) -> (r: bool)
        ensures
            r == self.explicit_homeserver() is Some,
    {
        self.homeserver_url.is_some()
    }

    /// Whether a user name was set.
    pub fn has_username(&self) -> (r: bool)
        ensures
            r == self.explicit_username() is Some,
    {
        self.username.is_some()
    }

    /// Whether a password was set.
    pub fn has_password(&self) -> (r: bool)
        ensures
            r == self.explicit_password() is Some,
    {
        self.password.is_some()
    }

    /// Resolves the homeserver, so that the connection can be set up.
    ///
    /// Fails where no homeserver was set and the environment names none, or
    /// names one that is no URL. The user name and the password are looked
    /// at only when the connection is there: see `PendingBot::finish`.
    pub fn prepare(self, env: &Environment) -> (r: Result<PendingBot<H, V>, ConfigError>)
        ensures
            match homeserver_setting(self.explicit_homeserver(), text_view(env.homeserver_url)) {
                Err(missing) => r == Err::<PendingBot<H, V>, ConfigError>(missing),
                Ok(url) => {
                    &&& r matches Ok(pending)
                    &&& pending.homeserver() == url
                    &&& pending.username() == text_setting(
                        self.explicit_username(),
                        text_view(env.username),
                    )
                    &&& pending.password() == text_setting(
                        self.explicit_password(),
                        text_view(env.password),
                    )
                    &&& pending.registry() == self.registry()
                    &&& pending.store() == self.store()
                },
            },
    {
        let BotBuilder { handlers, state, homeserver_url, username, password } = self;
        match resolve_homeserver(homeserver_url, &env.homeserver_url) {
            Ok(homeserver_url) => Ok(
                PendingBot {
                    handlers,
                    state,
                    homeserver_url,
                    username: resolve_text(username, &env.username),
                    password: resolve_text(password, &env.password),
                },
            ),
            Err(e) => Err(e),
        }
    }

    /// Builds the bot.
    ///
    /// The homeserver is resolved first. Then `connect` is called with it,
    /// once. Then the user name and the password are resolved, in this order.
    /// The first of these steps that fails gives the error; `connect` is not
    /// called where no homeserver could be resolved.
    pub fn build<C, E, F: FnOnce(&Url) -> Result<C, E>>(
        self,
        env: &Environment,
        connect: F,
    ) -> (r: Result<Bot<C, H, V>, BuildError<E>>)
        requires
            forall|url: Url| call_requires(connect, (&url,)),
        ensures
            match homeserver_setting(self.explicit_homeserver(), text_view(env.homeserver_url)) {
                Err(missing) => r matches Err(BuildError::Config(e)) && e == missing,
                Ok(url) => exists|connection: Result<C, E>|
                    {
                        &&& #[trigger] call_ensures(connect, (&url,), connection)
                        &&& built(
                            self.registry(),
                            self.store(),
                            text_setting(self.explicit_username(), text_view(env.username)),
                            text_setting(self.explicit_password(), text_view(env.password)),
                            connection,
                            r,
                        )
                    },
            },
    {
        let pending = match self.prepare(env) {
            Ok(pending) => pending,
            Err(e) => {
                return Err(BuildError::Config(e));
            },
        };
        let connection = connect(pending.homeserver_url());
        pending.finish(connection)
    }
}

/// A bot in the making: its homeserver is resolved, its connection is not
/// set up yet.
pub struct PendingBot<H, V> {
    handlers: CommandRegistry<H>,
    state: TypedStateStore<V>,
    homeserver_url: Url,
    username: Option<String>,
    password: Option<String>,
}

/// Whether `outcome` is what becomes of a bot in the making once the attempt
/// to connect has ended in `connection`: the error of the connection, else
/// the setting that is missing, else the bot.
pub open spec fn built<C, E, H, V>(
    registry: RegistryView<H>,
    store: Map<TypeKey, V>,
    username: Option<Seq<char>>,
    password: Option<Seq<char>>,
    connection: Result<C, E>,
    outcome: Result<Bot<C, H, V>, BuildError<E>>,
) -> bool {
    match connection {
        Err(e) => outcome matches Err(BuildError::Connection(e2)) && e2 == e,
        Ok(client) => match credentials_setting(username, password) {
            Err(missing) => outcome matches Err(BuildError::Config(e2)) && e2 == missing,
            Ok(credentials) => {
                &&& outcome matches Ok(bot)
                &&& bot.connection() == client
                &&& bot.credentials() == Some(credentials)
                &&& bot.phase() == Phase::Unauthenticated
                &&& bot.registry() == registry
                &&& bot.store() == store
            },
        },
    }
}

impl<H, V> PendingBot<H, V> {
    /// The registry of the bot to be.
    pub closed spec fn registry(&self) -> RegistryView<H> {
        self.handlers@
    }

    /// The initial state of the bot to be.
    pub closed spec fn store(&self) -> Map<TypeKey, V> {
        self.state@
    }

    /// The homeserver to connect to.
    pub closed spec fn homeserver(&self) -> Url {
        self.homeserver_url
    }

    /// The user name that counts, if there is one.
    pub closed spec fn username(&self) -> Option<Seq<char>> {
        text_view(self.username)
    }

    /// The password that counts, if there is one.
    pub closed spec fn password(&self) -> Option<Seq<char>> {
        text_view(self.password)
    }

    /// The homeserver to connect to.
    pub fn homeserver_url(&self) -> (r: &Url)
        ensures
            *r == self.homeserver(),
    {
        &self.homeserver_url
    }

    /// Makes the bot, given how the attempt to connect has ended.
    ///
    /// A failed connection gives its error. With the connection there, the
    /// user name is looked at, then the password; the first that is missing
    /// gives the error.
    pub fn finish<C, E>(self, connection: Result<C, E>) -> (r: Result<Bot<C, H, V>, BuildError<E>>)
        ensures
            built(self.registry(), self.store(), self.username(), self.password(), connection, r),
    {
        let PendingBot { handlers, state, homeserver_url: _, username, password } = self;
        let client = match connection {
            Ok(client) => client,
            Err(e) => {
                return Err(BuildError::Connection(e));
            },
        };
        let username = match username {
            Some(username) => username,
            None => {
                return Err(BuildError::Config(ConfigError::UsernameNotConfigured));
            },
        };
        let password = match password {
            Some(password) => password,
            None => {
                return Err(BuildError::Config(ConfigError::PasswordNotConfigured));
            },
        };
        Ok(Bot::assemble(client, handlers, state, ConnectionDetails { username, password }))
    }
}

impl<H: CommandHandler, V> BotBuilder<H, V> {
    /// Registers a command handler under the names that it answers to.
    ///
    /// The handler is asked once for its names and once for its context
    /// items; `register_as` says what becomes of them.
    pub fn register(self, handler: H) -> (r: Result<Self, DuplicateCommand>)
        ensures
            exists|names: Vec<String>, params: Vec<ParamKind>|
                {
                    &&& #[trigger] call_ensures(H::commands, (&handler,), names)
                    &&& #[trigger] call_ensures(H::params, (&handler,), params)
                    &&& registered(
                        self.registry(),
                        (Declaration { names: names.deep_view(), params: params@, handler }),
                        Self::outcome_view(r),
                    )
                },
            r matches Ok(builder) ==> builder.store() == self.store() && self.same_settings(
                &builder,
            ),
    {
        let names = handler.commands();
        let params = handler.params();
        self.register_as(names, params, handler)
    }
}

} // verus!
