//! The verified core of a chat-room bot.
//!
//! - `text`: which message bodies are commands, and how they split into a
//!   command token and a payload.
//! - `registry`: the binding of command names to handlers; no name is bound
//!   twice.
//! - `state`: the state store, one value for each type key.
//! - `util`: the resolution of the context items that a handler declared.
//! - `bot`: the bot and the decisions of its event loop, one turn at a time.
//!   Whoever drives the loop performs the requests and spawns the handlers.
//! - `config`, `builder`: the connection settings and the making of a bot.
//! - `args`, `expand`: the options of the attribute that declares a handler
//!   function, and what the attribute makes of the function.
//! - `assoc`: association lists and the maps that they stand for.
//! - `wrap`: the wrappers in which a handler receives its context items.

pub mod args;
pub mod assoc;
pub mod bot;
pub mod builder;
pub mod config;
pub mod expand;
pub mod registry;
pub mod state;
pub mod text;
pub mod util;
pub mod wrap;

pub use bot::Bot;
pub use builder::BotBuilder;
pub use registry::CommandHandler;
pub use util::{GetParam, HandlerParamMatcher};
pub use wrap::{MsgContent, State};
