//! KoiLang runtime on top of `koicore`: an environment stack of command
//! handlers, a command cache with labels and jumps, execution sessions with
//! lifecycle hooks, and the decisions of programmatic generation and of the
//! `#[command_handler]` dispatch.

pub mod command_macro;
pub mod env_stack;
pub mod error;
pub mod handler;
pub mod laws;
pub mod outside;
pub mod runtime;
pub mod strategy;
pub mod text;
pub mod writer;

pub use error::{DispatchResult, KoiError, Result};
pub use handler::{CommandHandler, Middleware, MiddlewareFn};
pub use runtime::{CommandBuilder, LoopStep, MiddlewareNext, ProbeStep, Runtime};
pub use strategy::{MatchingStrategy, ScanStrategy};

pub use koicore::command::{Command, Parameter, Value};
pub use koicore::parser::{Parser, ParserConfig, TextInputSource};
pub use koicore::writer::{FormatterOptions, WriterConfig};
