//! Command handler trait for KoiLang environments, and the middleware trait.
//!
//! Environments implement [`CommandHandler`]; every command (regular
//! commands, the lifecycle hooks `@start` and `@end`, text content `@text`
//! and annotations `@annotation`) reaches them through `handle_command`.

use crate::error::DispatchResult;
use crate::runtime::{MiddlewareNext, Runtime};
use koicore::command::{Command, Value};
use std::collections::HashMap;
use vstd::prelude::*;

verus! {

/// Trait for types that can handle KoiLang commands.
///
/// The `name` parameter can be a regular command (`"command_name"`, from
/// `#command_name`), a lifecycle hook (`"@start"`, `"@end"`), text content
/// (`"@text"`) or an annotation (`"@annotation"`). A handler that does not
/// know a command answers `DispatchResult::Error(KoiError::CommandNotFound ..)`,
/// and the runtime then offers the command to the next environment down.
pub trait CommandHandler: Send + 'static {
    /// Handle a command by name with given parameters.
    fn handle_command(
        &mut self,
        name: &str,
        args: &[Value],
        kwargs: &HashMap<String, Value>,
        runtime: &mut Runtime,
    ) -> DispatchResult;
}

/// A middleware wraps command execution; it receives the runtime, the command
/// and the continuation that runs the rest of the chain. It may hand the
/// command (or another one) on with `next.run(runtime, cmd)`, or answer
/// without doing so.
pub trait Middleware {
    /// Runs this middleware on `cmd`.
    fn call(&self, runtime: &mut Runtime, cmd: &Command, next: &MiddlewareNext) -> DispatchResult;
}

/// Type of the middleware functions that a runtime holds.
pub type MiddlewareFn = dyn Middleware;

/// Hands a command to one handler.
pub fn dispatch_to_handler(
    handler: &mut dyn CommandHandler,
    name: &str,
    args: &[Value],
    kwargs: &HashMap<String, Value>,
    runtime: &mut Runtime,
) -> DispatchResult {
    handler.handle_command(name, args, kwargs, runtime)
}

} // verus!
