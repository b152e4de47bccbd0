//! Error types and the result of dispatching a command.

use crate::strategy::ScanStrategy;
use koicore::parser::ParseError;
use vstd::prelude::*;
use vstd::string::StringExecFns;

verus! {

/// Main error type for KoiLang runtime operations.
#[derive(Debug)]
pub enum KoiError {
    /// Runtime error with context.
    Runtime {
        /// Error message.
        message: String,
    },
    /// Command not found error.
    CommandNotFound {
        /// Command name that was not found.
        name: String,
    },
    /// Parse error from koicore.
    Parse(ParseError),
    /// IO error.
    Io(std::io::Error),
}

/// Result type alias for KoiLang operations.
pub type Result<T> = core::result::Result<T, KoiError>;

/// Result of command dispatch.
///
/// Represents the possible outcomes from dispatching a command:
/// normal continuation, a jump, a cache probe request, or an error.
pub enum DispatchResult<E = KoiError> {
    /// Continue normal execution, advance to next command.
    Continue,
    /// Jump to a specific position in the command cache.
    Jump(usize),
    /// Need more commands in cache before proceeding.
    ProbeNeeded {
        /// Decides, command by command, where the probe stops.
        strategy: Box<dyn ScanStrategy>,
        /// Added to the position at which the strategy matched.
        offset: i32,
    },
    /// An error occurred.
    Error(E),
}

/// `e` is a runtime error with exactly the message `msg`.
pub open spec fn is_runtime_error(e: KoiError, msg: Seq<char>) -> bool {
    e matches KoiError::Runtime { message } && message@ == msg
}

/// `e` is a command-not-found error for exactly the name `name`.
pub open spec fn is_not_found_error(e: KoiError, name: Seq<char>) -> bool {
    e matches KoiError::CommandNotFound { name: n } && n@ == name
}

/// `r` is the dispatch result `Error(e)` with `e` a runtime error with message `msg`.
pub open spec fn is_runtime_failure(r: DispatchResult, msg: Seq<char>) -> bool {
    r matches DispatchResult::Error(e) && is_runtime_error(e, msg)
}

impl KoiError {
    /// Create a new runtime error.
    pub fn runtime(message: &str) -> (e: KoiError)
        ensures
            is_runtime_error(e, message@),
    {
        KoiError::Runtime { message: message.to_owned() }
    }

    /// Create a new command not found error.
    pub fn command_not_found(name: &str) -> (e: KoiError)
        ensures
            is_not_found_error(e, name@),
    {
        KoiError::CommandNotFound { name: name.to_owned() }
    }

    /// Whether this is a command-not-found error.
    pub fn is_command_not_found(&self) -> (b: bool)
        ensures
            b == (*self is CommandNotFound),
    {
        match self {
            KoiError::CommandNotFound { .. } => true,
            _ => false,
        }
    }

    /// The text that describes the error, as its display shows it.
    pub fn to_string(&self) -> (s: String)
        ensures
            *self matches KoiError::Runtime { message } ==> s@ == "Runtime error: "@ + message@,
            *self matches KoiError::CommandNotFound { name } ==> s@ == "Command '"@ + name@
                + "' not found"@,
    {
        match self {
            KoiError::Runtime { message } => {
                let mut s = String::from_str("Runtime error: ");
                s.append(message.as_str());
                proof {
                    reveal_strlit("Runtime error: ");
                }
                s
            },
            KoiError::CommandNotFound { name } => {
                let mut s = String::from_str("Command '");
                s.append(name.as_str());
                s.append("' not found");
                proof {
                    reveal_strlit("Command '");
                    reveal_strlit("' not found");
                }
                s
            },
            KoiError::Parse(e) => {
                let mut s = String::from_str("Parse error: ");
                let t = crate::outside::parse_error_text(e);
                s.append(t.as_str());
                s
            },
            KoiError::Io(e) => {
                let mut s = String::from_str("IO error: ");
                let t = crate::outside::io_error_text(e);
                s.append(t.as_str());
                s
            },
        }
    }
}

} // verus!
