//! The error type shared by the whole library.

use vstd::prelude::*;

verus! {

/// What can go wrong inside the indexer.
#[derive(Debug, Clone)]
pub enum AppError {
    /// A clean, requested exit.
    Exit,
    /// A condition worth reporting that does not stop the task.
    Warning(String),
    /// A feature that is recognized but not available.
    NotImplemented(String),
    /// A condition the task cannot recover from.
    Unrecoverable(String),
    /// A malformed or rejected configuration.
    ConfigError(String),
    /// A channel refused or dropped a message.
    ChannelSendError(String),
    /// A websocket transport failure.
    WebsocketError(String),
    /// Any other failure.
    GenericError(String),
}

pub type AppResult<T> = Result<T, AppError>;

} // verus!
