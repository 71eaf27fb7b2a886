//! The failures that the bridge reports to its callers.
use vstd::prelude::*;

verus! {

/// A failure of a backend, a tool provider or the routing between them.
pub enum BridgeError {
    /// A credential is required and absent or refused.
    Auth(String),
    /// Network or process input/output failed.
    Transport(String),
    /// A reply did not have the expected shape.
    Protocol(String),
    /// No reply came for a request within its time bound.
    RpcTimeout,
    /// The provider answered a request with an error.
    Rpc { code: i64, message: String },
    /// The provider's process ended; its exit status, when known.
    ProcessExited(Option<i32>),
    /// No provider offers a tool of this name.
    UnknownTool(String),
    /// The tool ran and reported failure; its text.
    ToolExecution(String),
}

} // verus!
