//! The messages that a client and a server exchange.

use vstd::prelude::*;

verus! {

/// A message from a client to a server.
#[derive(Debug, PartialEq, Eq)]
pub enum ClientMessage {
    /// A message from the client when it calls a method on the server.
    RPCRequest {
        /// A unique counter for each RPC call.
        /// This is used to match responses to requests. It restricts the number
        /// of concurrent operations to 256. Active operations cannot
        /// reuse the same ID, therefore IDs of completed requests can
        /// be reused.
        id: u8,
        /// The serialized call: the method and its arguments.
        internal: Vec<u8>,
    },
}

/// A message from a server to a client.
#[derive(Debug, PartialEq, Eq)]
pub enum ServerMessage {
    /// A message from the server with the output of a client's method call.
    RPCResponse {
        /// The ID of the call that this responds to.
        id: u8,
        /// The function's serialized output, or why there is none.
        output: Result<Vec<u8>, RpcHandlerError>,
    },
    /// A message from the server with a new event.
    NewEvent {
        /// The serialized event.
        event: Vec<u8>,
    },
    /// The server updates the connection state: the index of each field that
    /// changed, with the field's serialized new value.
    StateChange(Vec<(usize, Vec<u8>)>),
}

/// Why an RPC call has no output.
#[derive(Clone, Copy, Debug, PartialEq, Eq, Structural)]
pub enum RpcHandlerError {
    /// The input bytes for the RPC call were invalid.
    BadInputBytes,
    /// The output bytes for the RPC call were invalid.
    BadOutputBytes,
    /// The connection state was poisoned. This means that the connection
    /// state was dropped while it was locked. This is a fatal error.
    /// If the runtime receives this error, it will close the connection.
    StatePoisoned,
    /// You tried to make an RPC call before your client was connected
    ClientNotConnected,
    /// You've tried to make too many RPC calls at once.
    TooManyCallsInFlight,
}

/// What a handler gives for an RPC call.
pub type HandlerResult<T> = Result<T, RpcHandlerError>;

}
