//! What an application holds of a running client and a running server, and what its
//! calls come to.

use vstd::prelude::*;

use crate::text::same_text;
use crate::wire::{HandlerResult, RpcHandlerError};

verus! {

/// An application's client. `S` shuts the connection down, `R` takes calls to it.
pub struct ClientHandle<S, R> {
    /// The server's host, with its port.
    pub host: String,
    /// Whether the server's certificate goes unverified.
    pub self_signed: bool,
    /// What shuts the connection down.
    pub shutdown: Option<S>,
    /// What takes calls.
    pub rpc_tx: Option<R>,
}

impl<S, R> ClientHandle<S, R> {
    /// The client once it is connected.
    pub open spec fn after_connect(self, shutdown: S, rpc_tx: R) -> Self {
        ClientHandle::<S, R> { shutdown: Some(shutdown), rpc_tx: Some(rpc_tx), ..self }
    }

    /// The client once it was told to disconnect, and the signal that is sent, if one is.
    pub open spec fn after_disconnect(self) -> (Self, Option<S>) {
        (ClientHandle::<S, R> { shutdown: None, ..self }, self.shutdown)
    }

    /// A client, not connected, that doesn't verify the server's certificate.
    pub fn new_self_signed(host: &str) -> (r: Self)
        ensures
            r.host@ == host@,
            r.self_signed,
            r.shutdown is None,
            r.rpc_tx is None,
    {
        ClientHandle { host: host.to_owned(), self_signed: true, shutdown: None, rpc_tx: None }
    }

    /// A client, not connected.
    pub fn new(host: &str) -> (r: Self)
        ensures
            r.host@ == host@,
            !r.self_signed,
            r.shutdown is None,
            r.rpc_tx is None,
    {
        ClientHandle { host: host.to_owned(), self_signed: false, shutdown: None, rpc_tx: None }
    }

    /// The client is connected.
    pub fn connected(&mut self, shutdown: S, rpc_tx: R)
        ensures
            *final(self) == old(self).after_connect(shutdown, rpc_tx),
    {
        self.shutdown = Some(shutdown);
        self.rpc_tx = Some(rpc_tx);
    }

    /// Disconnects the client: gives what shuts the connection down, once.
    pub fn disconnect(&mut self) -> (shutdown: Option<S>)
        ensures
            (*final(self), shutdown) == old(self).after_disconnect(),
    {
        self.shutdown.take()
    }

    /// What a call is sent to, and its bytes. A client that was never connected has
    /// nothing to send it to; a call that could not be serialized is not sent.
    pub fn prepare_call(&self, encoded: Option<Vec<u8>>) -> (r: HandlerResult<(&R, Vec<u8>)>)
        ensures
            r == match (self.rpc_tx, encoded) {
                (None, _) => Err(RpcHandlerError::ClientNotConnected),
                (Some(_), None) => Err(RpcHandlerError::BadInputBytes),
                (Some(rpc_tx), Some(bytes)) => Ok((&rpc_tx, bytes)),
            },
    {
        match &self.rpc_tx {
            None => Err(RpcHandlerError::ClientNotConnected),
            Some(rpc_tx) => match encoded {
                None => Err(RpcHandlerError::BadInputBytes),
                Some(bytes) => Ok((rpc_tx, bytes)),
            },
        }
    }
}

/// What a client's call gives: the output that was read from the reply, an error if it
/// could not be read, or the error that came in its place.
pub open spec fn finished<T>(reply: HandlerResult<Option<T>>) -> HandlerResult<T> {
    match reply {
        Ok(Some(output)) => Ok(output),
        Ok(None) => Err(RpcHandlerError::BadOutputBytes),
        Err(error) => Err(error),
    }
}

/// The call that a handler takes, or an error if the input could not be read as one.
pub open spec fn accepted<T>(call: Option<T>) -> HandlerResult<T> {
    match call {
        Some(call) => Ok(call),
        None => Err(RpcHandlerError::BadInputBytes),
    }
}

/// What a client's call gives.
pub fn finish_call<T>(reply: HandlerResult<Option<T>>) -> (r: HandlerResult<T>)
    ensures
        r == finished(reply),
{
    match reply {
        Ok(Some(output)) => Ok(output),
        Ok(None) => Err(RpcHandlerError::BadOutputBytes),
        Err(error) => Err(error),
    }
}

/// The call that a handler takes.
pub fn accept_call<T>(call: Option<T>) -> (r: HandlerResult<T>)
    ensures
        r == accepted(call),
{
    match call {
        Some(call) => Ok(call),
        None => Err(RpcHandlerError::BadInputBytes),
    }
}

/// Which methods of a service a connection may call.
#[derive(Debug, PartialEq, Eq)]
pub enum Features {
    /// Every method.
    All,
    /// The methods with these names.
    Only(Vec<String>),
}

impl Features {
    /// Whether the method with a name may be called.
    pub open spec fn enables(&self, method: Seq<char>) -> bool {
        match self {
            Features::All => true,
            Features::Only(names) => names@.map_values(|name: String| name@).contains(method),
        }
    }

    /// Whether the method with a name may be called.
    pub fn allows(&self, method: &str) -> (r: bool)
        ensures
            r == self.enables(method@),
    {
        match self {
            Features::All => true,
            Features::Only(names) => is_among(names, method),
        }
    }
}

/// Whether a text is among others.
fn is_among(texts: &Vec<String>, text: &str) -> (r: bool)
    ensures
        r == texts@.map_values(|text: String| text@).contains(text@),
{
    let ghost contents = texts@.map_values(|text: String| text@);
    let mut i: usize = 0;
    while i < texts.len()
        invariant
            i <= texts.len(),
            contents == texts@.map_values(|text: String| text@),
            forall|j: int| 0 <= j < i ==> #[trigger] contents[j] != text@,
        decreases texts.len() - i,
    {
        assert(contents[i as int] == texts@[i as int]@);
        if same_text(texts[i].as_str(), text) {
            return true;
        }
        i += 1;
    }
    false
}

/// The call of a method that a handler takes on a connection with features, or an error if
/// the method is not enabled there.
pub open spec fn enabled_call<T>(features: Features, method: Seq<char>, call: T) -> HandlerResult<
    T,
> {
    if features.enables(method) {
        Ok(call)
    } else {
        Err(RpcHandlerError::BadInputBytes)
    }
}

/// The call of a method that a handler takes on a connection with features.
pub fn accept_enabled_call<T>(features: &Features, method: &str, call: T) -> (r: HandlerResult<T>)
    ensures
        r == enabled_call(*features, method@, call),
{
    if features.allows(method) {
        Ok(call)
    } else {
        Err(RpcHandlerError::BadInputBytes)
    }
}

/// An application's server. `C` is its configuration, `S` shuts it down.
pub struct ServerHandle<C, S> {
    /// The server's configuration.
    pub config: C,
    /// What shuts the server down.
    pub shutdown: Option<S>,
    /// Whether the server has been started.
    pub control_channels: Option<()>,
}

impl<C, S> ServerHandle<C, S> {
    /// The server once it has started.
    pub open spec fn after_start(self, shutdown: S) -> Self {
        ServerHandle::<C, S> { shutdown: Some(shutdown), control_channels: Some(()), ..self }
    }

    /// The server once it was told to stop, and the signal that is sent, if one is.
    pub open spec fn after_stop(self) -> (Self, Option<S>) {
        (ServerHandle::<C, S> { shutdown: None, ..self }, self.shutdown)
    }

    /// A server that has not been started.
    pub fn new(config: C) -> (r: Self)
        ensures
            r == (ServerHandle::<C, S> { config, shutdown: None, control_channels: None }),
    {
        ServerHandle { config, shutdown: None, control_channels: None }
    }

    /// The server has started.
    pub fn started(&mut self, shutdown: S)
        ensures
            *final(self) == old(self).after_start(shutdown),
    {
        self.control_channels = Some(());
        self.shutdown = Some(shutdown);
    }

    /// Stops the server: gives what shuts it down, once.
    pub fn stop(&mut self) -> (shutdown: Option<S>)
        ensures
            (*final(self), shutdown) == old(self).after_stop(),
    {
        self.shutdown.take()
    }
}

/// A client that is connected is shut down by the signal it was connected with, and once:
/// told again, it sends no signal and stays as it is. A client that was never connected
/// sends none.
pub proof fn a_client_is_shut_down_once<S, R>(client: ClientHandle<S, R>, shutdown: S, rpc_tx: R)
    ensures
        client.after_connect(shutdown, rpc_tx).after_disconnect().1 == Some(shutdown),
        client.after_disconnect().0.after_disconnect() == (
            client.after_disconnect().0,
            None::<S>,
        ),
        client.shutdown is None ==> client.after_disconnect() == (client, None::<S>),
{
}

/// A server that has started is shut down by the signal it was started with, and once: told
/// again, it sends no signal and stays as it is. A server that was never started sends none.
pub proof fn a_server_is_shut_down_once<C, S>(server: ServerHandle<C, S>, shutdown: S)
    ensures
        server.after_start(shutdown).after_stop().1 == Some(shutdown),
        server.after_stop().0.after_stop() == (server.after_stop().0, None::<S>),
        server.shutdown is None ==> server.after_stop() == (server, None::<S>),
{
}

/// A client's call gives the output that was read, whatever it is; bytes that could not be
/// read give one error, and every error that came in place of a reply is handed on as it is.
pub proof fn a_reply_gives_its_output<T>(output: T, error: RpcHandlerError)
    ensures
        finished(Ok(Some(output))) == Ok::<T, RpcHandlerError>(output),
        finished(Ok(None::<T>)) == Err::<T, _>(RpcHandlerError::BadOutputBytes),
        finished(Err::<Option<T>, _>(error)) == Err::<T, _>(error),
{
}

/// A handler takes every call that was read, and answers what was not with an error.
pub proof fn every_call_that_was_read_is_taken<T>(call: T)
    ensures
        accepted(Some(call)) == Ok::<T, RpcHandlerError>(call),
        accepted(None::<T>) == Err::<T, _>(RpcHandlerError::BadInputBytes),
{
}

/// A connection with every feature may call every method. One with some may call exactly
/// those, however many they are; a call of another method gives an error.
pub proof fn exactly_the_named_methods_are_enabled<T>(
    names: Vec<String>,
    method: Seq<char>,
    call: T,
)
    ensures
        enabled_call(Features::All, method, call) == Ok::<T, RpcHandlerError>(call),
        (exists|i: int| 0 <= i < names@.len() && #[trigger] names@[i]@ == method) ==> enabled_call(
            Features::Only(names),
            method,
            call,
        ) == Ok::<T, RpcHandlerError>(call),
        (forall|i: int| 0 <= i < names@.len() ==> #[trigger] names@[i]@ != method) ==> enabled_call(
            Features::Only(names),
            method,
            call,
        ) == Err::<T, _>(RpcHandlerError::BadInputBytes),
{
    let contents = names@.map_values(|name: String| name@);
    if exists|i: int| 0 <= i < names@.len() && #[trigger] names@[i]@ == method {
        let i = choose|i: int| 0 <= i < names@.len() && #[trigger] names@[i]@ == method;
        assert(contents[i] == method);
        assert(contents.contains(method));
    } else {
        assert(!contents.contains(method)) by {
            if contents.contains(method) {
                let i = choose|i: int| 0 <= i < contents.len() && contents[i] == method;
                assert(names@[i]@ == method);
            }
        }
    }
}

/// Connecting gives a client what takes its calls and what shuts it down, and disconnecting
/// takes only the latter away. Neither changes the host, nor whether the server's certificate
/// goes unverified.
pub proof fn connecting_keeps_the_rest<S, R>(client: ClientHandle<S, R>, shutdown: S, rpc_tx: R)
    ensures
        ({
            let connected = client.after_connect(shutdown, rpc_tx);
            &&& connected.rpc_tx == Some(rpc_tx)
            &&& connected.shutdown == Some(shutdown)
            &&& connected.host == client.host
            &&& connected.self_signed == client.self_signed
        }),
        ({
            let disconnected = client.after_disconnect().0;
            &&& disconnected.rpc_tx == client.rpc_tx
            &&& disconnected.shutdown is None
            &&& disconnected.host == client.host
            &&& disconnected.self_signed == client.self_signed
        }),
{
}

/// Starting a server gives it what shuts it down, and stopping it takes that away. Neither
/// changes its configuration, and a server that was started stays one that was.
pub proof fn starting_keeps_the_configuration<C, S>(server: ServerHandle<C, S>, shutdown: S)
    ensures
        server.after_start(shutdown).config == server.config,
        server.after_start(shutdown).shutdown == Some(shutdown),
        server.after_start(shutdown).control_channels is Some,
        server.after_stop().0.config == server.config,
        server.after_stop().0.shutdown is None,
        server.after_stop().0.control_channels == server.control_channels,
{
}

}
