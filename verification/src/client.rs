//! A client: its configuration, its side of the handshake, and what it does on an
//! open connection.

use tokio_tungstenite::tungstenite::handshake::client::generate_key;
use vstd::prelude::*;
use vstd::slice::slice_to_vec;
use vstd::utf8::{encode_utf8, encode_utf8_decode_utf8};

use crate::bytes::same_bytes;
use crate::client_loop::{
    client_accepts, client_step, ClientAction, ClientConnection, ClientEvent, ClientFrame,
};
use crate::version::{hl_major, hl_version_string, major_version, protocol_bytes};
use crate::wire::{HandlerResult, ServerMessage};

verus! {

/// A client's copy of the connection state. What applying changes comes to is for each
/// state to say; it is left open where a state does not.
pub trait ClientState: Sized {
    /// Whether applying changes to one state may give another, with a result.
    open spec fn may_become(
        before: Self,
        changes: Seq<(usize, Vec<u8>)>,
        after: Self,
        result: HandlerResult<()>,
    ) -> bool {
        arbitrary()
    }

    /// Applies changes that came from the server.
    fn apply_changes(&mut self, changes: Vec<(usize, Vec<u8>)>) -> (result: HandlerResult<()>)
        ensures
            Self::may_become(*old(self), changes@, *final(self), result),
    ;
}

/// Whether applying changes to one state may give another, with whatever result.
pub open spec fn may_become<T: ClientState>(
    before: T,
    changes: Seq<(usize, Vec<u8>)>,
    after: T,
) -> bool {
    exists|result: HandlerResult<()>| #[trigger] T::may_become(before, changes, after, result)
}

/// Which servers a client trusts.
#[derive(Debug, PartialEq, Eq)]
pub enum Trust {
    /// Any server: its certificate is not verified.
    Unverified,
    /// A server whose certificate goes back to one of these root certificates, each
    /// in DER form.
    Roots(Vec<Vec<u8>>),
}

/// How a client connects.
#[derive(Debug, PartialEq, Eq)]
pub struct ClientConfig {
    /// Which servers the client trusts.
    pub trust: Trust,
    /// The server's host, with its port.
    pub host: String,
}

/// A client.
pub struct Client<T> {
    /// How the client connects.
    pub config: ClientConfig,
    /// The client's copy of the connection state.
    pub state: T,
    /// The bytes by which the client tells the server the protocol.
    pub hl_version_string: Vec<u8>,
}

/// An HTTP request that asks a server for a WebSocket connection.
#[derive(Debug, PartialEq, Eq)]
pub struct UpgradeRequest {
    /// The method.
    pub method: &'static str,
    /// The URI.
    pub uri: String,
    /// The headers, in order: the name and the value of each.
    pub headers: Vec<(&'static str, Vec<u8>)>,
}

/// The contents of a request: the method, the URI, and the name and the value of
/// each header.
#[verifier::ext_equal]
pub struct RequestModel {
    pub method: Seq<char>,
    pub uri: Seq<char>,
    pub headers: Seq<(Seq<char>, Seq<u8>)>,
}

impl View for UpgradeRequest {
    type V = RequestModel;

    open spec fn view(&self) -> RequestModel {
        RequestModel {
            method: self.method@,
            uri: self.uri@,
            headers: self.headers@.map_values(|header: (&'static str, Vec<u8>)| (header.0@, header.1@)),
        }
    }
}

/// The request by which a client asks a host for a connection, with a WebSocket key
/// and the bytes of the protocol.
pub open spec fn upgrade_request(
    host: Seq<char>,
    key: Seq<char>,
    protocol: Seq<u8>,
) -> RequestModel {
    RequestModel {
        method: "GET"@,
        uri: "wss://"@ + host + "/"@,
        headers: seq![
            ("Host"@, encode_utf8(host)),
            ("Connection"@, encode_utf8("Upgrade"@)),
            ("Upgrade"@, encode_utf8("websocket"@)),
            ("Sec-WebSocket-Version"@, encode_utf8("13"@)),
            ("Sec-WebSocket-Key"@, encode_utf8(key)),
            ("Sec-WebSocket-Protocol"@, protocol),
        ],
    }
}

/// Whether a URI names a host: that is what stands between the scheme `wss://` and the slash
/// at the end.
pub open spec fn names_host(uri: Seq<char>, host: Seq<char>) -> bool {
    &&& uri.len() == 6 + host.len() + 1
    &&& uri.subrange(0, 6) == "wss://"@
    &&& uri.subrange(6, uri.len() - 1) == host
    &&& uri.last() == '/'
}

/// The Base64 digit for a number below 64.
pub open spec fn base64_digit(n: int) -> char {
    if n < 26 {
        ('A' as u32 + n) as char
    } else if n < 52 {
        ('a' as u32 + (n - 26)) as char
    } else if n < 62 {
        ('0' as u32 + (n - 52)) as char
    } else if n == 62 {
        '+'
    } else {
        '/'
    }
}

/// The Base64 form of bytes: four digits for each three bytes, with padding.
pub open spec fn base64(bytes: Seq<u8>) -> Seq<char>
    decreases bytes.len(),
{
    if bytes.len() == 0 {
        seq![]
    } else if bytes.len() == 1 {
        seq![base64_digit((bytes[0] / 4) as int), base64_digit(bytes[0] % 4 * 16), '=', '=']
    } else if bytes.len() == 2 {
        seq![
            base64_digit((bytes[0] / 4) as int),
            base64_digit(bytes[0] % 4 * 16 + bytes[1] / 16),
            base64_digit(bytes[1] % 16 * 4),
            '=',
        ]
    } else {
        seq![
            base64_digit((bytes[0] / 4) as int),
            base64_digit(bytes[0] % 4 * 16 + bytes[1] / 16),
            base64_digit(bytes[1] % 16 * 4 + bytes[2] / 64),
            base64_digit((bytes[2] % 64) as int),
        ] + base64(bytes.skip(3))
    }
}

/// Whether a text is a WebSocket key: the Base64 form of sixteen bytes.
pub open spec fn is_websocket_key(key: Seq<char>) -> bool {
    exists|nonce: Seq<u8>| nonce.len() == 16 && key == #[trigger] base64(nonce)
}

/// Calls `tungstenite::handshake::client::generate_key`: the Base64 form of sixteen random
/// bytes. Which ones is left to chance.
#[verifier::external_body]
fn websocket_key() -> (r: String)
    ensures
        is_websocket_key(r@),
{
    generate_key()
}

/// Whether a key is one that was generated.
pub closed spec fn key_was_generated(key: String) -> bool {
    call_ensures(websocket_key, (), key)
}

/// Why a handshake failed.
#[derive(Clone, Copy, Debug, PartialEq, Eq, Structural)]
pub enum HandshakeError {
    /// The server did not answer with the client's protocol.
    HandshakeIncomplete,
}

fn text_bytes(text: &str) -> (r: Vec<u8>)
    ensures
        r@ == encode_utf8(text@),
{
    slice_to_vec(text.as_bytes())
}

fn bytes_copy(bytes: &Vec<u8>) -> (r: Vec<u8>)
    ensures
        r@ == bytes@,
{
    slice_to_vec(bytes.as_slice())
}

impl<T: ClientState + Default> Client<T> {
    /// Creates a new client that doesn't verify the server's certificate.
    pub fn new_self_signed(host: &str) -> (r: Self)
        ensures
            r.config.trust is Unverified,
            r.config.host@ == host@,
            call_ensures(T::default, (), r.state),
            r.hl_version_string@ == protocol_bytes(hl_major()),
    {
        Self::new_with_config(ClientConfig { trust: Trust::Unverified, host: host.to_owned() })
    }

    /// Create a new client that trusts the given root certificates, which are the
    /// system's.
    pub fn new(host: &str, roots: Vec<Vec<u8>>) -> (r: Self)
        ensures
            r.config.trust == Trust::Roots(roots),
            r.config.host@ == host@,
            call_ensures(T::default, (), r.state),
            r.hl_version_string@ == protocol_bytes(hl_major()),
    {
        Self::new_with_config(ClientConfig { trust: Trust::Roots(roots), host: host.to_owned() })
    }

    /// Create a new client using the given configuration.
    pub fn new_with_config(config: ClientConfig) -> (r: Self)
        ensures
            r.config == config,
            call_ensures(T::default, (), r.state),
            r.hl_version_string@ == protocol_bytes(hl_major()),
    {
        Client {
            config,
            state: T::default(),
            hl_version_string: hl_version_string(major_version()),
        }
    }
}

impl<T> Client<T> {
    /// The request by which the client asks for a connection, with a new key.
    pub fn connect_request(&self) -> (r: UpgradeRequest)
        ensures
            exists|key: Seq<char>|
                is_websocket_key(key) && r@ == #[trigger] upgrade_request(
                    self.config.host@,
                    key,
                    self.hl_version_string@,
                ),
            names_host(r.uri@, self.config.host@),
            exists|key: String| #[trigger]
                key_was_generated(key) && is_websocket_key(key@) && r@ == upgrade_request(
                    self.config.host@,
                    key@,
                    self.hl_version_string@,
                ),
    {
        let key = websocket_key();
        assert(key_was_generated(key));
        self.connect_request_with(key.as_str())
    }

    /// The request by which the client asks for a connection, with a given key.
    pub fn connect_request_with(&self, key: &str) -> (r: UpgradeRequest)
        ensures
            r@ == upgrade_request(self.config.host@, key@, self.hl_version_string@),
            names_host(r.uri@, self.config.host@),
    {
        let host = self.config.host.as_str();
        let mut uri = "wss://".to_owned();
        uri.append(host);
        uri.append("/");
        let mut headers: Vec<(&'static str, Vec<u8>)> = Vec::new();
        headers.push(("Host", text_bytes(host)));
        headers.push(("Connection", text_bytes("Upgrade")));
        headers.push(("Upgrade", text_bytes("websocket")));
        headers.push(("Sec-WebSocket-Version", text_bytes("13")));
        headers.push(("Sec-WebSocket-Key", text_bytes(key)));
        headers.push(("Sec-WebSocket-Protocol", bytes_copy(&self.hl_version_string)));
        let r = UpgradeRequest { method: "GET", uri, headers };
        assert(r@ =~= upgrade_request(self.config.host@, key@, self.hl_version_string@));
        proof {
            a_request_names_its_host(self.config.host@, key@, self.hl_version_string@);
        }
        r
    }

    /// Checks the protocol that the server answered with: it has to be there, and to
    /// be the client's.
    pub fn check_protocol(&self, protocol: Option<&[u8]>) -> (r: Result<(), HandshakeError>)
        ensures
            r == if protocol is Some && protocol->0@ == self.hl_version_string@ {
                Ok(())
            } else {
                Err(HandshakeError::HandshakeIncomplete)
            },
    {
        match protocol {
            Some(bytes) => if same_bytes(bytes, self.hl_version_string.as_slice()) {
                Ok(())
            } else {
                Err(HandshakeError::HandshakeIncomplete)
            },
            None => Err(HandshakeError::HandshakeIncomplete),
        }
    }
}

impl<T: ClientState> Client<T> {
    /// Takes an event on an open connection, and says what to do about it. Changes to
    /// the connection state are applied on the spot, whether or not that succeeds.
    pub fn on_event<C>(
        &mut self,
        connection: &mut ClientConnection<C>,
        event: ClientEvent<C>,
    ) -> (action: ClientAction<C>)
        requires
            client_accepts(old(connection)@, event),
        ensures
            final(connection)@ == client_step(old(connection)@, event).0,
            final(self).config == old(self).config,
            final(self).hl_version_string == old(self).hl_version_string,
            match client_step(old(connection)@, event).1 {
                ClientAction::Apply(changes) => {
                    &&& action == ClientAction::<C>::Wait
                    &&& may_become(old(self).state, changes@, final(self).state)
                },
                other => action == other && final(self).state == old(self).state,
            },
            event matches ClientEvent::Frame(frame) ==> frame matches ClientFrame::Message(message)
                ==> message matches ServerMessage::StateChange(changes) ==> {
                &&& action == ClientAction::<C>::Wait
                &&& may_become(old(self).state, changes@, final(self).state)
                &&& final(connection)@ == old(connection)@
            },
    {
        match connection.step(event) {
            ClientAction::Apply(changes) => {
                let _result = self.state.apply_changes(changes);
                assert(T::may_become(old(self).state, changes@, self.state, _result));
                ClientAction::Wait
            },
            action => action,
        }
    }
}

/// The URI of a request names the client's own host: without the scheme in front, `wss://`,
/// and the slash at the end it is that host. The request has the host, the key and the
/// protocol in the headers for them, and asks for a WebSocket of version 13.
pub proof fn a_request_names_its_host(host: Seq<char>, key: Seq<char>, protocol: Seq<u8>)
    ensures
        ({
            let request = upgrade_request(host, key, protocol);
            &&& request.method == "GET"@
            &&& names_host(request.uri, host)
            &&& request.headers.len() == 6
            &&& request.headers.contains(("Host"@, encode_utf8(host)))
            &&& request.headers.contains(("Sec-WebSocket-Key"@, encode_utf8(key)))
            &&& request.headers.contains(("Sec-WebSocket-Protocol"@, protocol))
            &&& request.headers.contains(("Connection"@, encode_utf8("Upgrade"@)))
            &&& request.headers.contains(("Upgrade"@, encode_utf8("websocket"@)))
            &&& request.headers.contains(("Sec-WebSocket-Version"@, encode_utf8("13"@)))
        }),
{
    reveal_strlit("wss://");
    reveal_strlit("/");
    let request = upgrade_request(host, key, protocol);
    assert(request.uri.subrange(0, 6) =~= "wss://"@);
    assert(request.uri.subrange(6, request.uri.len() - 1) =~= host);
    assert(request.headers[0] == ("Host"@, encode_utf8(host)));
    assert(request.headers[1] == ("Connection"@, encode_utf8("Upgrade"@)));
    assert(request.headers[2] == ("Upgrade"@, encode_utf8("websocket"@)));
    assert(request.headers[3] == ("Sec-WebSocket-Version"@, encode_utf8("13"@)));
    assert(request.headers[4] == ("Sec-WebSocket-Key"@, encode_utf8(key)));
    assert(request.headers[5] == ("Sec-WebSocket-Protocol"@, protocol));
}

/// Clients with different hosts ask for different URIs, and two requests are the same exactly
/// if they are for the same host, with the same key and the same protocol.
pub proof fn requests_tell_hosts_apart(
    host: Seq<char>,
    key: Seq<char>,
    protocol: Seq<u8>,
    other_host: Seq<char>,
    other_key: Seq<char>,
    other_protocol: Seq<u8>,
)
    ensures
        upgrade_request(host, key, protocol).uri == upgrade_request(
            other_host,
            other_key,
            other_protocol,
        ).uri <==> host == other_host,
        upgrade_request(host, key, protocol) == upgrade_request(
            other_host,
            other_key,
            other_protocol,
        ) <==> host == other_host && key == other_key && protocol == other_protocol,
{
    a_request_names_its_host(host, key, protocol);
    a_request_names_its_host(other_host, other_key, other_protocol);
    let one = upgrade_request(host, key, protocol);
    let other = upgrade_request(other_host, other_key, other_protocol);
    if one == other {
        assert(one.headers[4] == other.headers[4]);
        assert(one.headers[5] == other.headers[5]);
        encode_utf8_decode_utf8(key);
        encode_utf8_decode_utf8(other_key);
    }
}

/// Nothing of a request is left out of its contents: the method, the URI, and each header, in
/// order, with its name and its value.
pub proof fn a_request_shows_everything(request: UpgradeRequest)
    ensures
        request@.method == request.method@,
        request@.uri == request.uri@,
        request@.headers.len() == request.headers@.len(),
        forall|i: int|
            0 <= i < request.headers@.len() ==> {
                &&& (#[trigger] request.headers@[i]).0@ == request@.headers[i].0
                &&& request.headers@[i].1@ == request@.headers[i].1
            },
{
}

}
