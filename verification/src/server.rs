//! A server: its configuration and its side of the handshake.

use rcgen::generate_simple_self_signed;
use vstd::prelude::*;
use vstd::slice::slice_to_vec;
use vstd::utf8::{encode_utf8, is_ascii_chars};

use crate::bytes::same_bytes;
use crate::version::{
    hl_major, hl_version_string, major_version, protocol_bytes, protocols_differ,
};

verus! {

/// The bytes of a number, most significant first, without leading zeros.
pub open spec fn big_endian(n: nat) -> Seq<u8>
    decreases n,
{
    if n == 0 {
        seq![]
    } else {
        big_endian(n / 256).push((n % 256) as u8)
    }
}

/// The DER form of a length.
pub open spec fn der_length(n: nat) -> Seq<u8> {
    if n < 128 {
        seq![n as u8]
    } else {
        seq![(128 + big_endian(n).len()) as u8] + big_endian(n)
    }
}

/// The DER form of a value with a tag and contents.
pub open spec fn der(tag: u8, contents: Seq<u8>) -> Seq<u8> {
    seq![tag] + der_length(contents.len()) + contents
}

/// The extension of a certificate, in DER form, that gives the names of its subject, which
/// has one DNS name: the sequence of the object identifier 2.5.29.17 and an octet string,
/// which holds the sequence of the names.
pub open spec fn subject_name_extension(name: Seq<u8>) -> Seq<u8> {
    der(0x30, der(0x06, seq![0x55, 0x1d, 0x11]) + der(0x04, der(0x30, der(0x82, name))))
}

/// Whether some bytes stand, one after the other, among others.
pub open spec fn holds(bytes: Seq<u8>, part: Seq<u8>) -> bool {
    exists|i: int|
        0 <= i && i + part.len() <= bytes.len() && #[trigger] bytes.subrange(i, i + part.len())
            == part
}

/// Whether a certificate, in DER form, is issued for a name.
pub open spec fn is_issued_for(certificate: Seq<u8>, name: Seq<char>) -> bool {
    holds(certificate, subject_name_extension(encode_utf8(name)))
}

/// The public key at the end of a private key in PKCS 8 form: a point of the curve P-256,
/// not compressed, which takes 65 bytes.
pub open spec fn public_key(private_key: Seq<u8>) -> Seq<u8> {
    private_key.skip(private_key.len() - 65)
}

/// Whether a private key, in PKCS 8 form, belongs to a certificate in DER form: the
/// certificate holds the bit string of its public key.
pub open spec fn belongs_to(private_key: Seq<u8>, certificate: Seq<u8>) -> bool {
    &&& private_key.len() >= 65
    &&& public_key(private_key)[0] == 4
    &&& holds(certificate, der(0x03, seq![0u8] + public_key(private_key)))
}

/// Calls `rcgen::generate_simple_self_signed` for one name, and serializes the
/// certificate and its private key in DER form. The certificate holds the extension that
/// gives that name as the one name of its subject, and the public key with which the
/// private key's PKCS 8 document ends. Which key pair it is, and with it the rest of the
/// certificate, is left to chance. `None` if no key can be generated or the certificate
/// cannot be signed. The name has to be ASCII: serializing panics on any other.
#[verifier::external_body]
fn self_signed_certificate(name: &str) -> (r: Option<(Vec<u8>, Vec<u8>)>)
    requires
        is_ascii_chars(name@),
    ensures
        r matches Some((certificate, key)) ==> is_issued_for(certificate@, name@) && belongs_to(
            key@,
            certificate@,
        ),
{
    let certificate = generate_simple_self_signed(vec![name.to_string()]).ok()?;
    let der = certificate.serialize_der().ok()?;
    Some((der, certificate.serialize_private_key_der()))
}

/// Whether this was generated for a name: a certificate and its private key, or nothing.
pub closed spec fn was_generated(name: &str, generated: Option<(Vec<u8>, Vec<u8>)>) -> bool {
    call_ensures(self_signed_certificate, (name,), generated)
}

/// A server's certificate and its private key, both in DER form.
#[derive(Clone, Debug, PartialEq, Eq)]
pub struct TlsIdentity {
    /// The certificate.
    pub certificate: Vec<u8>,
    /// The private key.
    pub private_key: Vec<u8>,
}

/// How a server is reached. `T` is how it terminates TLS.
#[derive(Clone, Debug, PartialEq, Eq)]
pub struct ServerConfig<T> {
    /// The address that the server listens on.
    pub address: String,
    /// The major version of the protocol that the server speaks.
    pub version_major: u32,
    /// How the server terminates TLS.
    pub tls: T,
}

impl<T> ServerConfig<T> {
    /// A server at a host, with its TLS configuration.
    pub fn new(host: &str, tls: T) -> (r: Self)
        ensures
            r.address@ == host@,
            r.version_major == hl_major(),
            r.tls == tls,
    {
        ServerConfig { address: host.to_owned(), version_major: major_version(), tls }
    }
}

impl ServerConfig<TlsIdentity> {
    /// A server at a host, with a new self-signed certificate for that host. `None` if
    /// no certificate can be made.
    pub fn new_self_signed(host: &str) -> (r: Option<Self>)
        requires
            is_ascii_chars(host@),
        ensures
            r matches Some(config) ==> {
                &&& config.address@ == host@
                &&& config.version_major == hl_major()
                &&& is_issued_for(config.tls.certificate@, host@)
                &&& belongs_to(config.tls.private_key@, config.tls.certificate@)
            },
            exists|generated: Option<(Vec<u8>, Vec<u8>)>| #[trigger]
                was_generated(host, generated) && match generated {
                    Some((certificate, private_key)) => {
                        &&& r is Some
                        &&& r->0.tls.certificate == certificate
                        &&& r->0.tls.private_key == private_key
                    },
                    None => r is None,
                },
    {
        let generated = self_signed_certificate(host);
        assert(was_generated(host, generated));
        Self::with_generated(host, generated)
    }

    /// A server at a host, with the certificate and the private key that were generated
    /// for it, both in DER form. `None` exactly if none were.
    pub fn with_generated(host: &str, generated: Option<(Vec<u8>, Vec<u8>)>) -> (r: Option<Self>)
        ensures
            match generated {
                Some((certificate, private_key)) => {
                    &&& r is Some
                    &&& r->0.address@ == host@
                    &&& r->0.version_major == hl_major()
                    &&& r->0.tls.certificate == certificate
                    &&& r->0.tls.private_key == private_key
                },
                None => r is None,
            },
    {
        match generated {
            Some((certificate, private_key)) => Some(
                Self::new(host, TlsIdentity { certificate, private_key }),
            ),
            None => None,
        }
    }
}

/// The HardLight server. `T` is how it terminates TLS, `F` makes a new handler for
/// each connection.
pub struct Server<T, F> {
    /// The server's configuration.
    pub config: ServerConfig<T>,
    /// What makes a new handler for each connection.
    pub rpc_factory: F,
    /// The bytes by which the server tells a client the protocol.
    pub hl_version_string: Vec<u8>,
}

/// How a server answers a client that asks for a connection.
#[derive(Debug, PartialEq, Eq)]
pub enum HandshakeReply {
    /// With this protocol.
    Accept(Vec<u8>),
    /// With this HTTP status.
    Reject(u16),
}

/// The HTTP status of a request that is not valid.
pub const BAD_REQUEST: u16 = 400;

/// Whether a server with a protocol answers a client that asked for one, or for none,
/// in this way: the client is accepted with the server's own protocol exactly if that
/// is what it asked for.
pub open spec fn is_reply(
    protocol: Seq<u8>,
    requested: Option<Seq<u8>>,
    reply: HandshakeReply,
) -> bool {
    if requested == Some(protocol) {
        reply is Accept && reply->Accept_0@ == protocol
    } else {
        reply == HandshakeReply::Reject(BAD_REQUEST)
    }
}

/// The protocol that a client finds in a server's answer.
pub open spec fn replied_protocol(reply: HandshakeReply) -> Option<Seq<u8>> {
    match reply {
        HandshakeReply::Accept(protocol) => Some(protocol@),
        HandshakeReply::Reject(_) => None,
    }
}

impl<T, F> Server<T, F> {
    /// A server with a configuration and what makes its handlers.
    pub fn new(config: ServerConfig<T>, factory: F) -> (r: Self)
        ensures
            r.config == config,
            r.rpc_factory == factory,
            r.hl_version_string@ == protocol_bytes(config.version_major),
    {
        Server {
            hl_version_string: hl_version_string(config.version_major),
            config,
            rpc_factory: factory,
        }
    }

    /// Answers a client that asks for a connection with a protocol, or with none. A
    /// request is only valid if it names the server's protocol.
    pub fn check_handshake(&self, requested: Option<&[u8]>) -> (reply: HandshakeReply)
        ensures
            is_reply(
                self.hl_version_string@,
                match requested {
                    Some(bytes) => Some(bytes@),
                    None => None,
                },
                reply,
            ),
    {
        match requested {
            Some(bytes) => if same_bytes(bytes, self.hl_version_string.as_slice()) {
                HandshakeReply::Accept(slice_to_vec(self.hl_version_string.as_slice()))
            } else {
                HandshakeReply::Reject(BAD_REQUEST)
            },
            None => HandshakeReply::Reject(BAD_REQUEST),
        }
    }
}

/// A server accepts a client exactly if both speak the protocol of the same major
/// version. The client then finds its own protocol in the answer, and otherwise none.
pub proof fn handshake_agrees_on_the_major_version(
    server_major: u32,
    client_major: u32,
    reply: HandshakeReply,
)
    requires
        is_reply(protocol_bytes(server_major), Some(protocol_bytes(client_major)), reply),
    ensures
        server_major == client_major <==> reply is Accept,
        server_major == client_major <==> replied_protocol(reply) == Some(
            protocol_bytes(client_major),
        ),
        server_major != client_major <==> reply == HandshakeReply::Reject(BAD_REQUEST),
        server_major != client_major <==> replied_protocol(reply) is None,
{
    protocols_differ(server_major, client_major);
}

/// Whatever bytes a client asks with, it is accepted exactly if they are the server's
/// protocol, and then finds those bytes in the answer; one that asks with none, or with
/// others, is told that its request is not valid.
pub proof fn only_the_servers_protocol_is_accepted(
    protocol: Seq<u8>,
    requested: Seq<u8>,
    reply: HandshakeReply,
    silent: HandshakeReply,
)
    requires
        is_reply(protocol, Some(requested), reply),
        is_reply(protocol, None, silent),
    ensures
        reply is Accept <==> requested == protocol,
        requested == protocol ==> replied_protocol(reply) == Some(requested),
        requested != protocol ==> reply == HandshakeReply::Reject(400),
        silent == HandshakeReply::Reject(400),
        replied_protocol(silent) is None,
{
}

}
