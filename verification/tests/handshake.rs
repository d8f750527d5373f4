use hardlight::client::{HandshakeError, Trust};
use hardlight::client_loop::{ClientAction, ClientConnection, ClientEvent, ClientFrame};
use hardlight::counter::State;
use hardlight::server::{HandshakeReply, TlsIdentity, BAD_REQUEST};
use hardlight::{Client, ClientConfig, Server, ServerConfig, ServerMessage};

fn client(host: &str) -> Client<State> {
    Client::new_self_signed(host)
}

fn server(major: u32) -> Server<(), ()> {
    let config = ServerConfig { address: "localhost:8080".to_string(), version_major: major, tls: () };
    Server::new(config, ())
}

#[test]
fn a_self_signed_client_trusts_any_server() {
    let client = client("localhost:8080");
    assert_eq!(client.config, ClientConfig { trust: Trust::Unverified, host: "localhost:8080".to_string() });
    assert_eq!(client.state, State { counter: 0 });
    assert_eq!(client.hl_version_string, b"hl/1".to_vec());
}

#[test]
fn a_client_trusts_the_given_roots() {
    let client: Client<State> = Client::new("example.com", vec![vec![1, 2], vec![3]]);
    assert_eq!(client.config.trust, Trust::Roots(vec![vec![1, 2], vec![3]]));
    assert_eq!(client.config.host, "example.com");
    assert_eq!(client.state.counter, 0);
    assert_eq!(client.hl_version_string, b"hl/1".to_vec());
}

#[test]
fn a_client_has_the_given_configuration() {
    let config = ClientConfig { trust: Trust::Roots(vec![]), host: "h:1".to_string() };
    let client: Client<State> = Client::new_with_config(config);
    assert_eq!(client.config, ClientConfig { trust: Trust::Roots(vec![]), host: "h:1".to_string() });
    assert_eq!(client.hl_version_string, b"hl/1".to_vec());
}

#[test]
fn a_connection_is_asked_for_with_the_protocol() {
    let request = client("localhost:8080").connect_request_with("dGhlIHNhbXBsZSBub25jZQ==");
    assert_eq!(request.method, "GET");
    assert_eq!(request.uri, "wss://localhost:8080/");
    assert_eq!(
        request.headers,
        vec![
            ("Host", b"localhost:8080".to_vec()),
            ("Connection", b"Upgrade".to_vec()),
            ("Upgrade", b"websocket".to_vec()),
            ("Sec-WebSocket-Version", b"13".to_vec()),
            ("Sec-WebSocket-Key", b"dGhlIHNhbXBsZSBub25jZQ==".to_vec()),
            ("Sec-WebSocket-Protocol", b"hl/1".to_vec()),
        ]
    );
}

#[test]
fn each_request_has_a_key_of_its_own() {
    let client = client("localhost:8080");
    let first = client.connect_request();
    let second = client.connect_request();
    assert_eq!(first.headers[4].0, "Sec-WebSocket-Key");
    let key = &first.headers[4].1;
    assert_eq!(key.len(), 24);
    assert!(key.is_ascii());
    // Sixteen bytes in Base64: the last digit before the padding has two bits.
    let digits = b"ABCDEFGHIJKLMNOPQRSTUVWXYZabcdefghijklmnopqrstuvwxyz0123456789+/";
    assert!(key[..22].iter().all(|digit| digits.contains(digit)));
    assert!(b"AQgw".contains(&key[21]));
    assert!(key.ends_with(b"=="));
    assert_ne!(first.headers[4], second.headers[4]);
    let text = std::str::from_utf8(key).unwrap();
    assert_eq!(client.connect_request_with(text), first);
}

#[test]
fn the_servers_protocol_has_to_be_the_clients() {
    let client = client("localhost:8080");
    assert_eq!(client.check_protocol(Some(b"hl/1")), Ok(()));
    for other in [&b"hl/2"[..], b"hl/11", b"hl/", b"HL/1", b""] {
        assert_eq!(client.check_protocol(Some(other)), Err(HandshakeError::HandshakeIncomplete));
    }
    assert_eq!(client.check_protocol(None), Err(HandshakeError::HandshakeIncomplete));
}

#[test]
fn the_clients_protocol_has_to_be_the_servers() {
    let server = server(3);
    assert_eq!(server.hl_version_string, b"hl/3".to_vec());
    assert_eq!(server.check_handshake(Some(b"hl/3")), HandshakeReply::Accept(b"hl/3".to_vec()));
    for other in [&b"hl/1"[..], b"hl/33", b""] {
        assert_eq!(server.check_handshake(Some(other)), HandshakeReply::Reject(400));
    }
    assert_eq!(server.check_handshake(None), HandshakeReply::Reject(BAD_REQUEST));
}

#[test]
fn a_handshake_succeeds_exactly_between_equal_major_versions() {
    let client = client("localhost:8080");
    for major in [0, 1, 2, 10, 11, u32::MAX] {
        let reply = server(major).check_handshake(Some(&client.hl_version_string));
        let accepted = match &reply {
            HandshakeReply::Accept(protocol) => client.check_protocol(Some(protocol)),
            HandshakeReply::Reject(_) => client.check_protocol(None),
        };
        assert_eq!(accepted.is_ok(), major == 1);
    }
}

#[test]
fn a_server_configuration_has_the_librarys_major_version() {
    let config = ServerConfig::new("localhost:8080", "tls");
    assert_eq!(config.address, "localhost:8080");
    assert_eq!(config.version_major, 1);
    assert_eq!(config.tls, "tls");
    let server = Server::new(config, 17);
    assert_eq!(server.rpc_factory, 17);
    assert_eq!(server.hl_version_string, b"hl/1".to_vec());
}

fn contains(haystack: &[u8], needle: &[u8]) -> bool {
    haystack.windows(needle.len()).any(|window| window == needle)
}

#[test]
fn a_self_signed_certificate_is_for_the_host() {
    let config = ServerConfig::<TlsIdentity>::new_self_signed("localhost:8080").unwrap();
    assert_eq!(config.address, "localhost:8080");
    assert_eq!(config.version_major, 1);
    // Both are DER sequences; the certificate names the host.
    assert_eq!(config.tls.certificate[0], 0x30);
    assert_eq!(config.tls.private_key[0], 0x30);
    let mut extension = vec![0x30, 25, 0x06, 3, 0x55, 0x1d, 0x11, 0x04, 18, 0x30, 16, 0x82, 14];
    extension.extend_from_slice(b"localhost:8080");
    assert!(contains(&config.tls.certificate, &extension));
    assert!(!contains(&config.tls.certificate, b"example.com"));
    // The key ends in its public key, which stands in the certificate as a bit string.
    let key = &config.tls.private_key;
    let point = &key[key.len() - 65..];
    assert_eq!(point[0], 4);
    let mut bits = vec![0x03, 66, 0];
    bits.extend_from_slice(point);
    assert!(contains(&config.tls.certificate, &bits));
    let other = ServerConfig::<TlsIdentity>::new_self_signed("localhost:8080").unwrap();
    assert!(!contains(&other.tls.certificate, &bits));
    assert_ne!(other.tls.private_key, config.tls.private_key);
}

#[test]
fn a_self_signed_certificate_can_be_for_a_long_name() {
    for (length, start) in [
        (123, vec![0x30, 0x81, 134, 0x06, 3, 0x55, 0x1d, 0x11, 0x04, 127, 0x30, 125, 0x82, 123]),
        (124, vec![0x30, 0x81, 136, 0x06, 3, 0x55, 0x1d, 0x11, 0x04, 0x81, 128, 0x30, 126, 0x82, 124]),
        (
            300,
            vec![
                0x30, 0x82, 1, 61, 0x06, 3, 0x55, 0x1d, 0x11, 0x04, 0x82, 1, 52, 0x30, 0x82, 1, 48, 0x82,
                0x82, 1, 44,
            ],
        ),
    ] {
        let host = "a".repeat(length);
        let config = ServerConfig::<TlsIdentity>::new_self_signed(&host).unwrap();
        let mut extension = start;
        extension.extend_from_slice(host.as_bytes());
        assert!(contains(&config.tls.certificate, &extension));
    }
}

#[test]
fn a_certificate_makes_a_tls_configuration() {
    let config = ServerConfig::<TlsIdentity>::new_self_signed("localhost").unwrap();
    let tls = rustls::ServerConfig::builder()
        .with_safe_defaults()
        .with_no_client_auth()
        .with_single_cert(
            vec![rustls::Certificate(config.tls.certificate)],
            rustls::PrivateKey(config.tls.private_key),
        );
    assert!(tls.is_ok());
}

#[test]
fn state_changes_from_the_server_reach_the_clients_state() {
    let mut client = client("localhost:8080");
    let mut connection: ClientConnection<u32> = ClientConnection::new();
    let changes = ServerMessage::StateChange(vec![(0, vec![9, 0, 0, 0])]);
    assert_eq!(
        client.on_event(&mut connection, ClientEvent::Frame(ClientFrame::Message(changes))),
        ClientAction::Wait
    );
    assert_eq!(client.state.counter, 9);
    // Changes that cannot be applied change nothing and do no further harm.
    let changes = ServerMessage::StateChange(vec![(0, vec![9])]);
    assert_eq!(
        client.on_event(&mut connection, ClientEvent::Frame(ClientFrame::Message(changes))),
        ClientAction::Wait
    );
    assert_eq!(client.state.counter, 9);
    assert_eq!(client.on_event(&mut connection, ClientEvent::Shutdown), ClientAction::Close);
    assert_eq!(client.state.counter, 9);
}

#[test]
fn a_generated_certificate_is_taken_with_its_key() {
    let config = ServerConfig::with_generated("h:1", Some((vec![1, 2], vec![3]))).unwrap();
    assert_eq!(config.address, "h:1");
    assert_eq!(config.version_major, 1);
    assert_eq!(config.tls, TlsIdentity { certificate: vec![1, 2], private_key: vec![3] });
    assert_eq!(ServerConfig::with_generated("h:1", None), None);
}
