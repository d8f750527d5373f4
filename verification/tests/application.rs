use hardlight::application::{
    accept_call, accept_enabled_call, finish_call, ClientHandle, Features, ServerHandle,
};
use hardlight::RpcHandlerError;

#[test]
fn a_new_client_is_not_connected() {
    let client: ClientHandle<u8, u8> = ClientHandle::new("localhost:8080");
    assert_eq!(client.host, "localhost:8080");
    assert!(!client.self_signed);
    assert_eq!((client.shutdown, client.rpc_tx), (None, None));
    let client: ClientHandle<u8, u8> = ClientHandle::new_self_signed("localhost:8080");
    assert_eq!(client.host, "localhost:8080");
    assert!(client.self_signed);
    assert_eq!((client.shutdown, client.rpc_tx), (None, None));
}

#[test]
fn a_call_needs_a_connection_and_bytes() {
    let mut client: ClientHandle<u8, &str> = ClientHandle::new("h");
    assert_eq!(client.prepare_call(Some(vec![1])), Err(RpcHandlerError::ClientNotConnected));
    assert_eq!(client.prepare_call(None), Err(RpcHandlerError::ClientNotConnected));
    client.connected(1, "channel");
    assert_eq!(client.prepare_call(Some(vec![1])), Ok((&"channel", vec![1])));
    assert_eq!(client.prepare_call(None), Err(RpcHandlerError::BadInputBytes));
}

#[test]
fn a_client_disconnects_once_and_can_connect_again() {
    let mut client: ClientHandle<u8, &str> = ClientHandle::new("h");
    assert_eq!(client.disconnect(), None);
    client.connected(1, "first");
    assert_eq!(client.disconnect(), Some(1));
    assert_eq!(client.disconnect(), None);
    assert_eq!(client.rpc_tx, Some("first"));
    client.connected(2, "second");
    assert_eq!(client.prepare_call(Some(vec![])), Ok((&"second", vec![])));
    assert_eq!(client.disconnect(), Some(2));
}

#[test]
fn a_server_stops_once_and_can_start_again() {
    let mut server: ServerHandle<&str, u8> = ServerHandle::new("config");
    assert_eq!(server.stop(), None);
    assert_eq!(server.control_channels, None);
    server.started(1);
    assert_eq!(server.control_channels, Some(()));
    assert_eq!(server.stop(), Some(1));
    assert_eq!(server.stop(), None);
    server.started(2);
    assert_eq!(server.stop(), Some(2));
    assert_eq!(server.config, "config");
}

#[test]
fn a_call_gives_its_output_or_an_error() {
    assert_eq!(finish_call(Ok(Some(5))), Ok(5));
    assert_eq!(finish_call::<u8>(Ok(None)), Err(RpcHandlerError::BadOutputBytes));
    assert_eq!(
        finish_call::<u8>(Err(RpcHandlerError::StatePoisoned)),
        Err(RpcHandlerError::StatePoisoned)
    );
}

#[test]
fn a_handler_takes_calls_that_can_be_read() {
    assert_eq!(accept_call(Some("call")), Ok("call"));
    assert_eq!(accept_call::<u8>(None), Err(RpcHandlerError::BadInputBytes));
}

#[test]
fn only_enabled_methods_may_be_called() {
    let some = Features::Only(vec!["log_in".to_string(), "get".to_string()]);
    assert!(some.allows("log_in") && some.allows("get"));
    assert!(!some.allows("log_out") && !some.allows("") && !some.allows("log_i"));
    assert!(Features::All.allows("log_out"));
    assert!(!Features::Only(vec![]).allows("get"));
    assert_eq!(accept_enabled_call(&some, "get", 5), Ok(5));
    assert_eq!(accept_enabled_call(&some, "put", 5), Err(RpcHandlerError::BadInputBytes));
    assert_eq!(accept_enabled_call(&Features::All, "put", 5), Ok(5));
}
