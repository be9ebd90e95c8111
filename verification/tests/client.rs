use streaming::client_provider::{
    get_client, Args, ClientHandle, ClientProviderConfig, ConnectedClient, Transport,
};
use streaming::error::ClientError;

fn args(transport: &str) -> Args {
    Args {
        transport: transport.to_string(),
        http_api_url: "http://localhost:3000".to_string(),
        http_retries: 3,
        tcp_server_address: "127.0.0.1:8090".to_string(),
        quic_client_address: "127.0.0.1:0".to_string(),
        quic_server_address: "127.0.0.1:8080".to_string(),
        quic_server_name: "localhost".to_string(),
        quic_response_buffer_size: 1024,
        quic_max_concurrent_bidi_streams: 100,
        quic_datagram_send_buffer_size: 1024,
        quic_initial_mtu: 1200,
        quic_send_window: 1024,
        quic_receive_window: 1024,
        quic_keep_alive_interval: 5000,
        quic_max_idle_timeout: 10000,
    }
}

#[test]
fn unknown_transport_is_rejected_with_its_name() {
    let r = ClientProviderConfig::from_args(args("udp"));
    match r {
        Err(ClientError::InvalidTransport(name)) => assert_eq!(name, "udp"),
        other => panic!("expected an invalid-transport error, got {:?}", other.is_ok()),
    }
}

#[test]
fn http_selection_keeps_only_http_settings() {
    let c = ClientProviderConfig::from_args(args("http")).unwrap();
    assert_eq!(c.transport, "http");
    let http = c.http.expect("http settings present");
    assert_eq!(http.api_url, "http://localhost:3000");
    assert_eq!(http.retries, 3);
    assert!(c.quic.is_none());
    assert!(c.tcp.is_none());
}

#[test]
fn quic_selection_keeps_only_quic_settings() {
    let c = ClientProviderConfig::from_args(args("quic")).unwrap();
    let quic = c.quic.expect("quic settings present");
    assert_eq!(quic.server_address, "127.0.0.1:8080");
    assert_eq!(quic.initial_mtu, 1200);
    assert!(c.http.is_none());
    assert!(c.tcp.is_none());
}

#[test]
fn tcp_selection_keeps_only_tcp_settings() {
    let c = ClientProviderConfig::from_args(args("tcp")).unwrap();
    let tcp = c.tcp.expect("tcp settings present");
    assert_eq!(tcp.server_address, "127.0.0.1:8090");
    assert!(c.http.is_none());
    assert!(c.quic.is_none());
}

#[test]
fn http_client_is_usable_without_connect() {
    let c = ClientProviderConfig::from_args(args("http")).unwrap();
    let handle = get_client(&c).unwrap();
    assert_eq!(
        handle,
        ClientHandle::Ready(ConnectedClient {
            transport: Transport::Http
        })
    );
}

#[test]
fn tcp_client_needs_a_successful_connect() {
    let c = ClientProviderConfig::from_args(args("tcp")).unwrap();
    let handle = get_client(&c).unwrap();
    match handle {
        ClientHandle::AwaitingConnect(unconnected) => {
            assert_eq!(unconnected.transport, Transport::Tcp);
            let client = unconnected.connect(true).unwrap();
            assert_eq!(client.transport, Transport::Tcp);
        }
        ClientHandle::Ready(_) => panic!("a raw-stream client must connect first"),
    }
}

#[test]
fn failed_connect_leaves_no_usable_client() {
    let c = ClientProviderConfig::from_args(args("quic")).unwrap();
    let handle = get_client(&c).unwrap();
    match handle {
        ClientHandle::AwaitingConnect(unconnected) => {
            let r = unconnected.connect(false);
            assert_eq!(r, Err(ClientError::CannotConnect));
        }
        ClientHandle::Ready(_) => panic!("a secure-datagram client must connect first"),
    }
}

#[test]
fn get_client_rejects_unknown_transport() {
    let c = ClientProviderConfig {
        transport: "udp".to_string(),
        http: None,
        quic: None,
        tcp: None,
    };
    match get_client(&c) {
        Err(ClientError::InvalidTransport(name)) => assert_eq!(name, "udp"),
        _ => panic!("expected an invalid-transport error"),
    }
}
