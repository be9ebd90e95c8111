use vstd::prelude::*;
use vstd::string::StringExecFns;
use crate::error::ClientError;

verus! {

/// Configuration arguments the client is built from; the fields of
/// transports other than the selected one are ignored.
pub struct Args {
    pub transport: String,
    pub http_api_url: String,
    pub http_retries: u32,
    pub tcp_server_address: String,
    pub quic_client_address: String,
    pub quic_server_address: String,
    pub quic_server_name: String,
    pub quic_response_buffer_size: u64,
    pub quic_max_concurrent_bidi_streams: u64,
    pub quic_datagram_send_buffer_size: u64,
    pub quic_initial_mtu: u16,
    pub quic_send_window: u64,
    pub quic_receive_window: u64,
    pub quic_keep_alive_interval: u64,
    pub quic_max_idle_timeout: u64,
}

/// Settings of the request/response transport; it is stateless per call
/// and needs no connect step.
pub struct HttpClientConfig {
    pub api_url: String,
    pub retries: u32,
}

/// Settings of the secure-datagram transport.
pub struct QuicClientConfig {
    pub client_address: String,
    pub server_address: String,
    pub server_name: String,
    pub response_buffer_size: u64,
    pub max_concurrent_bidi_streams: u64,
    pub datagram_send_buffer_size: u64,
    pub initial_mtu: u16,
    pub send_window: u64,
    pub receive_window: u64,
    pub keep_alive_interval: u64,
    pub max_idle_timeout: u64,
}

/// Settings of the raw-stream transport.
pub struct TcpClientConfig {
    pub server_address: String,
}

/// The validated selection of exactly one transport: the settings of the
/// selected transport are present, the others absent.
pub struct ClientProviderConfig {
    pub transport: String,
    pub http: Option<HttpClientConfig>,
    pub quic: Option<QuicClientConfig>,
    pub tcp: Option<TcpClientConfig>,
}

impl ClientProviderConfig {
    /// Validates the transport name and keeps only the settings of the
    /// selected transport; an unknown name fails with an error carrying
    /// the offending name.
    pub fn from_args(args: Args) -> (r: Result<ClientProviderConfig, ClientError>)
        ensures
            args.transport@ == "quic"@ ==> (r matches Ok(c) && c.transport@ == args.transport@
                && c.http is None && c.tcp is None && (c.quic matches Some(q)
                && q.client_address@ == args.quic_client_address@
                && q.server_address@ == args.quic_server_address@
                && q.server_name@ == args.quic_server_name@
                && q.response_buffer_size == args.quic_response_buffer_size
                && q.max_concurrent_bidi_streams == args.quic_max_concurrent_bidi_streams
                && q.datagram_send_buffer_size == args.quic_datagram_send_buffer_size
                && q.initial_mtu == args.quic_initial_mtu
                && q.send_window == args.quic_send_window
                && q.receive_window == args.quic_receive_window
                && q.keep_alive_interval == args.quic_keep_alive_interval
                && q.max_idle_timeout == args.quic_max_idle_timeout)),
            args.transport@ == "http"@ ==> (r matches Ok(c) && c.transport@ == args.transport@
                && c.quic is None && c.tcp is None && (c.http matches Some(h)
                && h.api_url@ == args.http_api_url@ && h.retries == args.http_retries)),
            args.transport@ == "tcp"@ ==> (r matches Ok(c) && c.transport@ == args.transport@
                && c.http is None && c.quic is None && (c.tcp matches Some(t)
                && t.server_address@ == args.tcp_server_address@)),
            args.transport@ != "quic"@ && args.transport@ != "http"@ && args.transport@ != "tcp"@
                ==> (r matches Err(e) && (e matches ClientError::InvalidTransport(t) && t@
                == args.transport@)),
    {
        proof {
            reveal_strlit("quic");
            reveal_strlit("http");
            reveal_strlit("tcp");
            assert("quic"@[0] == 'q');
            assert("http"@[0] == 'h');
            assert("tcp"@[0] == 't');
        }
        let transport = args.transport;
        if transport == String::from_str("quic") {
            Ok(
                ClientProviderConfig {
                    transport,
                    http: None,
                    tcp: None,
                    quic: Some(
                        QuicClientConfig {
                            client_address: args.quic_client_address,
                            server_address: args.quic_server_address,
                            server_name: args.quic_server_name,
                            response_buffer_size: args.quic_response_buffer_size,
                            max_concurrent_bidi_streams: args.quic_max_concurrent_bidi_streams,
                            datagram_send_buffer_size: args.quic_datagram_send_buffer_size,
                            initial_mtu: args.quic_initial_mtu,
                            send_window: args.quic_send_window,
                            receive_window: args.quic_receive_window,
                            keep_alive_interval: args.quic_keep_alive_interval,
                            max_idle_timeout: args.quic_max_idle_timeout,
                        },
                    ),
                },
            )
        } else if transport == String::from_str("http") {
            Ok(
                ClientProviderConfig {
                    transport,
                    quic: None,
                    tcp: None,
                    http: Some(
                        HttpClientConfig { api_url: args.http_api_url, retries: args.http_retries },
                    ),
                },
            )
        } else if transport == String::from_str("tcp") {
            Ok(
                ClientProviderConfig {
                    transport,
                    http: None,
                    quic: None,
                    tcp: Some(TcpClientConfig { server_address: args.tcp_server_address }),
                },
            )
        } else {
            Err(ClientError::InvalidTransport(transport))
        }
    }
}

/// The three supported transports.
#[derive(Clone, Copy, Debug, PartialEq, Eq, Structural)]
pub enum Transport {
    Quic,
    Http,
    Tcp,
}

/// A client whose transport is ready to carry requests.
#[derive(Clone, Copy, Debug, PartialEq, Eq, Structural)]
pub struct ConnectedClient {
    pub transport: Transport,
}

/// A connection-oriented client that was built but not yet connected; it
/// can only become usable through a successful connect step.
#[derive(Clone, Copy, Debug, PartialEq, Eq, Structural)]
pub struct UnconnectedClient {
    pub transport: Transport,
}

impl UnconnectedClient {
    /// Finishes construction with the outcome of the transport-level
    /// connect, which the caller performs. A failed connect consumes the
    /// handle and leaves no usable client.
    pub fn connect(self, connected: bool) -> (r: Result<ConnectedClient, ClientError>)
        ensures
            connected ==> r == Ok::<ConnectedClient, ClientError>(
                ConnectedClient { transport: self.transport },
            ),
            !connected ==> r == Err::<ConnectedClient, ClientError>(ClientError::CannotConnect),
    {
        if connected {
            Ok(ConnectedClient { transport: self.transport })
        } else {
            Err(ClientError::CannotConnect)
        }
    }
}

/// What construction yields: the request/response transport is usable at
/// once, the connection-oriented transports still await their connect.
#[derive(Clone, Copy, Debug, PartialEq, Eq, Structural)]
pub enum ClientHandle {
    Ready(ConnectedClient),
    AwaitingConnect(UnconnectedClient),
}

/// Selects the transport named by the configuration. The request/response
/// transport needs no connect step; the secure-datagram and raw-stream
/// transports hand back an unconnected handle; an unknown name fails with
/// an error carrying the offending name.
pub fn get_client(config: &ClientProviderConfig) -> (r: Result<ClientHandle, ClientError>)
    ensures
        config.transport@ == "quic"@ ==> r == Ok::<ClientHandle, ClientError>(
            ClientHandle::AwaitingConnect(UnconnectedClient { transport: Transport::Quic }),
        ),
        config.transport@ == "http"@ ==> r == Ok::<ClientHandle, ClientError>(
            ClientHandle::Ready(ConnectedClient { transport: Transport::Http }),
        ),
        config.transport@ == "tcp"@ ==> r == Ok::<ClientHandle, ClientError>(
            ClientHandle::AwaitingConnect(UnconnectedClient { transport: Transport::Tcp }),
        ),
        config.transport@ != "quic"@ && config.transport@ != "http"@ && config.transport@
            != "tcp"@ ==> (r matches Err(e) && (e matches ClientError::InvalidTransport(t) && t@
            == config.transport@)),
{
    proof {
        reveal_strlit("quic");
        reveal_strlit("http");
        reveal_strlit("tcp");
        assert("quic"@[0] == 'q');
        assert("http"@[0] == 'h');
        assert("tcp"@[0] == 't');
    }
    if config.transport == String::from_str("quic") {
        Ok(ClientHandle::AwaitingConnect(UnconnectedClient { transport: Transport::Quic }))
    } else if config.transport == String::from_str("http") {
        Ok(ClientHandle::Ready(ConnectedClient { transport: Transport::Http }))
    } else if config.transport == String::from_str("tcp") {
        Ok(ClientHandle::AwaitingConnect(UnconnectedClient { transport: Transport::Tcp }))
    } else {
        Err(ClientError::InvalidTransport(config.transport.clone()))
    }
}

} // verus!
