use doip_uds::doip_client::{
    ConnectOutcome, DoipClient, ReadOutcome, SendOutcome, DEFAULT_TIMEOUT_MS, RECEIVE_BUFFER_SIZE,
};
use doip_uds::types::{DoipClientConfig, DoipError};

fn config(timeout: Option<u64>) -> DoipClientConfig {
    DoipClientConfig { ip_address: "127.0.0.1".to_string(), port: 13400, timeout }
}

fn connected() -> DoipClient {
    let mut client = DoipClient::new(config(None));
    assert_eq!(client.connect(ConnectOutcome::Connected), Ok(true));
    client
}

#[test]
fn test_doip_client_creation() {
    let config = DoipClientConfig {
        ip_address: "127.0.0.1".to_string(),
        port: 13400,
        timeout: Some(5000),
    };

    let client = DoipClient::new(config);
    assert!(!client.is_socket_connected());
    assert_eq!(client.get_config().ip_address, "127.0.0.1");
    assert_eq!(client.get_config().port, 13400);
}

#[test]
fn test_invalid_address() {
    let config = DoipClientConfig {
        ip_address: "invalid_address".to_string(),
        port: 13400,
        timeout: Some(1000),
    };

    let mut client = DoipClient::new(config);
    assert_eq!(client.endpoint(), "invalid_address:13400");
    let result = client.connect(ConnectOutcome::InvalidAddress("invalid socket address syntax".to_string()));
    assert!(result.is_err());
    assert_eq!(
        result,
        Err(DoipError::ConnectionFailed(
            "Invalid address: invalid socket address syntax".to_string()
        ))
    );
    assert!(!client.is_socket_connected());
}

#[test]
fn endpoint_and_timeout() {
    let client = DoipClient::new(config(None));
    assert_eq!(client.endpoint(), "127.0.0.1:13400");
    assert_eq!(client.timeout_ms(), 30000);
    assert_eq!(DEFAULT_TIMEOUT_MS, 30000);
    assert_eq!(RECEIVE_BUFFER_SIZE, 4096);
    let mut client = DoipClient::new(config(Some(250)));
    assert_eq!(client.timeout_ms(), 250);
    client.set_timeout(7);
    assert_eq!(client.timeout_ms(), 7);
    assert_eq!(client.get_config().timeout, Some(7));
    let zero = DoipClient::new(DoipClientConfig {
        ip_address: String::new(),
        port: 0,
        timeout: None,
    });
    assert_eq!(zero.endpoint(), ":0");
    let top = DoipClient::new(DoipClientConfig {
        ip_address: "::1".to_string(),
        port: 65535,
        timeout: None,
    });
    assert_eq!(top.endpoint(), "::1:65535");
}

#[test]
fn connect_outcomes() {
    let mut client = DoipClient::new(config(None));
    assert_eq!(
        client.connect(ConnectOutcome::Failed("connection refused".to_string())),
        Err(DoipError::ConnectionFailed("connection refused".to_string()))
    );
    assert!(!client.is_socket_connected());
    assert_eq!(client.connect(ConnectOutcome::TimedOut), Err(DoipError::Timeout));
    assert!(!client.is_socket_connected());
    assert_eq!(client.connect(ConnectOutcome::Connected), Ok(true));
    assert!(client.is_socket_connected());
}

#[test]
fn send_outcomes() {
    let mut client = DoipClient::new(config(None));
    assert_eq!(client.send(SendOutcome::Written), Err(DoipError::NotConnected));
    let mut client = connected();
    assert_eq!(client.send(SendOutcome::Written), Ok(true));
    assert_eq!(client.send(SendOutcome::NoSocket), Err(DoipError::NotConnected));
    assert_eq!(
        client.send(SendOutcome::Failed("broken pipe".to_string())),
        Err(DoipError::SendFailed("broken pipe".to_string()))
    );
    assert!(client.is_socket_connected());
}

#[test]
fn receive_outcomes() {
    let mut client = DoipClient::new(config(None));
    assert_eq!(client.receive(ReadOutcome::Read(vec![1])), Err(DoipError::NotConnected));
    let mut client = connected();
    assert_eq!(client.receive(ReadOutcome::Read(vec![1, 2, 3])), Ok(vec![1, 2, 3]));
    assert_eq!(client.receive(ReadOutcome::NoSocket), Err(DoipError::NotConnected));
    assert_eq!(client.receive(ReadOutcome::TimedOut), Err(DoipError::Timeout));
    assert_eq!(
        client.receive(ReadOutcome::Failed("reset".to_string())),
        Err(DoipError::ReceiveFailed("reset".to_string()))
    );
    assert!(client.is_socket_connected());
}

#[test]
fn closing_by_the_peer_ends_the_connection() {
    let mut client = connected();
    assert_eq!(client.receive(ReadOutcome::Read(vec![])), Err(DoipError::ConnectionClosedByPeer));
    assert!(!client.is_socket_connected());
    assert_eq!(client.receive(ReadOutcome::Read(vec![1])), Err(DoipError::NotConnected));
}

#[test]
fn receive_exact_outcomes() {
    let mut client = DoipClient::new(config(None));
    assert_eq!(client.receive_exact(2, ReadOutcome::Read(vec![1, 2])), Err(DoipError::NotConnected));
    let mut client = connected();
    assert_eq!(client.receive_exact(2, ReadOutcome::Read(vec![1, 2])), Ok(vec![1, 2]));
    assert_eq!(client.receive_exact(0, ReadOutcome::Read(vec![])), Ok(vec![]));
    assert!(matches!(
        client.receive_exact(3, ReadOutcome::Read(vec![1, 2])),
        Err(DoipError::ReceiveFailed(_))
    ));
    assert_eq!(client.receive_exact(2, ReadOutcome::TimedOut), Err(DoipError::Timeout));
    assert_eq!(client.receive_exact(2, ReadOutcome::NoSocket), Err(DoipError::NotConnected));
    assert_eq!(
        client.receive_exact(2, ReadOutcome::Failed("eof".to_string())),
        Err(DoipError::ReceiveFailed("eof".to_string()))
    );
    assert!(client.is_socket_connected());
}

#[test]
fn disconnect_is_idempotent() {
    let mut client = connected();
    assert_eq!(client.disconnect(), Ok(true));
    assert!(!client.is_socket_connected());
    assert_eq!(client.disconnect(), Ok(true));
    assert!(!client.is_socket_connected());
    assert_eq!(client.get_config().port, 13400);
}
