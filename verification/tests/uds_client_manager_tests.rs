use doip_uds::doip_client::{ConnectOutcome, ReadOutcome, SendOutcome};
use doip_uds::types::{ConnectionConfig, DiagnosticResult, DoipError, UdsError, UdsResponse};
use doip_uds::uds_client_manager::{
    finish_command, parse_service, Command, UdsClientManager, DEFAULT_SECURITY_CONSTANT,
};
use doip_uds::uds_service::{Exchange, Progress, ServiceKind};

const STAMP: &str = "2024-05-01T12:00:00+00:00";

fn stamp() -> String {
    STAMP.to_string()
}

fn config() -> ConnectionConfig {
    ConnectionConfig {
        ip_address: "192.168.1.10".to_string(),
        port: 13400,
        server_address: "1FFF".to_string(),
        client_address: "0E80".to_string(),
        timeout: Some(5000),
    }
}

fn grant() -> Vec<u8> {
    vec![
        0x02, 0xfd, 0x00, 0x06, 0x00, 0x00, 0x00, 0x09, 0x0e, 0x80, 0x1f, 0xff, 0x10, 0x00, 0x00,
        0x00, 0x00,
    ]
}

fn reply(payload: &[u8]) -> Vec<u8> {
    let mut bytes = vec![0x02, 0xfd, 0x80, 0x01];
    bytes.extend_from_slice(&((payload.len() as u32 + 4).to_be_bytes()));
    bytes.extend_from_slice(&[0x1f, 0xff, 0x0e, 0x80]);
    bytes.extend_from_slice(payload);
    bytes
}

fn failure(message: &str) -> DiagnosticResult {
    DiagnosticResult {
        success: false,
        message: message.to_string(),
        data: None,
        timestamp: stamp(),
    }
}

fn run(manager: &mut UdsClientManager, exchange: &Exchange, reads: Vec<Vec<u8>>) -> Result<UdsResponse, UdsError> {
    match manager.exchange_sent(exchange, SendOutcome::Written) {
        Progress::Done(result) => return result,
        Progress::Receive => {}
    }
    for chunk in reads {
        match manager.exchange_received(exchange, ReadOutcome::Read(chunk)) {
            Progress::Done(result) => return result,
            Progress::Receive => {}
        }
    }
    panic!("the record ended before the exchange");
}

fn serving() -> UdsClientManager {
    let mut manager = UdsClientManager::new();
    let client = manager.connect(config());
    let activation = manager.establish(client, ConnectOutcome::Connected, stamp()).unwrap();
    let result = run(&mut manager, &activation, vec![grant()]);
    let envelope = manager.activate(result, stamp());
    assert!(envelope.success);
    manager
}

fn command(manager: &mut UdsClientManager, service: &str, data: &str, reads: Vec<Vec<u8>>) -> DiagnosticResult {
    match manager.send_uds_command(service, data, stamp()) {
        Err(envelope) => envelope,
        Ok(command) => {
            let result = run(manager, &command.exchange, reads);
            finish_command(&command, result, stamp())
        }
    }
}

#[test]
fn new_manager_is_disconnected() {
    let manager = UdsClientManager::new();
    assert!(!manager.get_connection_status());
    assert_eq!(manager.get_connection_config(), None);
    let manager = UdsClientManager::default();
    assert!(!manager.get_connection_status());
    assert_eq!(DEFAULT_SECURITY_CONSTANT, 0x1234);
}

#[test]
fn session_is_opened_and_activated() {
    let mut manager = UdsClientManager::new();
    let client = manager.connect(config());
    assert_eq!(client.endpoint(), "192.168.1.10:13400");
    assert_eq!(client.timeout_ms(), 5000);
    assert!(!client.is_socket_connected());
    assert_eq!(manager.get_connection_config(), Some(&config()));
    assert!(!manager.get_connection_status());
    let activation = manager.establish(client, ConnectOutcome::Connected, stamp()).unwrap();
    assert_eq!(activation.kind, ServiceKind::RoutingActivation);
    assert_eq!(activation.request.len(), 19);
    assert!(!manager.get_connection_status());
    let result = run(&mut manager, &activation, vec![grant()]);
    assert_eq!(
        manager.activate(result, stamp()),
        DiagnosticResult {
            success: true,
            message: "成功连接到ECU 192.168.1.10:13400 并完成路由激活".to_string(),
            data: None,
            timestamp: stamp(),
        }
    );
    assert!(manager.get_connection_status());
}

#[test]
fn connection_failures() {
    let cases = vec![
        (ConnectOutcome::TimedOut, "连接ECU失败: Timeout occurred"),
        (
            ConnectOutcome::Failed("connection refused".to_string()),
            "连接ECU失败: Connection failed: connection refused",
        ),
        (
            ConnectOutcome::InvalidAddress("invalid socket address syntax".to_string()),
            "连接ECU失败: Connection failed: Invalid address: invalid socket address syntax",
        ),
    ];
    for (outcome, message) in cases {
        let mut manager = UdsClientManager::new();
        let client = manager.connect(config());
        assert_eq!(manager.establish(client, outcome, stamp()), Err(failure(message)));
        assert!(!manager.get_connection_status());
        assert_eq!(manager.get_connection_config(), Some(&config()));
    }
}

#[test]
fn bad_addresses_end_the_attempt() {
    let mut manager = UdsClientManager::new();
    let mut bad = config();
    bad.server_address = "1FFFF".to_string();
    let client = manager.connect(bad);
    assert_eq!(
        manager.establish(client, ConnectOutcome::Connected, stamp()),
        Err(failure(
            "创建UDS服务失败: Invalid parameter: Invalid server address: Invalid data format: Invalid hex address: 1FFFF"
        ))
    );
    assert!(!manager.get_connection_status());
}

#[test]
fn activation_denied_or_failed() {
    let mut manager = UdsClientManager::new();
    let client = manager.connect(config());
    let activation = manager.establish(client, ConnectOutcome::Connected, stamp()).unwrap();
    let mut denial = grant();
    denial[12] = 0x06;
    let result = run(&mut manager, &activation, vec![denial]);
    assert_eq!(result, Err(UdsError::RoutingActivationDenied));
    assert_eq!(
        manager.activate(result, stamp()),
        failure("路由激活失败: Routing activation denied")
    );
    assert!(!manager.get_connection_status());
    assert_eq!(command(&mut manager, "0x3E", "3E 00", vec![]), failure("未连接到ECU"));

    let mut manager = UdsClientManager::new();
    let client = manager.connect(config());
    let activation = manager.establish(client, ConnectOutcome::Connected, stamp()).unwrap();
    let result = run(&mut manager, &activation, vec![vec![]]);
    assert_eq!(result, Err(UdsError::DoipError(DoipError::ConnectionClosedByPeer)));
    assert_eq!(
        manager.activate(result, stamp()),
        failure("路由激活失败: DoIP error: Connection closed by peer")
    );
    assert!(!manager.get_connection_status());

    let mut manager = UdsClientManager::new();
    let refused = UdsResponse { success: false, data: None, error: None };
    assert_eq!(manager.activate(Ok(refused), stamp()), failure("路由激活被拒绝"));
    let granted = UdsResponse { success: true, data: None, error: None };
    assert_eq!(manager.activate(Ok(granted), stamp()), failure("路由激活被拒绝"));
    assert!(!manager.get_connection_status());
}

#[test]
fn manager_disconnect_is_idempotent() {
    let mut manager = serving();
    let done = DiagnosticResult {
        success: true,
        message: "已断开ECU连接".to_string(),
        data: None,
        timestamp: stamp(),
    };
    assert_eq!(manager.disconnect(stamp()), done);
    assert!(!manager.get_connection_status());
    assert_eq!(manager.disconnect(stamp()), done);
    assert!(!manager.get_connection_status());
    assert_eq!(manager.get_connection_config(), Some(&config()));
    assert_eq!(UdsClientManager::new().disconnect(stamp()), done);
}

#[test]
fn commands_need_a_session() {
    let mut manager = UdsClientManager::new();
    assert_eq!(
        manager.send_uds_command("0x10", "10 03", stamp()),
        Err(failure("未连接到ECU"))
    );
    let client = manager.connect(config());
    manager.establish(client, ConnectOutcome::Connected, stamp()).unwrap();
    assert_eq!(
        manager.send_uds_command("0x10", "10 03", stamp()),
        Err(failure("未连接到ECU"))
    );
    let mut manager = serving();
    manager.disconnect(stamp());
    assert_eq!(
        manager.send_uds_command("0x10", "10 03", stamp()),
        Err(failure("未连接到ECU"))
    );
}

#[test]
fn service_identifiers_are_parsed() {
    assert_eq!(parse_service("0x10"), Some(0x10));
    assert_eq!(parse_service("10"), Some(0x10));
    assert_eq!(parse_service("0x2E"), Some(0x2e));
    assert_eq!(parse_service("2e"), Some(0x2e));
    assert_eq!(parse_service("0xff"), Some(0xff));
    assert_eq!(parse_service("0x0x27"), Some(0x27));
    assert_eq!(parse_service("5"), Some(0x05));
    assert_eq!(parse_service("0x5"), Some(0x05));
    assert_eq!(parse_service("0"), Some(0x00));
    assert_eq!(parse_service("0x"), None);
    assert_eq!(parse_service(""), None);
    assert_eq!(parse_service("0X10"), None);
    assert_eq!(parse_service("100"), None);
    assert_eq!(parse_service("+1"), None);
    assert_eq!(parse_service(" 10"), None);
    assert_eq!(parse_service("1g"), None);
    assert_eq!(parse_service("0x1é"), None);
    assert_eq!(parse_service("é"), None);
}

#[test]
fn malformed_requests_are_refused() {
    let mut manager = serving();
    assert_eq!(
        manager.send_uds_command("xyz", "10 03", stamp()),
        Err(failure("无效的服务ID: xyz"))
    );
    assert_eq!(
        manager.send_uds_command("0x10", "10 0", stamp()),
        Err(failure("无效的数据格式: Invalid data format: Hex string length must be even"))
    );
    assert_eq!(
        manager.send_uds_command("0x10", "10 zz", stamp()),
        Err(failure("无效的数据格式: Invalid data format: Invalid hex byte: zz"))
    );
    assert_eq!(
        manager.send_uds_command("0x31", "31 01", stamp()),
        Err(failure("不支持的UDS服务: 0x31"))
    );
    assert_eq!(
        manager.send_uds_command("0x0a", "", stamp()),
        Err(failure("不支持的UDS服务: 0x0a"))
    );
    assert_eq!(manager.send_uds_command("0x22", "22 f1", stamp()), Err(failure("DID参数不足")));
    assert_eq!(
        manager.send_uds_command("0x2e", "2e f1", stamp()),
        Err(failure("写入DID参数不足"))
    );
    assert_eq!(
        manager.send_uds_command("0x27", "27", stamp()),
        Err(failure("安全访问级别参数不足"))
    );
    assert_eq!(
        manager.send_uds_command("0x27", "27 02", stamp()),
        Err(failure("安全访问验证失败: Invalid parameter: No seed available"))
    );
    assert!(manager.get_connection_status());
}

#[test]
fn requests_are_planned() {
    let mut manager = serving();
    let mut planned = |service: &str, data: &str| -> Command {
        manager.send_uds_command(service, data, stamp()).unwrap()
    };
    let tail = |command: &Command| command.exchange.request[12..].to_vec();

    let command = planned("0x10", "10 03");
    assert_eq!(command.exchange.kind, ServiceKind::StartSession);
    assert_eq!(tail(&command), vec![0x10, 0x03]);
    assert!(command.exchange.awaits_response);
    assert_eq!(tail(&planned("0x10", "")), vec![0x10, 0x01]);
    assert_eq!(tail(&planned("0x10", "10")), vec![0x10, 0x01]);
    assert!(!planned("10", "10 04").exchange.awaits_response);

    assert_eq!(tail(&planned("0x11", "11 03")), vec![0x11, 0x03]);
    assert_eq!(tail(&planned("0x11", "")), vec![0x11, 0x01]);
    assert_eq!(tail(&planned("0x14", "")), vec![0x14, 0xff, 0xff, 0xff]);
    assert_eq!(tail(&planned("0x19", "19 0a")), vec![0x19, 0x0a, 0xaf]);
    assert_eq!(tail(&planned("0x19", "19")), vec![0x19, 0x02, 0xaf]);

    let command = planned("0x22", "22 F1 90");
    assert_eq!(command.exchange.kind, ServiceKind::ReadDataByIdentifier);
    assert_eq!(command.did, 0xf190);
    assert_eq!(tail(&command), vec![0x22, 0xf1, 0x90]);
    assert_eq!(tail(&planned("0x22", "22 F1 90 aa bb")), vec![0x22, 0xf1, 0x90]);

    let command = planned("0x27", "27 01");
    assert_eq!(command.exchange.kind, ServiceKind::SecurityAccessSeed);
    assert_eq!(tail(&command), vec![0x27, 0x01]);
    assert_eq!(tail(&planned("0x27", "27 ff")), vec![0x27, 0xff]);

    assert_eq!(tail(&planned("0x28", "28 01")), vec![0x28, 0x01, 0x03]);
    assert_eq!(tail(&planned("0x28", "")), vec![0x28, 0x00, 0x03]);
    assert!(planned("0x28", "28 80").exchange.awaits_response);
    assert!(!planned("0x28", "28 81").exchange.awaits_response);

    let command = planned("0x2E", "2e f1 90 41 42 ff 00");
    assert_eq!(command.exchange.kind, ServiceKind::WriteDataByIdentifier);
    assert_eq!(command.did, 0xf190);
    assert_eq!(tail(&command), vec![0x2e, 0xf1, 0x90, 0x41, 0x42, 0xff, 0x00]);
    assert_eq!(&command.exchange.request[4..8], &[0x00, 0x00, 0x00, 0x0b]);
    assert_eq!(tail(&planned("0x2E", "2e 01 02")), vec![0x2e, 0x01, 0x02]);

    assert_eq!(tail(&planned("0x3E", "3e 00")), vec![0x3e, 0x00]);
    assert_eq!(tail(&planned("0x3E", "")), vec![0x3e, 0x00]);
    assert!(planned("0x3E", "3e 00").exchange.awaits_response);
    assert_eq!(tail(&planned("0x3E", "3e 80")), vec![0x3e, 0x80]);
    assert!(!planned("0x3E", "3e 80").exchange.awaits_response);
    assert_eq!(tail(&planned("0x3E", "3e 81")), vec![0x3e, 0x00]);

    assert_eq!(tail(&planned("0x85", "85 01")), vec![0x85, 0x01]);
    assert_eq!(tail(&planned("0x85", "")), vec![0x85, 0x02]);
}

#[test]
fn envelopes_of_the_services() {
    let mut manager = serving();
    let success = |message: &str, data: Option<&str>| DiagnosticResult {
        success: true,
        message: message.to_string(),
        data: data.map(|text| text.to_string()),
        timestamp: stamp(),
    };
    assert_eq!(
        command(&mut manager, "0x10", "10 03", vec![reply(&[0x50, 0x03])]),
        success("会话控制成功", None)
    );
    assert_eq!(command(&mut manager, "0x10", "10 04", vec![]), success("会话控制成功", None));
    assert_eq!(
        command(&mut manager, "0x11", "11 01", vec![reply(&[0x51, 0x01])]),
        success("ECU重启成功", None)
    );
    assert_eq!(
        command(&mut manager, "0x14", "14", vec![reply(&[0x54])]),
        success("清除DTC成功", None)
    );
    assert_eq!(
        command(&mut manager, "0x19", "19 02", vec![vec![0x59, 0x02, 0xab]]),
        success("读取DTC信息成功", Some("5902ab"))
    );
    assert_eq!(
        command(&mut manager, "0x22", "22 f1 90", vec![vec![0x62, 0xf1, 0x90, 0x41, 0x0f]]),
        success("读取DID 0xf190成功", Some("62f190410f"))
    );
    assert_eq!(
        command(&mut manager, "0x22", "22 00 0a", vec![vec![0x62, 0x00, 0x0a]]),
        success("读取DID 0x000a成功", Some("62000a"))
    );
    assert_eq!(
        command(&mut manager, "0x27", "27 01", vec![reply(&[0x67, 0x01, 0xb4, 0x18, 0xe1, 0xa8])]),
        success("获取安全访问种子成功", None)
    );
    assert_eq!(
        command(&mut manager, "0x27", "27 02", vec![reply(&[0x67, 0x02])]),
        success("安全访问验证成功", None)
    );
    assert_eq!(
        command(&mut manager, "0x28", "28 01", vec![reply(&[0x68, 0x01])]),
        success("通信控制成功", None)
    );
    assert_eq!(
        command(&mut manager, "0x2e", "2e f1 90 41", vec![vec![0x6e, 0xf1, 0x90]]),
        success("写入DID 0xf190成功", Some("6ef190"))
    );
    assert_eq!(
        command(&mut manager, "0x3e", "3e 00", vec![reply(&[0x7e, 0x00])]),
        success("测试器在线成功", None)
    );
    assert_eq!(command(&mut manager, "0x3e", "3e 80", vec![]), success("测试器在线成功", None));
    assert_eq!(
        command(&mut manager, "0x85", "85 02", vec![reply(&[0xc5, 0x02])]),
        success("DTC控制成功", None)
    );
    assert!(manager.get_connection_status());
}

#[test]
fn key_is_computed_from_the_seed() {
    let mut manager = serving();
    command(&mut manager, "0x27", "27 01", vec![reply(&[0x67, 0x01, 0x12, 0x34, 0x56, 0x78])]);
    let key = manager.send_uds_command("0x27", "27 02", stamp()).unwrap();
    assert_eq!(&key.exchange.request[12..], &[0x27, 0x02, 0xc8, 0x46, 0x2d, 0x1d]);
    let key = manager.send_uds_command("0x27", "27 04", stamp()).unwrap();
    assert_eq!(&key.exchange.request[12..], &[0x27, 0x04, 0x0c, 0xa1, 0x14, 0x97]);
    let key = manager.send_uds_command("0x27", "27 06", stamp()).unwrap();
    assert_eq!(&key.exchange.request[12..], &[0x27, 0x06, 0x34, 0x7d, 0xb5, 0x75]);
    let key = manager.send_uds_command("0x27", "27 08", stamp()).unwrap();
    assert_eq!(&key.exchange.request[12..], &[0x27, 0x08, 0xed, 0xcb, 0xbb, 0xb3]);
    assert_eq!(
        manager.send_uds_command("0x27", "27 0a", stamp()),
        Err(failure("安全访问验证失败: DoIP error: Unsupported security level: 10"))
    );
    assert_eq!(
        manager.send_uds_command("0x27", "27 00", stamp()),
        Err(failure("安全访问验证失败: DoIP error: Unsupported security level: 0"))
    );
    assert!(manager.get_connection_status());
    let key = manager.send_uds_command("0x27", "27 02", stamp()).unwrap();
    assert_eq!(&key.exchange.request[12..], &[0x27, 0x02, 0xc8, 0x46, 0x2d, 0x1d]);
}

#[test]
fn denials_keep_the_session() {
    let mut manager = serving();
    let cases = vec![
        ("0x10", "10 03", "会话控制失败: Request denied: Start session denied"),
        ("0x11", "11 01", "ECU重启失败: Request denied: ECU Reset denied"),
        ("0x14", "14", "清除DTC失败: Request denied: Clear diagnostic information denied"),
        ("0x19", "19 02", "读取DTC信息失败: Request denied: Read DTC information denied"),
        ("0x22", "22 f1 90", "读取DID失败: Request denied: Read data identifier denied"),
        ("0x27", "27 01", "获取安全访问种子失败: Security access denied"),
        ("0x28", "28 01", "通信控制失败: Request denied: Communication control denied"),
        ("0x2e", "2e f1 90 41", "写入DID失败: Request denied: Write data identifier denied"),
        ("0x3e", "3e 00", "测试器在线失败: Request denied: Tester present denied"),
        ("0x85", "85 02", "DTC控制失败: Request denied: Control DTC setting denied"),
    ];
    for (service, data, message) in cases {
        assert_eq!(
            command(&mut manager, service, data, vec![vec![0x7f, 0x00, 0x31]]),
            failure(message)
        );
        assert!(manager.get_connection_status());
    }
    command(&mut manager, "0x27", "27 01", vec![reply(&[0x67, 0x01, 1, 2, 3, 4])]);
    assert_eq!(
        command(&mut manager, "0x27", "27 02", vec![vec![0x7f, 0x27, 0x35]]),
        failure("安全访问验证失败: Security access denied")
    );
    assert!(manager.get_connection_status());
}

#[test]
fn transport_errors_end_the_managed_session() {
    let mut manager = serving();
    command(&mut manager, "0x27", "27 01", vec![reply(&[0x67, 0x01, 1, 2, 3, 4])]);
    assert_eq!(
        command(&mut manager, "0x3e", "3e 00", vec![vec![]]),
        failure("测试器在线失败: DoIP error: Connection closed by peer")
    );
    assert!(!manager.get_connection_status());
    assert_eq!(command(&mut manager, "0x27", "27 02", vec![]), failure("未连接到ECU"));

    let mut manager = serving();
    let planned = manager.send_uds_command("0x3e", "3e 00", stamp()).unwrap();
    assert_eq!(
        manager.exchange_sent(&planned.exchange, SendOutcome::Failed("broken pipe".to_string())),
        Progress::Done(Err(UdsError::DoipError(DoipError::SendFailed("broken pipe".to_string()))))
    );
    assert!(!manager.get_connection_status());
    assert_eq!(
        manager.exchange_sent(&planned.exchange, SendOutcome::Written),
        Progress::Done(Err(UdsError::DoipError(DoipError::NotConnected)))
    );
    assert_eq!(
        manager.exchange_received(&planned.exchange, ReadOutcome::Read(vec![1])),
        Progress::Done(Err(UdsError::DoipError(DoipError::NotConnected)))
    );

    let mut manager = serving();
    let planned = manager.send_uds_command("0x3e", "3e 00", stamp()).unwrap();
    assert_eq!(manager.exchange_sent(&planned.exchange, SendOutcome::Written), Progress::Receive);
    let progress = manager.exchange_received(&planned.exchange, ReadOutcome::TimedOut);
    assert_eq!(progress, Progress::Done(Err(UdsError::DoipError(DoipError::Timeout))));
    assert!(!manager.get_connection_status());
    assert_eq!(
        finish_command(&planned, Err(UdsError::DoipError(DoipError::Timeout)), stamp()),
        failure("测试器在线失败: DoIP error: Timeout occurred")
    );
}

#[test]
fn new_connect_ends_the_old_session() {
    let mut manager = serving();
    let mut other = config();
    other.port = 13401;
    let client = manager.connect(other.clone());
    assert!(!manager.get_connection_status());
    assert_eq!(manager.get_connection_config(), Some(&other));
    assert_eq!(client.endpoint(), "192.168.1.10:13401");
}

#[test]
fn response_is_handed_on_in_hexadecimal() {
    let command = Command {
        exchange: Exchange {
            kind: ServiceKind::ReadDataByIdentifier,
            request: vec![],
            awaits_response: true,
        },
        did: 0xf18c,
    };
    let answer = UdsResponse {
        success: true,
        data: Some(vec![0x00, 0x0f, 0xa0, 0xff, 0x10]),
        error: None,
    };
    let envelope = finish_command(&command, Ok(answer), stamp());
    assert_eq!(envelope.data, Some("000fa0ff10".to_string()));
    assert_eq!(envelope.message, "读取DID 0xf18c成功");
    assert_eq!(envelope.timestamp, STAMP);
    let empty = UdsResponse { success: true, data: Some(vec![]), error: None };
    assert_eq!(finish_command(&command, Ok(empty), stamp()).data, Some(String::new()));
    let unsuccessful = UdsResponse { success: false, data: None, error: None };
    let envelope = finish_command(&command, Ok(unsuccessful), stamp());
    assert!(!envelope.success);
    assert_eq!(envelope.message, "读取DID 0xf18c");
    assert_eq!(envelope.data, None);
}
