use doip_uds::types::{
    CommonDids, DoipError, DtcStatusMask, ResetTypes, SecurityLevels, SessionTypes, UdsError,
    UdsServices,
};

#[test]
fn doip_error_messages() {
    let cases = vec![
        (DoipError::ConnectionFailed("refused".to_string()), "Connection failed: refused"),
        (DoipError::SendFailed("broken pipe".to_string()), "Send failed: broken pipe"),
        (DoipError::ReceiveFailed("reset".to_string()), "Receive failed: reset"),
        (DoipError::Timeout, "Timeout occurred"),
        (DoipError::InvalidData("odd".to_string()), "Invalid data format: odd"),
        (DoipError::ProtocolError("bad".to_string()), "Protocol error: bad"),
        (DoipError::NotConnected, "Not connected"),
        (DoipError::IoError("eof".to_string()), "IO error: eof"),
        (DoipError::ConnectionClosedByPeer, "Connection closed by peer"),
        (DoipError::UnsupportedLevel(3), "Unsupported security level: 3"),
        (DoipError::UnsupportedLevel(0), "Unsupported security level: 0"),
        (DoipError::UnsupportedLevel(255), "Unsupported security level: 255"),
    ];
    for (error, text) in cases {
        assert_eq!(error.message(), text);
    }
}

#[test]
fn uds_error_messages() {
    let cases = vec![
        (UdsError::DoipError(DoipError::Timeout), "DoIP error: Timeout occurred"),
        (
            UdsError::DoipError(DoipError::SendFailed("x".to_string())),
            "DoIP error: Send failed: x",
        ),
        (UdsError::ServiceNotSupported(0x31), "Service not supported: 31"),
        (UdsError::ServiceNotSupported(0xab), "Service not supported: AB"),
        (UdsError::ServiceNotSupported(0x0f), "Service not supported: 0F"),
        (UdsError::InvalidParameter("No seed available".to_string()), "Invalid parameter: No seed available"),
        (UdsError::SecurityAccessDenied, "Security access denied"),
        (UdsError::RequestDenied("ECU Reset denied".to_string()), "Request denied: ECU Reset denied"),
        (UdsError::ResponseTimeout, "Response timeout"),
        (UdsError::InvalidResponse("short".to_string()), "Invalid response: short"),
        (UdsError::RoutingActivationDenied, "Routing activation denied"),
    ];
    for (error, text) in cases {
        assert_eq!(error.message(), text);
    }
}

#[test]
fn transport_errors_are_told_apart() {
    assert!(DoipError::ConnectionFailed(String::new()).is_transport());
    assert!(DoipError::SendFailed(String::new()).is_transport());
    assert!(DoipError::ReceiveFailed(String::new()).is_transport());
    assert!(DoipError::Timeout.is_transport());
    assert!(DoipError::NotConnected.is_transport());
    assert!(DoipError::ConnectionClosedByPeer.is_transport());
    assert!(DoipError::IoError(String::new()).is_transport());
    assert!(!DoipError::InvalidData(String::new()).is_transport());
    assert!(!DoipError::ProtocolError(String::new()).is_transport());
    assert!(!DoipError::UnsupportedLevel(1).is_transport());
    assert!(UdsError::DoipError(DoipError::Timeout).is_transport());
    assert!(!UdsError::DoipError(DoipError::InvalidData(String::new())).is_transport());
    assert!(!UdsError::SecurityAccessDenied.is_transport());
    assert!(!UdsError::RequestDenied(String::new()).is_transport());
}

#[test]
fn service_constants() {
    assert_eq!(UdsServices::DIAGNOSTIC_SESSION_CONTROL, 0x10);
    assert_eq!(UdsServices::ECU_RESET, 0x11);
    assert_eq!(UdsServices::CLEAR_DIAGNOSTIC_INFORMATION, 0x14);
    assert_eq!(UdsServices::READ_DTC_INFORMATION, 0x19);
    assert_eq!(UdsServices::READ_DATA_BY_IDENTIFIER, 0x22);
    assert_eq!(UdsServices::SECURITY_ACCESS, 0x27);
    assert_eq!(UdsServices::COMMUNICATION_CONTROL, 0x28);
    assert_eq!(UdsServices::WRITE_DATA_BY_IDENTIFIER, 0x2E);
    assert_eq!(UdsServices::ROUTINE_CONTROL, 0x31);
    assert_eq!(UdsServices::TESTER_PRESENT, 0x3E);
    assert_eq!(UdsServices::CONTROL_DTC_SETTING, 0x85);
    assert_eq!(CommonDids::VIN, 0xF190);
    assert_eq!(CommonDids::ECU_SERIAL_NUMBER, 0xF18C);
    assert_eq!(SessionTypes::EXTENDED, 0x03);
    assert_eq!(ResetTypes::SOFT_RESET, 0x03);
    assert_eq!(SecurityLevels::LEVEL1_SEED, 0x01);
    assert_eq!(SecurityLevels::LEVEL4_KEY, 0x08);
    assert_eq!(DtcStatusMask::WARNING_INDICATOR_REQUESTED, 0x80);
}
