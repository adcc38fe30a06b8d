//! Shared data types: configuration, results, service constants and errors.

use vstd::prelude::*;
use crate::text::{decimal_digits, push_decimal, push_upper_hex_pair, upper_hex_pair};

verus! {

/// Where the ECU listens and how long one I/O call may take.
#[derive(Debug, Clone, PartialEq, Eq)]
pub struct DoipClientConfig {
    pub ip_address: String,
    pub port: u16,
    /// Milliseconds; `None` stands for the default of 30000.
    pub timeout: Option<u64>,
}

/// The logical addresses of the two ends, each as hexadecimal text.
#[derive(Debug, Clone, PartialEq, Eq)]
pub struct VehicleConfig {
    pub server_address: String,
    pub client_address: String,
}

/// What the diagnostic engine needs to know of the vehicle.
#[derive(Debug, Clone, PartialEq, Eq)]
pub struct UdsConfig {
    pub vehicle_info: VehicleConfig,
}

/// The outcome of one diagnostic service. `data` holds the raw bytes of the
/// response, from the DoIP header on.
#[derive(Debug, Clone, PartialEq, Eq)]
pub struct UdsResponse {
    pub success: bool,
    pub data: Option<Vec<u8>>,
    pub error: Option<String>,
}

/// The envelope in which every operation of the session manager answers.
/// `data` is the response in packed lower-case hexadecimal.
#[derive(Debug, Clone, PartialEq, Eq)]
pub struct DiagnosticResult {
    pub success: bool,
    pub message: String,
    pub data: Option<String>,
    pub timestamp: String,
}

impl DiagnosticResult {
    /// An envelope that reports a failure and carries no data.
    pub fn failure(message: String, timestamp: String) -> (envelope: Self)
        ensures
            !envelope.success,
            envelope.message == message,
            envelope.data is None,
            envelope.timestamp == timestamp,
    {
        DiagnosticResult { success: false, message, data: None, timestamp }
    }
}

/// Everything a caller gives to open a session.
#[derive(Debug, Clone, PartialEq, Eq)]
pub struct ConnectionConfig {
    pub ip_address: String,
    pub port: u16,
    pub server_address: String,
    pub client_address: String,
    pub timeout: Option<u64>,
}

/// Service identifiers.
pub struct UdsServices;

impl UdsServices {
    pub const DIAGNOSTIC_SESSION_CONTROL: u8 = 0x10;

    pub const ECU_RESET: u8 = 0x11;

    pub const CLEAR_DIAGNOSTIC_INFORMATION: u8 = 0x14;

    pub const READ_DTC_INFORMATION: u8 = 0x19;

    pub const READ_DATA_BY_IDENTIFIER: u8 = 0x22;

    pub const SECURITY_ACCESS: u8 = 0x27;

    pub const COMMUNICATION_CONTROL: u8 = 0x28;

    pub const WRITE_DATA_BY_IDENTIFIER: u8 = 0x2E;

    pub const ROUTINE_CONTROL: u8 = 0x31;

    pub const TESTER_PRESENT: u8 = 0x3E;

    pub const CONTROL_DTC_SETTING: u8 = 0x85;
}

/// Data identifiers in common use.
pub struct CommonDids;

impl CommonDids {
    pub const VIN: u16 = 0xF190;

    pub const HARDWARE_VERSION: u16 = 0xF191;

    pub const SOFTWARE_VERSION: u16 = 0xF194;

    pub const CALIBRATION_VERSION: u16 = 0xF195;

    pub const ECU_SERIAL_NUMBER: u16 = 0xF18C;

    pub const ECU_MANUFACTURING_DATE: u16 = 0xF18A;

    pub const ECU_INSTALLATION_DATE: u16 = 0xF18B;
}

/// Diagnostic session types.
pub struct SessionTypes;

impl SessionTypes {
    pub const DEFAULT: u8 = 0x01;

    pub const PROGRAMMING: u8 = 0x02;

    pub const EXTENDED: u8 = 0x03;
}

/// Reset types.
pub struct ResetTypes;

impl ResetTypes {
    pub const HARD_RESET: u8 = 0x01;

    pub const KEY_OFF_ON_RESET: u8 = 0x02;

    pub const SOFT_RESET: u8 = 0x03;
}

/// Sub-functions of the security access service: odd to ask for a seed,
/// even to send the key.
pub struct SecurityLevels;

impl SecurityLevels {
    pub const LEVEL1_SEED: u8 = 0x01;

    pub const LEVEL1_KEY: u8 = 0x02;

    pub const LEVEL2_SEED: u8 = 0x03;

    pub const LEVEL2_KEY: u8 = 0x04;

    pub const LEVEL3_SEED: u8 = 0x05;

    pub const LEVEL3_KEY: u8 = 0x06;

    pub const LEVEL4_SEED: u8 = 0x07;

    pub const LEVEL4_KEY: u8 = 0x08;
}

/// Bits of the status byte of a trouble code.
pub struct DtcStatusMask;

impl DtcStatusMask {
    pub const TEST_FAILED: u8 = 0x01;

    pub const TEST_FAILED_THIS_OPERATION_CYCLE: u8 = 0x02;

    pub const PENDING_DTC: u8 = 0x04;

    pub const CONFIRMED_DTC: u8 = 0x08;

    pub const TEST_NOT_COMPLETED_SINCE_LAST_CLEAR: u8 = 0x10;

    pub const TEST_FAILED_SINCE_LAST_CLEAR: u8 = 0x20;

    pub const TEST_NOT_COMPLETED_THIS_OPERATION_CYCLE: u8 = 0x40;

    pub const WARNING_INDICATOR_REQUESTED: u8 = 0x80;
}

/// Errors of the transport and of data conversion.
#[derive(Debug, Clone, PartialEq, Eq)]
pub enum DoipError {
    ConnectionFailed(String),
    SendFailed(String),
    ReceiveFailed(String),
    Timeout,
    InvalidData(String),
    ProtocolError(String),
    NotConnected,
    IoError(String),
    /// The peer closed the connection in an orderly way.
    ConnectionClosedByPeer,
    /// A security-access selector outside {2, 4, 6, 8}.
    UnsupportedLevel(u8),
}

impl DoipError {
    /// The error came from the connection, which is lost with it.
    pub open spec fn is_transport_spec(&self) -> bool {
        match self {
            DoipError::ConnectionFailed(_) => true,
            DoipError::SendFailed(_) => true,
            DoipError::ReceiveFailed(_) => true,
            DoipError::Timeout => true,
            DoipError::NotConnected => true,
            DoipError::ConnectionClosedByPeer => true,
            DoipError::IoError(_) => true,
            DoipError::InvalidData(_) => false,
            DoipError::ProtocolError(_) => false,
            DoipError::UnsupportedLevel(_) => false,
        }
    }

    /// Tells whether the error came from the connection.
    #[verifier::when_used_as_spec(is_transport_spec)]
    pub fn is_transport(&self) -> (yes: bool)
        ensures
            yes == self.is_transport_spec(),
    {
        match self {
            DoipError::ConnectionFailed(_) => true,
            DoipError::SendFailed(_) => true,
            DoipError::ReceiveFailed(_) => true,
            DoipError::Timeout => true,
            DoipError::NotConnected => true,
            DoipError::ConnectionClosedByPeer => true,
            DoipError::IoError(_) => true,
            DoipError::InvalidData(_) => false,
            DoipError::ProtocolError(_) => false,
            DoipError::UnsupportedLevel(_) => false,
        }
    }

    /// The text of the error's message.
    pub open spec fn message_text(&self) -> Seq<char> {
        match self {
            DoipError::ConnectionFailed(detail) => "Connection failed: "@ + detail@,
            DoipError::SendFailed(detail) => "Send failed: "@ + detail@,
            DoipError::ReceiveFailed(detail) => "Receive failed: "@ + detail@,
            DoipError::Timeout => "Timeout occurred"@,
            DoipError::InvalidData(detail) => "Invalid data format: "@ + detail@,
            DoipError::ProtocolError(detail) => "Protocol error: "@ + detail@,
            DoipError::NotConnected => "Not connected"@,
            DoipError::IoError(detail) => "IO error: "@ + detail@,
            DoipError::ConnectionClosedByPeer => "Connection closed by peer"@,
            DoipError::UnsupportedLevel(level) => "Unsupported security level: "@
                + decimal_digits(*level as nat),
        }
    }

    /// A message for the user.
    pub fn message(&self) -> (text: String)
        ensures
            text@ == self.message_text(),
    {
        match self {
            DoipError::ConnectionFailed(detail) => labelled("Connection failed: ", detail),
            DoipError::SendFailed(detail) => labelled("Send failed: ", detail),
            DoipError::ReceiveFailed(detail) => labelled("Receive failed: ", detail),
            DoipError::Timeout => "Timeout occurred".to_string(),
            DoipError::InvalidData(detail) => labelled("Invalid data format: ", detail),
            DoipError::ProtocolError(detail) => labelled("Protocol error: ", detail),
            DoipError::NotConnected => "Not connected".to_string(),
            DoipError::IoError(detail) => labelled("IO error: ", detail),
            DoipError::ConnectionClosedByPeer => "Connection closed by peer".to_string(),
            DoipError::UnsupportedLevel(level) => {
                let mut text = "Unsupported security level: ".to_string();
                push_decimal(&mut text, *level as u64);
                text
            },
        }
    }
}

/// `label` followed by `detail`.
pub fn labelled(label: &str, detail: &String) -> (text: String)
    ensures
        text@ == label@ + detail@,
{
    let mut text = label.to_string();
    text.append(detail.as_str());
    text
}

/// Errors of the diagnostic services.
#[derive(Debug, Clone, PartialEq, Eq)]
pub enum UdsError {
    DoipError(DoipError),
    ServiceNotSupported(u8),
    InvalidParameter(String),
    SecurityAccessDenied,
    RequestDenied(String),
    ResponseTimeout,
    InvalidResponse(String),
    /// The ECU did not grant the routing activation.
    RoutingActivationDenied,
}

impl UdsError {
    /// The text of the error's message.
    pub open spec fn message_text(&self) -> Seq<char> {
        match self {
            UdsError::DoipError(inner) => "DoIP error: "@ + inner.message_text(),
            UdsError::ServiceNotSupported(service) => "Service not supported: "@ + upper_hex_pair(
                *service,
            ),
            UdsError::InvalidParameter(detail) => "Invalid parameter: "@ + detail@,
            UdsError::SecurityAccessDenied => "Security access denied"@,
            UdsError::RequestDenied(detail) => "Request denied: "@ + detail@,
            UdsError::ResponseTimeout => "Response timeout"@,
            UdsError::InvalidResponse(detail) => "Invalid response: "@ + detail@,
            UdsError::RoutingActivationDenied => "Routing activation denied"@,
        }
    }

    /// A message for the user.
    pub fn message(&self) -> (text: String)
        ensures
            text@ == self.message_text(),
    {
        match self {
            UdsError::DoipError(inner) => {
                let detail = inner.message();
                labelled("DoIP error: ", &detail)
            },
            UdsError::ServiceNotSupported(service) => {
                let mut text = "Service not supported: ".to_string();
                push_upper_hex_pair(&mut text, *service);
                text
            },
            UdsError::InvalidParameter(detail) => labelled("Invalid parameter: ", detail),
            UdsError::SecurityAccessDenied => "Security access denied".to_string(),
            UdsError::RequestDenied(detail) => labelled("Request denied: ", detail),
            UdsError::ResponseTimeout => "Response timeout".to_string(),
            UdsError::InvalidResponse(detail) => labelled("Invalid response: ", detail),
            UdsError::RoutingActivationDenied => "Routing activation denied".to_string(),
        }
    }

    /// Tells whether the error came from the connection.
    pub fn is_transport(&self) -> (yes: bool)
        ensures
            yes == (self matches UdsError::DoipError(inner) && inner.is_transport_spec()),
    {
        match self {
            UdsError::DoipError(inner) => inner.is_transport(),
            _ => false,
        }
    }
}

/// What a diagnostic service returns.
pub type UdsResult<T> = Result<T, UdsError>;

} // verus!
