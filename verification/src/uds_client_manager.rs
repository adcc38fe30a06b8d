//! The session manager: one session at a time, from connecting to
//! disconnecting, with every answer in one envelope.

use vstd::prelude::*;
use vstd::slice::slice_subrange;
use crate::doip_client::{
    receive_result, send_result, ConnectOutcome, DoipClient, ReadOutcome, SendOutcome,
};
use vstd::string::{is_ascii, is_ascii_spec_bytes};
use crate::security_algorithm::key_by_level;
use crate::text::{
    decimal_digits, hex_digits_4, hex_pair, packed_hex, push_char, push_decimal,
    push_hex_digits_4, push_hex_pair,
};
use crate::types::{
    labelled, ConnectionConfig, DiagnosticResult, DoipClientConfig, DoipError, UdsConfig,
    UdsError, UdsResponse, UdsResult, UdsServices, VehicleConfig,
};
use crate::uds_service::{
    address_error_text, chunk_verdict, is_judgement, is_unanswered_success, routing_request,
    seed_after, Exchange, Progress, ServiceKind, UdsService,
};
use crate::utils::{
    address_bytes, all_hex_digits, be_bytes, be_value, hex_digit_value, hex_error_text,
    hex_number, hex_to_bytes, hex_value, lemma_word_of_bytes, parse_address, parse_hex,
};

verus! {

/// The constant from which keys are computed where the caller names none.
pub const DEFAULT_SECURITY_CONSTANT: u32 = 0x1234;

/// Bytes as packed lower-case hexadecimal text. Wraps `hex::encode`, which
/// writes two lower-case digits for each byte, the high one first, and
/// nothing between them.
#[verifier::external_body]
fn hex_encode(data: &Vec<u8>) -> (text: String)
    ensures
        text@ == packed_hex(data@),
{
    hex::encode(data)
}

/// The manager of one session.
pub struct UdsClientManager {
    uds_service: Option<UdsService>,
    is_connected: bool,
    connection_config: Option<ConnectionConfig>,
}

impl UdsClientManager {
    /// The engine of the session, while there is one.
    pub closed spec fn service(&self) -> Option<UdsService> {
        self.uds_service
    }

    /// The routing activation was granted.
    pub closed spec fn activated(&self) -> bool {
        self.is_connected
    }

    /// The arguments of the last `connect`.
    pub closed spec fn config(&self) -> Option<ConnectionConfig> {
        self.connection_config
    }

    /// The session serves diagnostic requests.
    pub open spec fn serving(&self) -> bool {
        self.activated() && self.service() is Some
    }

    /// The manager's invariant: its engine, where it has one, is sound, and
    /// only a session with an engine serves.
    pub open spec fn wf(&self) -> bool {
        &&& self.service() matches Some(service) ==> service.wf()
        &&& self.activated() ==> self.service() is Some
    }

    /// A manager without a session.
    pub fn new() -> (manager: Self)
        ensures
            manager.wf(),
            manager.service() is None,
            !manager.activated(),
            manager.config() is None,
    {
        Self { uds_service: None, is_connected: false, connection_config: None }
    }

    /// Ends the session, whatever its state, and forgets the seed with it.
    pub fn disconnect(&mut self, timestamp: String) -> (envelope: DiagnosticResult)
        ensures
            final(self).wf(),
            final(self).service() is None,
            !final(self).activated(),
            final(self).config() == old(self).config(),
            envelope.success,
            envelope.message@ == "已断开ECU连接"@,
            envelope.data is None,
            envelope.timestamp == timestamp,
    {
        self.uds_service = None;
        self.is_connected = false;
        DiagnosticResult {
            success: true,
            message: "已断开ECU连接".to_string(),
            data: None,
            timestamp,
        }
    }

    /// Tells whether the session serves diagnostic requests.
    pub fn get_connection_status(&self) -> (yes: bool)
        ensures
            yes == self.serving(),
    {
        self.is_connected && self.uds_service.is_some()
    }

    /// The arguments of the last `connect`.
    pub fn get_connection_config(&self) -> (config: Option<&ConnectionConfig>)
        ensures
            match config {
                Some(held) => self.config() == Some(*held),
                None => self.config() is None,
            },
    {
        self.connection_config.as_ref()
    }
}

/// The text of the error with which an attempt to connect fails.
pub open spec fn connect_failure_text(outcome: ConnectOutcome) -> Seq<char> {
    match outcome {
        ConnectOutcome::Connected => Seq::empty(),
        ConnectOutcome::InvalidAddress(reason) => "Connection failed: "@ + (
        "Invalid address: "@ + reason@),
        ConnectOutcome::Failed(reason) => "Connection failed: "@ + reason@,
        ConnectOutcome::TimedOut => "Timeout occurred"@,
    }
}

/// The message of a session that was opened and activated.
pub open spec fn connected_message(config: ConnectionConfig) -> Seq<char> {
    "成功连接到ECU "@ + config.ip_address@ + seq![':'] + decimal_digits(config.port as nat)
        + " 并完成路由激活"@
}

/// `envelope` reports a failure with `message` at `timestamp`.
pub open spec fn is_failure(
    envelope: DiagnosticResult,
    message: Seq<char>,
    timestamp: String,
) -> bool {
    &&& !envelope.success
    &&& envelope.message@ == message
    &&& envelope.data is None
    &&& envelope.timestamp == timestamp
}

impl UdsClientManager {
    /// Begins a session: ends the one before, remembers `config`, and hands
    /// out the state of a connection that the caller is to open.
    pub fn connect(&mut self, config: ConnectionConfig) -> (client: DoipClient)
        ensures
            final(self).wf(),
            final(self).service() is None,
            !final(self).activated(),
            final(self).config() == Some(config),
            !client.connected(),
            client.config().ip_address@ == config.ip_address@,
            client.config().port == config.port,
            client.config().timeout == config.timeout,
    {
        let doip_config = DoipClientConfig {
            ip_address: config.ip_address.clone(),
            port: config.port,
            timeout: config.timeout,
        };
        self.uds_service = None;
        self.is_connected = false;
        self.connection_config = Some(config);
        DoipClient::new(doip_config)
    }

    /// Takes in what came of opening the connection. Where it is open and
    /// both addresses of the configuration are sound, the manager holds an
    /// engine on it and hands out the routing activation for the caller to
    /// run. Anything else ends the attempt with a failure.
    pub fn establish(&mut self, client: DoipClient, outcome: ConnectOutcome, timestamp: String) -> (result:
        Result<Exchange, DiagnosticResult>)
        requires
            old(self).wf(),
        ensures
            final(self).wf(),
            final(self).config() == old(self).config(),
            !final(self).activated(),
            result is Err ==> final(self).service() is None,
            match outcome {
                ConnectOutcome::Connected => match old(self).config() {
                    Some(config) => match (
                        parse_address(config.server_address@),
                        parse_address(config.client_address@),
                    ) {
                        (Some(server), Some(tester)) => {
                            &&& result matches Ok(exchange)
                            &&& exchange.kind == ServiceKind::RoutingActivation
                            &&& exchange.request@ == routing_request()
                            &&& exchange.awaits_response
                            &&& final(self).service() matches Some(service)
                            &&& service.server_address() == address_bytes(server)
                            &&& service.client_address() == address_bytes(tester)
                            &&& service.seed().len() == 0
                            &&& service.connected()
                        },
                        _ => result matches Err(envelope) && is_failure(
                            envelope,
                            "创建UDS服务失败: "@ + ("Invalid parameter: "@ + address_error_text(
                                config.server_address@,
                                config.client_address@,
                            )),
                            timestamp,
                        ),
                    },
                    None => result matches Err(envelope) && is_failure(
                        envelope,
                        "连接ECU失败"@,
                        timestamp,
                    ),
                },
                _ => result matches Err(envelope) && is_failure(
                    envelope,
                    "连接ECU失败: "@ + connect_failure_text(outcome),
                    timestamp,
                ),
            },
    {
        self.uds_service = None;
        self.is_connected = false;
        let mut client = client;
        match client.connect(outcome) {
            Err(error) => {
                let detail = error.message();
                Err(DiagnosticResult::failure(labelled("连接ECU失败: ", &detail), timestamp))
            },
            Ok(_) => {
                let uds_config = match &self.connection_config {
                    Some(config) => UdsConfig {
                        vehicle_info: VehicleConfig {
                            server_address: config.server_address.clone(),
                            client_address: config.client_address.clone(),
                        },
                    },
                    None => {
                        return Err(
                            DiagnosticResult::failure("连接ECU失败".to_string(), timestamp),
                        );
                    },
                };
                match UdsService::new(client, uds_config) {
                    Ok(service) => {
                        let exchange = service.routine_active();
                        self.uds_service = Some(service);
                        Ok(exchange)
                    },
                    Err(error) => {
                        let detail = error.message();
                        let message = labelled("创建UDS服务失败: ", &detail);
                        Err(DiagnosticResult::failure(message, timestamp))
                    },
                }
            },
        }
    }

    /// Takes in what came of writing the request of `exchange`, as the
    /// engine does. A failure ends the session.
    pub fn exchange_sent(&mut self, exchange: &Exchange, outcome: SendOutcome) -> (progress:
        Progress)
        requires
            old(self).wf(),
        ensures
            final(self).wf(),
            final(self).config() == old(self).config(),
            match old(self).service() {
                None => {
                    &&& progress == Progress::Done(
                        Err(UdsError::DoipError(DoipError::NotConnected)),
                    )
                    &&& final(self).service() is None
                    &&& !final(self).activated()
                },
                Some(before) => match send_result(before.connected(), outcome) {
                    Err(error) => {
                        &&& progress == Progress::Done(Err(UdsError::DoipError(error)))
                        &&& final(self).service() is None
                        &&& !final(self).activated()
                    },
                    Ok(_) => {
                        &&& final(self).activated() == old(self).activated()
                        &&& final(self).service() matches Some(after)
                        &&& after.same_addresses(&before)
                        &&& after.connected()
                        &&& after.seed() == before.seed()
                        &&& if exchange.awaits_response {
                            progress is Receive
                        } else {
                            progress matches Progress::Done(result) && is_unanswered_success(
                                result,
                            )
                        }
                    },
                },
            },
    {
        match self.uds_service.take() {
            None => {
                self.is_connected = false;
                Progress::Done(Err(UdsError::DoipError(DoipError::NotConnected)))
            },
            Some(service) => {
                let mut service = service;
                let progress = service.sent(exchange, outcome);
                if service.is_connected() {
                    self.uds_service = Some(service);
                } else {
                    self.is_connected = false;
                }
                progress
            },
        }
    }

    /// Takes in what came of one read while the answer of `exchange` is
    /// awaited, as the engine does. A failure ends the session.
    pub fn exchange_received(&mut self, exchange: &Exchange, outcome: ReadOutcome) -> (progress:
        Progress)
        requires
            old(self).wf(),
        ensures
            final(self).wf(),
            final(self).config() == old(self).config(),
            match old(self).service() {
                None => {
                    &&& progress == Progress::Done(
                        Err(UdsError::DoipError(DoipError::NotConnected)),
                    )
                    &&& final(self).service() is None
                    &&& !final(self).activated()
                },
                Some(before) => match receive_result(before.connected(), outcome) {
                    Err(error) => {
                        &&& progress == Progress::Done(Err(UdsError::DoipError(error)))
                        &&& final(self).service() is None
                        &&& !final(self).activated()
                    },
                    Ok(data) => {
                        &&& final(self).activated() == old(self).activated()
                        &&& final(self).service() matches Some(after)
                        &&& after.same_addresses(&before)
                        &&& after.connected()
                        &&& match chunk_verdict(
                            seq![exchange.kind.sid_spec()],
                            before.server_address(),
                            before.client_address(),
                            data@,
                        ) {
                            None => progress is Receive && after.seed() == before.seed(),
                            Some(response) => {
                                &&& progress matches Progress::Done(result)
                                &&& is_judgement(
                                    exchange.kind,
                                    before.client_address(),
                                    before.server_address(),
                                    response,
                                    result,
                                )
                                &&& after.seed() == seed_after(
                                    exchange.kind,
                                    before.client_address(),
                                    before.server_address(),
                                    before.seed(),
                                    response,
                                )
                            },
                        }
                    },
                },
            },
    {
        match self.uds_service.take() {
            None => {
                self.is_connected = false;
                Progress::Done(Err(UdsError::DoipError(DoipError::NotConnected)))
            },
            Some(service) => {
                let mut service = service;
                let progress = service.received(exchange, outcome);
                if service.is_connected() {
                    self.uds_service = Some(service);
                } else {
                    self.is_connected = false;
                }
                progress
            },
        }
    }

    /// Takes in the result of the routing activation. The session serves
    /// from a grant on; anything else ends it.
    pub fn activate(&mut self, result: UdsResult<UdsResponse>, timestamp: String) -> (envelope:
        DiagnosticResult)
        requires
            old(self).wf(),
        ensures
            final(self).wf(),
            final(self).config() == old(self).config(),
            envelope.data is None,
            envelope.timestamp == timestamp,
            match result {
                Ok(answer) => if answer.success && old(self).service() is Some && old(
                    self,
                ).config() is Some {
                    &&& final(self).serving()
                    &&& final(self).service() == old(self).service()
                    &&& envelope.success
                    &&& envelope.message@ == connected_message(old(self).config()->0)
                } else {
                    &&& final(self).service() is None
                    &&& !final(self).activated()
                    &&& !envelope.success
                    &&& envelope.message@ == "路由激活被拒绝"@
                },
                Err(error) => {
                    &&& final(self).service() is None
                    &&& !final(self).activated()
                    &&& !envelope.success
                    &&& envelope.message@ == "路由激活失败: "@ + error.message_text()
                },
            },
    {
        match result {
            Ok(answer) => {
                if answer.success && self.uds_service.is_some() {
                    match &self.connection_config {
                        Some(config) => {
                            let mut message = "成功连接到ECU ".to_string();
                            message.append(config.ip_address.as_str());
                            push_char(&mut message, ':');
                            push_decimal(&mut message, config.port as u64);
                            message.append(" 并完成路由激活");
                            assert(message@ =~= connected_message(*config));
                            self.is_connected = true;
                            return DiagnosticResult {
                                success: true,
                                message,
                                data: None,
                                timestamp,
                            };
                        },
                        None => {},
                    }
                }
                self.uds_service = None;
                self.is_connected = false;
                DiagnosticResult::failure("路由激活被拒绝".to_string(), timestamp)
            },
            Err(error) => {
                self.uds_service = None;
                self.is_connected = false;
                let detail = error.message();
                DiagnosticResult::failure(labelled("路由激活失败: ", &detail), timestamp)
            },
        }
    }
}

/// A diagnostic request that the manager has accepted: the exchange to run,
/// and the data identifier that a read or a write is about.
#[derive(Debug, Clone, PartialEq, Eq)]
pub struct Command {
    pub exchange: Exchange,
    pub did: u16,
}

/// `text` without the marks `0x` at its start.
pub open spec fn without_0x(text: Seq<char>) -> Seq<char>
    decreases text.len(),
{
    if text.len() >= 2 && text[0] == '0' && text[1] == 'x' {
        without_0x(text.skip(2))
    } else {
        text
    }
}

/// The service identifier that a text names: one or two hexadecimal digits,
/// which `0x` may precede.
pub open spec fn parse_service_id(text: Seq<char>) -> Option<int> {
    let digits = without_0x(text);
    if 1 <= digits.len() <= 2 && all_hex_digits(digits) {
        Some(hex_number(digits))
    } else {
        None
    }
}

/// The second byte of a request, or `default` where the request has none.
pub open spec fn operand(data: Seq<u8>, default: u8) -> u8 {
    if data.len() > 1 {
        data[1]
    } else {
        default
    }
}

/// What the manager makes of a request.
pub enum Plan {
    /// It runs an exchange of `kind` with the frame of `payload`.
    Run { kind: ServiceKind, payload: Seq<u8>, awaits_response: bool, did: int },
    /// It refuses with `message`.
    Refuse { message: Seq<char> },
}

/// The plan for the security access: an odd level asks for a seed, an even
/// one sends the key that the default constant gives for the seed held. A
/// key without a seed is refused as an invalid parameter, an even level
/// that names no variant as unsupported.
pub open spec fn security_plan(data: Seq<u8>, seed: Seq<u8>) -> Plan {
    if data.len() < 2 {
        Plan::Refuse { message: "安全访问级别参数不足"@ }
    } else if data[1] % 2 == 1 {
        Plan::Run {
            kind: ServiceKind::SecurityAccessSeed,
            payload: seq![0x27u8, data[1]],
            awaits_response: true,
            did: 0,
        }
    } else if seed.len() == 0 {
        Plan::Refuse {
            message: "安全访问验证失败: "@ + ("Invalid parameter: "@ + "No seed available"@),
        }
    } else {
        match key_by_level(data[1], be_value(seed) as u32, DEFAULT_SECURITY_CONSTANT) {
            Some(token) => Plan::Run {
                kind: ServiceKind::SecurityAccessKey,
                payload: seq![0x27u8, data[1]] + be_bytes(token),
                awaits_response: true,
                did: 0,
            },
            None => Plan::Refuse {
                message: "安全访问验证失败: "@ + ("DoIP error: "@ + (
                "Unsupported security level: "@ + decimal_digits(data[1] as nat))),
            },
        }
    }
}

/// The plan for the service `service` with the request bytes `data`, of
/// which the first stands for the service itself, in a session that holds
/// `seed`.
pub open spec fn command_plan(service: int, data: Seq<u8>, seed: Seq<u8>) -> Plan {
    if service == 0x10 {
        Plan::Run {
            kind: ServiceKind::StartSession,
            payload: seq![0x10u8, operand(data, 0x01)],
            awaits_response: operand(data, 0x01) <= 0x03,
            did: 0,
        }
    } else if service == 0x11 {
        Plan::Run {
            kind: ServiceKind::EcuReset,
            payload: seq![0x11u8, operand(data, 0x01)],
            awaits_response: true,
            did: 0,
        }
    } else if service == 0x14 {
        Plan::Run {
            kind: ServiceKind::ClearDiagnosticInformation,
            payload: seq![0x14u8, 0xff, 0xff, 0xff],
            awaits_response: true,
            did: 0,
        }
    } else if service == 0x19 {
        Plan::Run {
            kind: ServiceKind::ReadDtcInformation,
            payload: seq![0x19u8, operand(data, 0x02), 0xaf],
            awaits_response: true,
            did: 0,
        }
    } else if service == 0x22 {
        if data.len() >= 3 {
            Plan::Run {
                kind: ServiceKind::ReadDataByIdentifier,
                payload: seq![0x22u8, data[1], data[2]],
                awaits_response: true,
                did: data[1] * 0x100 + data[2],
            }
        } else {
            Plan::Refuse { message: "DID参数不足"@ }
        }
    } else if service == 0x27 {
        security_plan(data, seed)
    } else if service == 0x28 {
        Plan::Run {
            kind: ServiceKind::CommunicationControl,
            payload: seq![0x28u8, operand(data, 0x00), 0x03],
            awaits_response: operand(data, 0x00) <= 0x80,
            did: 0,
        }
    } else if service == 0x2e {
        if data.len() < 3 {
            Plan::Refuse { message: "写入DID参数不足"@ }
        } else if data.len() + 4 > u32::MAX {
            Plan::Refuse { message: "写入DID失败: "@ + ("Invalid parameter: "@ + "Data too long"@) }
        } else {
            Plan::Run {
                kind: ServiceKind::WriteDataByIdentifier,
                payload: seq![0x2eu8, data[1], data[2]] + data.skip(3),
                awaits_response: true,
                did: data[1] * 0x100 + data[2],
            }
        }
    } else if service == 0x3e {
        if data.len() > 1 && data[1] == 0x80 {
            Plan::Run {
                kind: ServiceKind::TesterPresent,
                payload: seq![0x3eu8, 0x80],
                awaits_response: false,
                did: 0,
            }
        } else {
            Plan::Run {
                kind: ServiceKind::TesterPresent,
                payload: seq![0x3eu8, 0x00],
                awaits_response: true,
                did: 0,
            }
        }
    } else if service == 0x85 {
        Plan::Run {
            kind: ServiceKind::ControlDtcSetting,
            payload: seq![0x85u8, operand(data, 0x02)],
            awaits_response: true,
            did: 0,
        }
    } else {
        Plan::Refuse { message: "不支持的UDS服务: 0x"@ + hex_pair(service as u8) }
    }
}

/// The name under which a service appears in messages.
pub open spec fn command_label(kind: ServiceKind, did: u16) -> Seq<char> {
    match kind {
        ServiceKind::RoutingActivation => "路由激活"@,
        ServiceKind::StartSession => "会话控制"@,
        ServiceKind::ControlDtcSetting => "DTC控制"@,
        ServiceKind::CommunicationControl => "通信控制"@,
        ServiceKind::ReadDataByIdentifier => "读取DID 0x"@ + hex_digits_4(did as nat),
        ServiceKind::WriteDataByIdentifier => "写入DID 0x"@ + hex_digits_4(did as nat),
        ServiceKind::SecurityAccessSeed => "获取安全访问种子"@,
        ServiceKind::SecurityAccessKey => "安全访问验证"@,
        ServiceKind::EcuReset => "ECU重启"@,
        ServiceKind::ReadDtcInformation => "读取DTC信息"@,
        ServiceKind::ClearDiagnosticInformation => "清除DTC"@,
        ServiceKind::TesterPresent => "测试器在线"@,
    }
}

/// What the message of a failed service begins with.
pub open spec fn failure_label(kind: ServiceKind) -> Seq<char> {
    match kind {
        ServiceKind::RoutingActivation => "路由激活失败: "@,
        ServiceKind::StartSession => "会话控制失败: "@,
        ServiceKind::ControlDtcSetting => "DTC控制失败: "@,
        ServiceKind::CommunicationControl => "通信控制失败: "@,
        ServiceKind::ReadDataByIdentifier => "读取DID失败: "@,
        ServiceKind::WriteDataByIdentifier => "写入DID失败: "@,
        ServiceKind::SecurityAccessSeed => "获取安全访问种子失败: "@,
        ServiceKind::SecurityAccessKey => "安全访问验证失败: "@,
        ServiceKind::EcuReset => "ECU重启失败: "@,
        ServiceKind::ReadDtcInformation => "读取DTC信息失败: "@,
        ServiceKind::ClearDiagnosticInformation => "清除DTC失败: "@,
        ServiceKind::TesterPresent => "测试器在线失败: "@,
    }
}

/// The message of an envelope for the result of a service.
pub open spec fn command_message(kind: ServiceKind, did: u16, result: UdsResult<UdsResponse>) -> Seq<
    char,
> {
    match result {
        Ok(answer) => if answer.success {
            command_label(kind, did) + "成功"@
        } else {
            command_label(kind, did)
        },
        Err(error) => failure_label(kind) + error.message_text(),
    }
}

/// The name under which a service appears in messages.
fn label_of(kind: ServiceKind, did: u16) -> (label: String)
    ensures
        label@ == command_label(kind, did),
{
    match kind {
        ServiceKind::RoutingActivation => "路由激活".to_string(),
        ServiceKind::StartSession => "会话控制".to_string(),
        ServiceKind::ControlDtcSetting => "DTC控制".to_string(),
        ServiceKind::CommunicationControl => "通信控制".to_string(),
        ServiceKind::ReadDataByIdentifier => {
            let mut label = "读取DID 0x".to_string();
            push_hex_digits_4(&mut label, did as usize);
            label
        },
        ServiceKind::WriteDataByIdentifier => {
            let mut label = "写入DID 0x".to_string();
            push_hex_digits_4(&mut label, did as usize);
            label
        },
        ServiceKind::SecurityAccessSeed => "获取安全访问种子".to_string(),
        ServiceKind::SecurityAccessKey => "安全访问验证".to_string(),
        ServiceKind::EcuReset => "ECU重启".to_string(),
        ServiceKind::ReadDtcInformation => "读取DTC信息".to_string(),
        ServiceKind::ClearDiagnosticInformation => "清除DTC".to_string(),
        ServiceKind::TesterPresent => "测试器在线".to_string(),
    }
}

/// What the message of a failed service begins with.
fn failure_label_of(kind: ServiceKind) -> (label: &'static str)
    ensures
        label@ == failure_label(kind),
{
    match kind {
        ServiceKind::RoutingActivation => "路由激活失败: ",
        ServiceKind::StartSession => "会话控制失败: ",
        ServiceKind::ControlDtcSetting => "DTC控制失败: ",
        ServiceKind::CommunicationControl => "通信控制失败: ",
        ServiceKind::ReadDataByIdentifier => "读取DID失败: ",
        ServiceKind::WriteDataByIdentifier => "写入DID失败: ",
        ServiceKind::SecurityAccessSeed => "获取安全访问种子失败: ",
        ServiceKind::SecurityAccessKey => "安全访问验证失败: ",
        ServiceKind::EcuReset => "ECU重启失败: ",
        ServiceKind::ReadDtcInformation => "读取DTC信息失败: ",
        ServiceKind::ClearDiagnosticInformation => "清除DTC失败: ",
        ServiceKind::TesterPresent => "测试器在线失败: ",
    }
}

/// The envelope for the result of a command: the service's name with a
/// word of success, or with the error's message; and the response, where
/// the service hands one on, in hexadecimal.
pub fn finish_command(command: &Command, result: UdsResult<UdsResponse>, timestamp: String) -> (envelope:
    DiagnosticResult)
    ensures
        envelope.timestamp == timestamp,
        envelope.success == (result matches Ok(answer) && answer.success),
        envelope.message@ == command_message(command.exchange.kind, command.did, result),
        match result {
            Ok(UdsResponse { data: Some(bytes), .. }) => envelope.data matches Some(text) && text@
                == packed_hex(bytes@),
            _ => envelope.data is None,
        },
{
    let kind = command.exchange.kind;
    match result {
        Ok(answer) => {
            let mut message = label_of(kind, command.did);
            if answer.success {
                message.append("成功");
            }
            let data = match &answer.data {
                Some(bytes) => Some(hex_encode(bytes)),
                None => None,
            };
            DiagnosticResult { success: answer.success, message, data, timestamp }
        },
        Err(error) => {
            let detail = error.message();
            DiagnosticResult::failure(labelled(failure_label_of(kind), &detail), timestamp)
        },
    }
}

/// What is left of a text without its marks `0x` is the text from some
/// place on, and before that place stand only those marks.
proof fn lemma_without_0x_is_suffix(text: Seq<char>)
    ensures
        exists|k: int|
            0 <= k <= text.len() && without_0x(text) == text.skip(k) && forall|j: int|
                0 <= j < k ==> text[j] == '0' || text[j] == 'x',
    decreases text.len(),
{
    if text.len() >= 2 && text[0] == '0' && text[1] == 'x' {
        let rest = text.skip(2);
        lemma_without_0x_is_suffix(rest);
        let k = choose|k: int|
            0 <= k <= rest.len() && without_0x(rest) == rest.skip(k) && forall|j: int|
                0 <= j < k ==> rest[j] == '0' || rest[j] == 'x';
        assert(rest.skip(k) =~= text.skip(k + 2));
        assert forall|j: int| 0 <= j < k + 2 implies text[j] == '0' || text[j] == 'x' by {
            if j >= 2 {
                assert(rest[j - 2] == text[j]);
            }
        }
        assert(0 <= k + 2 <= text.len() && without_0x(text) == text.skip(k + 2));
    } else {
        assert(text.skip(0) =~= text);
    }
}

/// The service identifier that `service_id` names: one or two hexadecimal
/// digits, which `0x` may precede.
pub fn parse_service(service_id: &str) -> (service: Option<u8>)
    ensures
        match parse_service_id(service_id@) {
            Some(value) => service == Some(value as u8) && 0 <= value < 0x100,
            None => service is None,
        },
{
    let ghost text = service_id@;
    if !service_id.is_ascii() {
        proof {
            let at = choose|i: int| 0 <= i < text.len() && !('\0' <= #[trigger] text[i] <= '\u{7f}');
            lemma_without_0x_is_suffix(text);
            let k = choose|k: int|
                0 <= k <= text.len() && without_0x(text) == text.skip(k) && forall|j: int|
                    0 <= j < k ==> text[j] == '0' || text[j] == 'x';
            assert(at >= k);
            assert(without_0x(text)[at - k] == text[at]);
            assert(hex_digit_value(without_0x(text)[at - k]) is None);
        }
        return None;
    }
    let raw = service_id.as_bytes();
    proof {
        is_ascii_spec_bytes(service_id);
        assert(text.skip(0) =~= text);
    }
    let len: usize = raw.len();
    let mut start: usize = 0;
    while len - start >= 2 && raw[start] == 0x30 && raw[start + 1] == 0x78
        invariant
            start <= raw@.len() == text.len() == len,
            text == service_id@,
            is_ascii(service_id),
            forall|k: int| 0 <= k < raw@.len() ==> raw@[k] == text[k] as u8,
            without_0x(text) == without_0x(text.skip(start as int)),
        decreases raw@.len() - start,
    {
        proof {
            let rest = text.skip(start as int);
            assert('\0' <= text[start as int] <= '\u{7f}');
            assert('\0' <= text[start + 1] <= '\u{7f}');
            assert(rest[0] == '0' && rest[1] == 'x');
            assert(rest.skip(2) =~= text.skip(start + 2));
        }
        start += 2;
    }
    let ghost digits = text.skip(start as int);
    proof {
        if start + 1 < raw@.len() {
            assert('\0' <= text[start as int] <= '\u{7f}');
            assert('\0' <= text[start + 1] <= '\u{7f}');
            assert(!(digits[0] == '0' && digits[1] == 'x'));
        }
        assert(without_0x(text) == digits);
    }
    let count: usize = raw.len() - start;
    if count < 1 || count > 2 {
        return None;
    }
    proof {
        assert('\0' <= text[start as int] <= '\u{7f}');
        assert(digits[0] == text[start as int]);
        reveal_with_fuel(hex_number, 3);
    }
    let first = match hex_value(raw[start]) {
        Some(value) => value,
        None => {
            return None;
        },
    };
    if count == 1 {
        assert(digits.drop_last() =~= Seq::<char>::empty());
        return Some(first);
    }
    proof {
        assert('\0' <= text[start + 1] <= '\u{7f}');
        assert(digits[1] == text[start + 1]);
    }
    let second = match hex_value(raw[start + 1]) {
        Some(value) => value,
        None => {
            return None;
        },
    };
    proof {
        assert(digits.drop_last() =~= seq![digits[0]]);
        assert(seq![digits[0]].drop_last() =~= Seq::<char>::empty());
    }
    Some(first * 16 + second)
}

/// Plans the service `service` for the request bytes `data_bytes`: the
/// command to run, or the message with which the request is refused.
fn dispatch(uds_service: &mut UdsService, service: u8, data_bytes: &Vec<u8>) -> (planned: Result<
    Command,
    String,
>)
    requires
        old(uds_service).wf(),
    ensures
        final(uds_service).wf(),
        final(uds_service).same_addresses(old(uds_service)),
        final(uds_service).seed() == old(uds_service).seed(),
        final(uds_service).client() == old(uds_service).client(),
        match command_plan(service as int, data_bytes@, old(uds_service).seed()) {
            Plan::Run { kind, payload, awaits_response, did } => {
                &&& planned matches Ok(command)
                &&& command.exchange.kind == kind
                &&& command.exchange.request@ == old(uds_service).frame_of(payload)
                &&& command.exchange.awaits_response == awaits_response
                &&& command.did == did
            },
            Plan::Refuse { message } => planned matches Err(text) && text@ == message,
        },
{
    let second: Option<u8> = if data_bytes.len() > 1 {
        Some(data_bytes[1])
    } else {
        None
    };
    if service == UdsServices::DIAGNOSTIC_SESSION_CONTROL {
        let session: u8 = match second {
            Some(byte) => byte,
            None => 0x01,
        };
        Ok(Command { exchange: uds_service.start_session(session), did: 0 })
    } else if service == UdsServices::ECU_RESET {
        let reset_type: u8 = match second {
            Some(byte) => byte,
            None => 0x01,
        };
        Ok(Command { exchange: uds_service.ecu_reset(reset_type), did: 0 })
    } else if service == UdsServices::CLEAR_DIAGNOSTIC_INFORMATION {
        Ok(Command { exchange: uds_service.clear_diagnostic_information(), did: 0 })
    } else if service == UdsServices::READ_DTC_INFORMATION {
        let sub_func: u8 = match second {
            Some(byte) => byte,
            None => 0x02,
        };
        Ok(Command { exchange: uds_service.read_dtc_information(sub_func), did: 0 })
    } else if service == UdsServices::READ_DATA_BY_IDENTIFIER {
        if data_bytes.len() >= 3 {
            let high: u16 = data_bytes[1] as u16;
            let low: u16 = data_bytes[2] as u16;
            let did: u16 = (high << 8) | low;
            proof {
                lemma_word_of_bytes(high, low);
            }
            assert(seq![0x22u8] + address_bytes(did as int) =~= seq![
                0x22u8,
                data_bytes@[1],
                data_bytes@[2],
            ]);
            Ok(Command { exchange: uds_service.read_data_by_identifier(did), did })
        } else {
            Err("DID参数不足".to_string())
        }
    } else if service == UdsServices::SECURITY_ACCESS {
        if data_bytes.len() >= 2 {
            let level: u8 = data_bytes[1];
            if level % 2 == 1 {
                Ok(Command { exchange: uds_service.security_access_get_seed(level), did: 0 })
            } else {
                match uds_service.security_access_compare_key(level, DEFAULT_SECURITY_CONSTANT) {
                    Ok(exchange) => Ok(Command { exchange, did: 0 }),
                    Err(error) => {
                        let detail = error.message();
                        Err(labelled("安全访问验证失败: ", &detail))
                    },
                }
            }
        } else {
            Err("安全访问级别参数不足".to_string())
        }
    } else if service == UdsServices::COMMUNICATION_CONTROL {
        let comm_type: u8 = match second {
            Some(byte) => byte,
            None => 0x00,
        };
        Ok(Command { exchange: uds_service.communication_control(comm_type), did: 0 })
    } else if service == UdsServices::WRITE_DATA_BY_IDENTIFIER {
        if data_bytes.len() < 3 {
            Err("写入DID参数不足".to_string())
        } else {
            let high: u16 = data_bytes[1] as u16;
            let low: u16 = data_bytes[2] as u16;
            let did: u16 = (high << 8) | low;
            proof {
                lemma_word_of_bytes(high, low);
            }
            let write_data = slice_subrange(data_bytes.as_slice(), 3, data_bytes.len());
            assert(write_data@ =~= data_bytes@.skip(3));
            assert(seq![0x2eu8] + address_bytes(did as int) + write_data@ =~= seq![
                0x2eu8,
                data_bytes@[1],
                data_bytes@[2],
            ] + data_bytes@.skip(3));
            match uds_service.write_data_by_identifier(did, write_data) {
                Ok(exchange) => Ok(Command { exchange, did }),
                Err(error) => {
                    let detail = error.message();
                    Err(labelled("写入DID失败: ", &detail))
                },
            }
        }
    } else if service == UdsServices::TESTER_PRESENT {
        let suppress_resp: bool = data_bytes.len() > 1 && data_bytes[1] == 0x80;
        Ok(Command { exchange: uds_service.tester_present(suppress_resp), did: 0 })
    } else if service == UdsServices::CONTROL_DTC_SETTING {
        let dtc_type: u8 = match second {
            Some(byte) => byte,
            None => 0x02,
        };
        Ok(Command { exchange: uds_service.control_dtc_setting(dtc_type), did: 0 })
    } else {
        let mut message = "不支持的UDS服务: 0x".to_string();
        push_hex_pair(&mut message, service);
        Err(message)
    }
}

impl UdsClientManager {
    /// Accepts or refuses a diagnostic request. `service_id` names the
    /// service in hexadecimal; `data` is the request in hexadecimal text,
    /// its first byte standing for the service itself. An accepted request
    /// comes back as the command for the caller to run.
    pub fn send_uds_command(&mut self, service_id: &str, data: &str, timestamp: String) -> (result:
        Result<Command, DiagnosticResult>)
        requires
            old(self).wf(),
        ensures
            final(self).wf(),
            final(self).config() == old(self).config(),
            final(self).activated() == old(self).activated(),
            final(self).service() is Some == old(self).service() is Some,
            final(self).service() matches Some(after) ==> {
                &&& after.same_addresses(&old(self).service()->0)
                &&& after.seed() == old(self).service()->0.seed()
                &&& after.client() == old(self).service()->0.client()
            },
            result matches Err(envelope) ==> !envelope.success && envelope.data is None
                && envelope.timestamp == timestamp,
            if !old(self).serving() {
                result matches Err(envelope) && envelope.message@ == "未连接到ECU"@
            } else {
                match parse_service_id(service_id@) {
                    None => result matches Err(envelope) && envelope.message@ == "无效的服务ID: "@
                        + service_id@,
                    Some(service) => match parse_hex(data@) {
                        None => result matches Err(envelope) && envelope.message@
                            == "无效的数据格式: "@ + ("Invalid data format: "@ + hex_error_text(
                            data@,
                        )),
                        Some(bytes) => match command_plan(
                            service,
                            bytes,
                            old(self).service()->0.seed(),
                        ) {
                            Plan::Run { kind, payload, awaits_response, did } => {
                                &&& result matches Ok(command)
                                &&& command.exchange.kind == kind
                                &&& command.exchange.request@ == old(self).service()->0.frame_of(
                                    payload,
                                )
                                &&& command.exchange.awaits_response == awaits_response
                                &&& command.did == did
                            },
                            Plan::Refuse { message } => result matches Err(envelope)
                                && envelope.message@ == message,
                        },
                    },
                }
            },
    {
        if !self.is_connected || self.uds_service.is_none() {
            return Err(DiagnosticResult::failure("未连接到ECU".to_string(), timestamp));
        }
        let service: u8 = match parse_service(service_id) {
            Some(service) => service,
            None => {
                let mut message = "无效的服务ID: ".to_string();
                message.append(service_id);
                return Err(DiagnosticResult::failure(message, timestamp));
            },
        };
        let data_bytes = match hex_to_bytes(data) {
            Ok(bytes) => bytes,
            Err(error) => {
                let detail = error.message();
                let message = labelled("无效的数据格式: ", &detail);
                return Err(DiagnosticResult::failure(message, timestamp));
            },
        };
        match self.uds_service.take() {
            Some(uds_service) => {
                let mut uds_service = uds_service;
                let planned = dispatch(&mut uds_service, service, &data_bytes);
                self.uds_service = Some(uds_service);
                match planned {
                    Ok(command) => Ok(command),
                    Err(message) => Err(DiagnosticResult::failure(message, timestamp)),
                }
            },
            None => Err(DiagnosticResult::failure("未连接到ECU".to_string(), timestamp)),
        }
    }
}

impl Default for UdsClientManager {
    fn default() -> (manager: Self)
        ensures
            manager.wf(),
            manager.service() is None,
            !manager.activated(),
            manager.config() is None,
    {
        Self::new()
    }
}

} // verus!
