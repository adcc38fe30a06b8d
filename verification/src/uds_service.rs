//! The diagnostic engine: request frames, response reassembly, and the
//! judgement of each service's answer.
//!
//! A service call is an exchange. The engine builds the request, the caller
//! writes it to the socket and reports the outcome, then reads and reports
//! each chunk until the engine says that the exchange is done.

use vstd::prelude::*;
use crate::doip_client::{receive_result, send_result, DoipClient, ReadOutcome, SendOutcome};
use crate::security_algorithm::{key_by_level, SecurityAccessAlgorithm};
use crate::types::{labelled, DoipError, UdsConfig, UdsError, UdsResponse, UdsResult};
use crate::utils::{
    address_bytes, append_bytes, be_bytes, be_value, bytes_to_ascii_with_escape, bytes_to_int,
    contains_bytes, copy_bytes, ends_with, escaped_text, extract_last_frame, find_bytes,
    has_repeated_marker, hex_to_address_bytes, int_to_bytes, is_continuous_frames,
    is_first_occurrence_from, is_last_occurrence, last_frame, lemma_int_bytes_roundtrip,
    lemma_last_occurrence_unique, lemma_word_bytes, occurs_at, parse_address, starts_with,
};

verus! {

/// Header of a diagnostic message: protocol version, its inverse, and the
/// payload type 0x8001.
pub open spec fn doip_header() -> Seq<u8> {
    seq![0x02u8, 0xfd, 0x80, 0x01]
}

/// The routing activation request, as it goes on the wire.
pub open spec fn routing_request() -> Seq<u8> {
    seq![
        0x02u8, 0xfd, 0x00, 0x05, 0x00, 0x00, 0x00, 0x0b, 0x0e, 0x80, 0x00, 0x00, 0x00, 0x00,
        0x00, 0xff, 0xff, 0xff, 0xff,
    ]
}

/// What a response that grants the routing activation begins with.
pub open spec fn routing_grant(client: Seq<u8>, server: Seq<u8>) -> Seq<u8> {
    seq![0x02u8, 0xfd, 0x00, 0x06, 0x00, 0x00, 0x00, 0x09] + client + server + seq![
        0x10u8, 0x00, 0x00, 0x00, 0x00,
    ]
}

/// A diagnostic message: header, length of what follows it, source
/// address, target address, and the request itself.
pub open spec fn frame(client: Seq<u8>, server: Seq<u8>, payload: Seq<u8>) -> Seq<u8> {
    doip_header() + be_bytes((payload.len() + 4) as u32) + client + server + payload
}

/// `bytes` are laid out as a frame for `payload`: twelve bytes before it,
/// of which the first four are the header, the next four the big-endian
/// length of what follows them, then the client's address and the server's;
/// and after them the payload, unchanged.
pub open spec fn has_frame_layout(
    bytes: Seq<u8>,
    client: Seq<u8>,
    server: Seq<u8>,
    payload: Seq<u8>,
) -> bool {
    &&& bytes.len() == 12 + payload.len()
    &&& bytes.subrange(0, 4) == doip_header()
    &&& bytes.subrange(4, 8) == be_bytes((payload.len() + 4) as u32)
    &&& be_value(bytes.subrange(4, 8)) == payload.len() + 4
    &&& bytes.subrange(8, 10) == client
    &&& bytes.subrange(10, 12) == server
    &&& bytes.subrange(12, 12 + payload.len() as int) == payload
}

/// The negative response that announces a later answer to `service`.
pub open spec fn pending_reply(service: Seq<u8>) -> Seq<u8> {
    seq![0x7fu8] + service + seq![0x78u8]
}

/// The negative response that asks to repeat the request to `service`.
pub open spec fn busy_reply(service: Seq<u8>) -> Seq<u8> {
    seq![0x7fu8] + service + seq![0x21u8]
}

/// What an acknowledgement frame ends with.
pub open spec fn ack_suffix(server: Seq<u8>, client: Seq<u8>) -> Seq<u8> {
    server + client + seq![0x00u8]
}

/// What one chunk of the byte stream means for a request to `service`:
/// `Some` with the response where the chunk completes the exchange, `None`
/// where more must be read. A chunk that holds the header twice or more
/// completes it with its last frame. Otherwise a chunk that holds a pending
/// or busy reply, ends like an acknowledgement or is empty does not count.
pub open spec fn chunk_verdict(
    service: Seq<u8>,
    server: Seq<u8>,
    client: Seq<u8>,
    data: Seq<u8>,
) -> Option<Seq<u8>> {
    if has_repeated_marker(data, doip_header()) {
        last_frame(data, doip_header())
    } else if contains_bytes(data, pending_reply(service)) {
        None
    } else if contains_bytes(data, busy_reply(service)) {
        None
    } else if occurs_at(
        data,
        ack_suffix(server, client),
        data.len() - ack_suffix(server, client).len(),
    ) {
        None
    } else if data.len() > 0 {
        Some(data)
    } else {
        None
    }
}

/// The services of the engine.
#[derive(Debug, Clone, Copy, PartialEq, Eq)]
pub enum ServiceKind {
    RoutingActivation,
    StartSession,
    ControlDtcSetting,
    CommunicationControl,
    ReadDataByIdentifier,
    WriteDataByIdentifier,
    SecurityAccessSeed,
    SecurityAccessKey,
    EcuReset,
    ReadDtcInformation,
    ClearDiagnosticInformation,
    TesterPresent,
}

impl ServiceKind {
    /// The service identifier, by which pending and busy replies are told.
    /// The routing activation, which is no diagnostic service, has none and
    /// goes by zero.
    pub open spec fn sid_spec(self) -> u8 {
        match self {
            ServiceKind::RoutingActivation => 0x00,
            ServiceKind::StartSession => 0x10,
            ServiceKind::ControlDtcSetting => 0x85,
            ServiceKind::CommunicationControl => 0x28,
            ServiceKind::ReadDataByIdentifier => 0x22,
            ServiceKind::WriteDataByIdentifier => 0x2e,
            ServiceKind::SecurityAccessSeed => 0x27,
            ServiceKind::SecurityAccessKey => 0x27,
            ServiceKind::EcuReset => 0x11,
            ServiceKind::ReadDtcInformation => 0x19,
            ServiceKind::ClearDiagnosticInformation => 0x14,
            ServiceKind::TesterPresent => 0x3e,
        }
    }

    /// The byte that marks a positive response: the identifier plus 0x40.
    pub open spec fn positive_marker(self) -> u8 {
        (self.sid_spec() + 0x40) as u8
    }

    /// The response is handed to the caller with the success.
    pub open spec fn carries_data(self) -> bool {
        self is ReadDataByIdentifier || self is WriteDataByIdentifier || self is ReadDtcInformation
    }

    /// The text of the error that a denial of the service gives.
    pub open spec fn denial_text(self) -> Seq<char> {
        match self {
            ServiceKind::RoutingActivation => "Routine active denied"@,
            ServiceKind::StartSession => "Start session denied"@,
            ServiceKind::ControlDtcSetting => "Control DTC setting denied"@,
            ServiceKind::CommunicationControl => "Communication control denied"@,
            ServiceKind::ReadDataByIdentifier => "Read data identifier denied"@,
            ServiceKind::WriteDataByIdentifier => "Write data identifier denied"@,
            ServiceKind::SecurityAccessSeed => "Security access denied"@,
            ServiceKind::SecurityAccessKey => "Security access denied"@,
            ServiceKind::EcuReset => "ECU Reset denied"@,
            ServiceKind::ReadDtcInformation => "Read DTC information denied"@,
            ServiceKind::ClearDiagnosticInformation => "Clear diagnostic information denied"@,
            ServiceKind::TesterPresent => "Tester present denied"@,
        }
    }

    /// The service identifier.
    #[verifier::when_used_as_spec(sid_spec)]
    pub fn sid(self) -> (sid: u8)
        ensures
            sid == self.sid_spec(),
    {
        match self {
            ServiceKind::RoutingActivation => 0x00,
            ServiceKind::StartSession => 0x10,
            ServiceKind::ControlDtcSetting => 0x85,
            ServiceKind::CommunicationControl => 0x28,
            ServiceKind::ReadDataByIdentifier => 0x22,
            ServiceKind::WriteDataByIdentifier => 0x2e,
            ServiceKind::SecurityAccessSeed => 0x27,
            ServiceKind::SecurityAccessKey => 0x27,
            ServiceKind::EcuReset => 0x11,
            ServiceKind::ReadDtcInformation => 0x19,
            ServiceKind::ClearDiagnosticInformation => 0x14,
            ServiceKind::TesterPresent => 0x3e,
        }
    }
}

/// One request on its way: what is sent, and what is to be made of the
/// answer.
#[derive(Debug, Clone, PartialEq, Eq)]
pub struct Exchange {
    pub kind: ServiceKind,
    /// The bytes to write to the socket.
    pub request: Vec<u8>,
    /// Whether an answer is read at all. Where it is not, the exchange is a
    /// success as soon as the request is written.
    pub awaits_response: bool,
}

/// What the caller does next in an exchange.
#[derive(Debug, PartialEq, Eq)]
pub enum Progress {
    /// Read once more and report what came.
    Receive,
    /// The exchange is over, with this result.
    Done(UdsResult<UdsResponse>),
}

/// The response grants what the service asked for.
pub open spec fn is_granted(
    kind: ServiceKind,
    client: Seq<u8>,
    server: Seq<u8>,
    response: Seq<u8>,
) -> bool {
    if kind is RoutingActivation {
        occurs_at(response, routing_grant(client, server), 0)
    } else {
        contains_bytes(response, seq![kind.positive_marker()])
    }
}

/// The seed that the engine holds once `response` has been judged: the last
/// four bytes of a granted seed request, else the seed it held before.
pub open spec fn seed_after(
    kind: ServiceKind,
    client: Seq<u8>,
    server: Seq<u8>,
    before: Seq<u8>,
    response: Seq<u8>,
) -> Seq<u8> {
    if kind is SecurityAccessSeed && is_granted(kind, client, server, response) && response.len()
        >= 4 {
        response.subrange(response.len() - 4, response.len() as int)
    } else {
        before
    }
}

/// `error` is the error that a denial of `kind` gives.
pub open spec fn is_denial(kind: ServiceKind, error: UdsError) -> bool {
    match kind {
        ServiceKind::RoutingActivation => error is RoutingActivationDenied,
        ServiceKind::SecurityAccessSeed => error is SecurityAccessDenied,
        ServiceKind::SecurityAccessKey => error is SecurityAccessDenied,
        _ => error matches UdsError::RequestDenied(text) && text@ == kind.denial_text(),
    }
}

/// `result` is the judgement of `response` as the answer to `kind`.
pub open spec fn is_judgement(
    kind: ServiceKind,
    client: Seq<u8>,
    server: Seq<u8>,
    response: Seq<u8>,
    result: UdsResult<UdsResponse>,
) -> bool {
    if is_granted(kind, client, server, response) {
        &&& result matches Ok(answer)
        &&& answer.success
        &&& answer.error is None
        &&& if kind.carries_data() {
            answer.data matches Some(bytes) && bytes@ == response
        } else {
            answer.data is None
        }
    } else {
        result matches Err(error) && is_denial(kind, error)
    }
}

/// `result` is the plain success of an exchange that reads no answer.
pub open spec fn is_unanswered_success(result: UdsResult<UdsResponse>) -> bool {
    &&& result matches Ok(answer)
    &&& answer.success
    &&& answer.data is None
    &&& answer.error is None
}

/// The message with which an engine refuses addresses of which one is
/// unsound: it names the server's, where that is unsound, else the
/// client's.
pub open spec fn address_error_text(server: Seq<char>, tester: Seq<char>) -> Seq<char> {
    if parse_address(server) is None {
        "Invalid server address: "@ + ("Invalid data format: "@ + ("Invalid hex address: "@
            + server))
    } else {
        "Invalid client address: "@ + ("Invalid data format: "@ + ("Invalid hex address: "@
            + tester))
    }
}

/// The diagnostic engine of one session. It owns the connection's state and
/// the seed of the security access.
pub struct UdsService {
    client: DoipClient,
    security_algorithm: SecurityAccessAlgorithm,
    security_access_seed: Vec<u8>,
    server_address: Vec<u8>,
    client_address: Vec<u8>,
    doip_head_bytes: Vec<u8>,
    doip_address_bytes: Vec<u8>,
    reverse_doip_address_bytes: Vec<u8>,
}

impl UdsService {
    /// The logical address of the ECU, two bytes.
    pub closed spec fn server_address(&self) -> Seq<u8> {
        self.server_address@
    }

    /// The logical address of the tester, two bytes.
    pub closed spec fn client_address(&self) -> Seq<u8> {
        self.client_address@
    }

    /// The seed that the ECU gave last: four bytes, or none.
    pub closed spec fn seed(&self) -> Seq<u8> {
        self.security_access_seed@
    }

    /// The state of the connection.
    pub closed spec fn client(&self) -> DoipClient {
        self.client
    }

    /// The connection is up.
    pub open spec fn connected(&self) -> bool {
        self.client().connected()
    }

    /// The byte strings that the engine keeps ready agree with the
    /// addresses.
    pub closed spec fn prepared(&self) -> bool {
        &&& self.security_algorithm.wf()
        &&& self.doip_head_bytes@ == doip_header()
        &&& self.doip_address_bytes@ == self.client_address@ + self.server_address@
        &&& self.reverse_doip_address_bytes@ == self.server_address@ + self.client_address@
    }

    /// The engine's invariant.
    pub open spec fn wf(&self) -> bool {
        &&& self.server_address().len() == 2
        &&& self.client_address().len() == 2
        &&& (self.seed().len() == 0 || self.seed().len() == 4)
        &&& self.prepared()
    }

    /// Both engines speak for the same two addresses.
    pub open spec fn same_addresses(&self, other: &Self) -> bool {
        &&& self.server_address() == other.server_address()
        &&& self.client_address() == other.client_address()
    }

    /// The frame that carries `payload` from this engine's client to its
    /// server.
    pub open spec fn frame_of(&self, payload: Seq<u8>) -> Seq<u8> {
        frame(self.client_address(), self.server_address(), payload)
    }

    /// An engine on `client` for the addresses that `config` names. Each
    /// address is one to four hexadecimal digits.
    pub fn new(client: DoipClient, config: UdsConfig) -> (result: UdsResult<Self>)
        ensures
            match (
                parse_address(config.vehicle_info.server_address@),
                parse_address(config.vehicle_info.client_address@),
            ) {
                (Some(server), Some(tester)) => {
                    &&& result matches Ok(service)
                    &&& service.wf()
                    &&& service.server_address() == address_bytes(server)
                    &&& service.client_address() == address_bytes(tester)
                    &&& service.seed().len() == 0
                    &&& service.client() == client
                },
                _ => result matches Err(UdsError::InvalidParameter(text)) && text@
                    == address_error_text(
                    config.vehicle_info.server_address@,
                    config.vehicle_info.client_address@,
                ),
            },
    {
        let security_algorithm = SecurityAccessAlgorithm::new();
        let server_address = match hex_to_address_bytes(config.vehicle_info.server_address.as_str()) {
            Ok(bytes) => bytes,
            Err(error) => {
                let detail = error.message();
                return Err(
                    UdsError::InvalidParameter(labelled("Invalid server address: ", &detail)),
                );
            },
        };
        let client_address = match hex_to_address_bytes(config.vehicle_info.client_address.as_str()) {
            Ok(bytes) => bytes,
            Err(error) => {
                let detail = error.message();
                return Err(
                    UdsError::InvalidParameter(labelled("Invalid client address: ", &detail)),
                );
            },
        };
        let mut doip_head_bytes: Vec<u8> = Vec::with_capacity(4);
        doip_head_bytes.push(0x02);
        doip_head_bytes.push(0xfd);
        doip_head_bytes.push(0x80);
        doip_head_bytes.push(0x01);
        assert(doip_head_bytes@ =~= doip_header());
        let mut doip_address_bytes: Vec<u8> = Vec::new();
        append_bytes(&mut doip_address_bytes, client_address.as_slice());
        append_bytes(&mut doip_address_bytes, server_address.as_slice());
        assert(doip_address_bytes@ =~= client_address@ + server_address@);
        let mut reverse_doip_address_bytes: Vec<u8> = Vec::new();
        append_bytes(&mut reverse_doip_address_bytes, server_address.as_slice());
        append_bytes(&mut reverse_doip_address_bytes, client_address.as_slice());
        assert(reverse_doip_address_bytes@ =~= server_address@ + client_address@);
        Ok(
            Self {
                client,
                security_algorithm,
                security_access_seed: Vec::new(),
                server_address,
                client_address,
                doip_head_bytes,
                doip_address_bytes,
                reverse_doip_address_bytes,
            },
        )
    }

    /// Tells whether the connection is up.
    pub fn is_connected(&self) -> (yes: bool)
        ensures
            yes == self.connected(),
    {
        self.client.is_socket_connected()
    }

    /// The state of the connection, for the caller to read the endpoint and
    /// the timeout from.
    pub fn get_client(&self) -> (client: &DoipClient)
        ensures
            *client == self.client(),
    {
        &self.client
    }

    /// Tells whether the engine holds a seed.
    pub fn has_seed(&self) -> (yes: bool)
        ensures
            yes == (self.seed().len() > 0),
    {
        self.security_access_seed.len() > 0
    }

    /// Frames a request: header, big-endian length of the rest, client
    /// address, server address, and the request.
    pub fn build_frame(&self, uds_payload: &[u8]) -> (bytes: Vec<u8>)
        requires
            self.wf(),
            uds_payload@.len() + 4 <= u32::MAX,
        ensures
            bytes@ == self.frame_of(uds_payload@),
            has_frame_layout(
                bytes@,
                self.client_address(),
                self.server_address(),
                uds_payload@,
            ),
    {
        proof {
            lemma_frame_layout(self.client_address(), self.server_address(), uds_payload@);
        }
        let length: u32 = (uds_payload.len() + 4) as u32;
        let request_length_bytes = int_to_bytes(length);
        let mut bytes: Vec<u8> = Vec::new();
        append_bytes(&mut bytes, self.doip_head_bytes.as_slice());
        append_bytes(&mut bytes, request_length_bytes.as_slice());
        append_bytes(&mut bytes, self.doip_address_bytes.as_slice());
        append_bytes(&mut bytes, uds_payload);
        assert(bytes@ =~= self.frame_of(uds_payload@));
        bytes
    }

    /// An exchange of `kind` whose request is the frame of `payload`.
    fn exchange(&self, kind: ServiceKind, payload: Vec<u8>, awaits_response: bool) -> (exchange:
        Exchange)
        requires
            self.wf(),
            payload@.len() + 4 <= u32::MAX,
        ensures
            exchange.kind == kind,
            exchange.request@ == self.frame_of(payload@),
            has_frame_layout(
                exchange.request@,
                self.client_address(),
                self.server_address(),
                payload@,
            ),
            exchange.awaits_response == awaits_response,
    {
        Exchange { kind, request: self.build_frame(payload.as_slice()), awaits_response }
    }

    /// The routing activation, which must be granted before any diagnostic
    /// service. Its request is the same for every client.
    pub fn routine_active(&self) -> (exchange: Exchange)
        ensures
            exchange.kind == ServiceKind::RoutingActivation,
            exchange.request@ == routing_request(),
            exchange.awaits_response,
    {
        let mut request: Vec<u8> = Vec::with_capacity(19);
        request.push(0x02);
        request.push(0xfd);
        request.push(0x00);
        request.push(0x05);
        request.push(0x00);
        request.push(0x00);
        request.push(0x00);
        request.push(0x0b);
        request.push(0x0e);
        request.push(0x80);
        request.push(0x00);
        request.push(0x00);
        request.push(0x00);
        request.push(0x00);
        request.push(0x00);
        request.push(0xff);
        request.push(0xff);
        request.push(0xff);
        request.push(0xff);
        assert(request@ =~= routing_request());
        Exchange { kind: ServiceKind::RoutingActivation, request, awaits_response: true }
    }

    /// Diagnostic session control. A session above 0x03 is not answered.
    pub fn start_session(&self, session: u8) -> (exchange: Exchange)
        requires
            self.wf(),
        ensures
            exchange.kind == ServiceKind::StartSession,
            exchange.request@ == self.frame_of(seq![0x10u8, session]),
            exchange.awaits_response == (session <= 0x03),
    {
        let mut payload: Vec<u8> = Vec::with_capacity(2);
        payload.push(0x10);
        payload.push(session);
        assert(payload@ =~= seq![0x10u8, session]);
        self.exchange(ServiceKind::StartSession, payload, session <= 0x03)
    }

    /// Control of the recording of trouble codes.
    pub fn control_dtc_setting(&self, dtc_type: u8) -> (exchange: Exchange)
        requires
            self.wf(),
        ensures
            exchange.kind == ServiceKind::ControlDtcSetting,
            exchange.request@ == self.frame_of(seq![0x85u8, dtc_type]),
            exchange.awaits_response,
    {
        let mut payload: Vec<u8> = Vec::with_capacity(2);
        payload.push(0x85);
        payload.push(dtc_type);
        assert(payload@ =~= seq![0x85u8, dtc_type]);
        self.exchange(ServiceKind::ControlDtcSetting, payload, true)
    }

    /// Communication control. A control type above 0x80 is not answered.
    pub fn communication_control(&self, comm_type: u8) -> (exchange: Exchange)
        requires
            self.wf(),
        ensures
            exchange.kind == ServiceKind::CommunicationControl,
            exchange.request@ == self.frame_of(seq![0x28u8, comm_type, 0x03]),
            exchange.awaits_response == (comm_type <= 0x80),
    {
        let mut payload: Vec<u8> = Vec::with_capacity(3);
        payload.push(0x28);
        payload.push(comm_type);
        payload.push(0x03);
        assert(payload@ =~= seq![0x28u8, comm_type, 0x03]);
        self.exchange(ServiceKind::CommunicationControl, payload, comm_type <= 0x80)
    }

    /// Reads the data that `did` names.
    pub fn read_data_by_identifier(&self, did: u16) -> (exchange: Exchange)
        requires
            self.wf(),
        ensures
            exchange.kind == ServiceKind::ReadDataByIdentifier,
            exchange.request@ == self.frame_of(seq![0x22u8] + address_bytes(did as int)),
            exchange.awaits_response,
    {
        proof {
            lemma_word_bytes(did);
        }
        let mut payload: Vec<u8> = Vec::with_capacity(3);
        payload.push(0x22);
        payload.push((did >> 8) as u8);
        payload.push((did & 0xff) as u8);
        assert(payload@ =~= seq![0x22u8] + address_bytes(did as int));
        self.exchange(ServiceKind::ReadDataByIdentifier, payload, true)
    }

    /// Writes `data` to what `did` names. The length field of a frame has
    /// four bytes: data that it cannot count is refused.
    pub fn write_data_by_identifier(&self, did: u16, data: &[u8]) -> (result: UdsResult<Exchange>)
        requires
            self.wf(),
        ensures
            if data@.len() + 7 <= u32::MAX {
                &&& result matches Ok(exchange)
                &&& exchange.kind == ServiceKind::WriteDataByIdentifier
                &&& exchange.request@ == self.frame_of(
                    seq![0x2eu8] + address_bytes(did as int) + data@,
                )
                &&& has_frame_layout(
                    exchange.request@,
                    self.client_address(),
                    self.server_address(),
                    seq![0x2eu8] + address_bytes(did as int) + data@,
                )
                &&& exchange.awaits_response
            } else {
                result matches Err(UdsError::InvalidParameter(text)) && text@ == "Data too long"@
            },
    {
        if data.len() > 0xffff_fff8 {
            return Err(UdsError::InvalidParameter("Data too long".to_string()));
        }
        proof {
            lemma_word_bytes(did);
        }
        let mut payload: Vec<u8> = Vec::new();
        payload.push(0x2E);
        payload.push((did >> 8) as u8);
        payload.push((did & 0xff) as u8);
        append_bytes(&mut payload, data);
        assert(payload@ =~= seq![0x2eu8] + address_bytes(did as int) + data@);
        Ok(self.exchange(ServiceKind::WriteDataByIdentifier, payload, true))
    }

    /// Asks for the seed of a security level. The level is the odd
    /// sub-function.
    pub fn security_access_get_seed(&self, level: u8) -> (exchange: Exchange)
        requires
            self.wf(),
        ensures
            exchange.kind == ServiceKind::SecurityAccessSeed,
            exchange.request@ == self.frame_of(seq![0x27u8, level]),
            exchange.awaits_response,
    {
        let mut payload: Vec<u8> = Vec::with_capacity(2);
        payload.push(0x27);
        payload.push(level);
        assert(payload@ =~= seq![0x27u8, level]);
        self.exchange(ServiceKind::SecurityAccessSeed, payload, true)
    }

    /// Sends the key for the seed that the engine holds. The level is the
    /// even sub-function and names the variant of the computation; `key` is
    /// the caller's constant. Without a seed the parameter is invalid; a
    /// level that names no variant is unsupported. Either way no request is
    /// made and the seed stays as it is.
    pub fn security_access_compare_key(&mut self, level: u8, key: u32) -> (result: UdsResult<
        Exchange,
    >)
        requires
            old(self).wf(),
        ensures
            final(self).wf(),
            final(self).same_addresses(old(self)),
            final(self).seed() == old(self).seed(),
            final(self).client() == old(self).client(),
            if old(self).seed().len() == 0 {
                result matches Err(UdsError::InvalidParameter(text)) && text@
                    == "No seed available"@
            } else {
                match key_by_level(level, be_value(old(self).seed()) as u32, key) {
                    Some(token) => {
                        &&& result matches Ok(exchange)
                        &&& exchange.kind == ServiceKind::SecurityAccessKey
                        &&& exchange.request@ == old(self).frame_of(
                            seq![0x27u8, level] + be_bytes(token),
                        )
                        &&& exchange.awaits_response
                    },
                    None => result == Err::<Exchange, UdsError>(
                        UdsError::DoipError(DoipError::UnsupportedLevel(level)),
                    ),
                }
            },
    {
        if self.security_access_seed.len() == 0 {
            return Err(UdsError::InvalidParameter("No seed available".to_string()));
        }
        let seed_value: u32 = match bytes_to_int(self.security_access_seed.as_slice()) {
            Ok(value) => value,
            Err(error) => {
                let detail = error.message();
                return Err(UdsError::InvalidParameter(labelled("Invalid seed: ", &detail)));
            },
        };
        let token: u32 = match self.security_algorithm.compute_key_by_level(level, seed_value, key) {
            Ok(token) => token,
            Err(error) => {
                return Err(UdsError::DoipError(error));
            },
        };
        let token_bytes = int_to_bytes(token);
        let mut payload: Vec<u8> = Vec::with_capacity(6);
        payload.push(0x27);
        payload.push(level);
        append_bytes(&mut payload, token_bytes.as_slice());
        assert(payload@ =~= seq![0x27u8, level] + be_bytes(token));
        Ok(self.exchange(ServiceKind::SecurityAccessKey, payload, true))
    }

    /// Resets the ECU.
    pub fn ecu_reset(&self, reset_type: u8) -> (exchange: Exchange)
        requires
            self.wf(),
        ensures
            exchange.kind == ServiceKind::EcuReset,
            exchange.request@ == self.frame_of(seq![0x11u8, reset_type]),
            exchange.awaits_response,
    {
        let mut payload: Vec<u8> = Vec::with_capacity(2);
        payload.push(0x11);
        payload.push(reset_type);
        assert(payload@ =~= seq![0x11u8, reset_type]);
        self.exchange(ServiceKind::EcuReset, payload, true)
    }

    /// Reads trouble code information.
    pub fn read_dtc_information(&self, sub_function: u8) -> (exchange: Exchange)
        requires
            self.wf(),
        ensures
            exchange.kind == ServiceKind::ReadDtcInformation,
            exchange.request@ == self.frame_of(seq![0x19u8, sub_function, 0xaf]),
            exchange.awaits_response,
    {
        let mut payload: Vec<u8> = Vec::with_capacity(3);
        payload.push(0x19);
        payload.push(sub_function);
        payload.push(0xAF);
        assert(payload@ =~= seq![0x19u8, sub_function, 0xaf]);
        self.exchange(ServiceKind::ReadDtcInformation, payload, true)
    }

    /// Clears all trouble codes.
    pub fn clear_diagnostic_information(&self) -> (exchange: Exchange)
        requires
            self.wf(),
        ensures
            exchange.kind == ServiceKind::ClearDiagnosticInformation,
            exchange.request@ == self.frame_of(seq![0x14u8, 0xff, 0xff, 0xff]),
            exchange.awaits_response,
    {
        let mut payload: Vec<u8> = Vec::with_capacity(4);
        payload.push(0x14);
        payload.push(0xFF);
        payload.push(0xFF);
        payload.push(0xFF);
        assert(payload@ =~= seq![0x14u8, 0xff, 0xff, 0xff]);
        self.exchange(ServiceKind::ClearDiagnosticInformation, payload, true)
    }

    /// Tells the ECU that the tester is present. With `suppress_response`
    /// the request is not answered.
    pub fn tester_present(&self, suppress_response: bool) -> (exchange: Exchange)
        requires
            self.wf(),
        ensures
            exchange.kind == ServiceKind::TesterPresent,
            exchange.request@ == self.frame_of(
                seq![
                    0x3eu8,
                    if suppress_response {
                        0x80u8
                    } else {
                        0x00u8
                    },
                ],
            ),
            exchange.awaits_response == !suppress_response,
    {
        let sub_function: u8 = if suppress_response {
            0x80
        } else {
            0x00
        };
        let mut payload: Vec<u8> = Vec::with_capacity(2);
        payload.push(0x3E);
        payload.push(sub_function);
        assert(payload@ =~= seq![0x3eu8, sub_function]);
        self.exchange(ServiceKind::TesterPresent, payload, !suppress_response)
    }
}

/// The bytes `first`, then `middle`, then `last`.
fn bracketed(first: u8, middle: &[u8], last: u8) -> (bytes: Vec<u8>)
    ensures
        bytes@ == seq![first] + middle@ + seq![last],
{
    let mut bytes: Vec<u8> = Vec::new();
    bytes.push(first);
    append_bytes(&mut bytes, middle);
    bytes.push(last);
    assert(bytes@ =~= seq![first] + middle@ + seq![last]);
    bytes
}

/// Where a marker stands twice, it stands at a last place.
proof fn lemma_repeated_marker_is_contained(data: Seq<u8>, marker: Seq<u8>)
    requires
        has_repeated_marker(data, marker),
    ensures
        contains_bytes(data, marker),
{
    let (first, second) = choose|first: int, second: int|
        first < second && occurs_at(data, marker, first) && occurs_at(data, marker, second);
    assert(occurs_at(data, marker, first));
}

impl UdsService {
    /// Judges one chunk of the byte stream while an answer to `service` is
    /// awaited: the response, where the chunk completes the exchange, or
    /// `None` where the caller must read on.
    pub fn doip_receive_handle(&self, service: &[u8], data: Vec<u8>) -> (response: Option<Vec<u8>>)
        requires
            self.wf(),
        ensures
            match response {
                Some(bytes) => chunk_verdict(
                    service@,
                    self.server_address(),
                    self.client_address(),
                    data@,
                ) == Some(bytes@),
                None => chunk_verdict(
                    service@,
                    self.server_address(),
                    self.client_address(),
                    data@,
                ) is None,
            },
    {
        if is_continuous_frames(data.as_slice(), self.doip_head_bytes.as_slice()) {
            proof {
                lemma_repeated_marker_is_contained(data@, doip_header());
            }
            return extract_last_frame(data.as_slice(), self.doip_head_bytes.as_slice());
        }
        let target78 = bracketed(0x7f, service, 0x78);
        if find_bytes(data.as_slice(), target78.as_slice()).is_some() {
            return None;
        }
        let target21 = bracketed(0x7f, service, 0x21);
        if find_bytes(data.as_slice(), target21.as_slice()).is_some() {
            return None;
        }
        let mut address_target = copy_bytes(self.reverse_doip_address_bytes.as_slice());
        address_target.push(0x00);
        assert(address_target@ =~= ack_suffix(self.server_address(), self.client_address()));
        if ends_with(data.as_slice(), address_target.as_slice()) {
            return None;
        }
        if data.len() > 0 {
            Some(data)
        } else {
            None
        }
    }

    /// Judges the response to a request of `kind`. A granted seed request
    /// leaves the last four bytes of the response as the engine's seed.
    pub fn judge(&mut self, kind: ServiceKind, response: Vec<u8>) -> (result: UdsResult<
        UdsResponse,
    >)
        requires
            old(self).wf(),
        ensures
            final(self).wf(),
            final(self).same_addresses(old(self)),
            final(self).client() == old(self).client(),
            final(self).seed() == seed_after(
                kind,
                old(self).client_address(),
                old(self).server_address(),
                old(self).seed(),
                response@,
            ),
            is_judgement(
                kind,
                old(self).client_address(),
                old(self).server_address(),
                response@,
                result,
            ),
    {
        let granted: bool = match kind {
            ServiceKind::RoutingActivation => {
                let mut expected_start: Vec<u8> = Vec::new();
                expected_start.push(0x02);
                expected_start.push(0xfd);
                expected_start.push(0x00);
                expected_start.push(0x06);
                expected_start.push(0x00);
                expected_start.push(0x00);
                expected_start.push(0x00);
                expected_start.push(0x09);
                append_bytes(&mut expected_start, self.doip_address_bytes.as_slice());
                expected_start.push(0x10);
                expected_start.push(0x00);
                expected_start.push(0x00);
                expected_start.push(0x00);
                expected_start.push(0x00);
                assert(expected_start@ =~= routing_grant(
                    self.client_address(),
                    self.server_address(),
                ));
                starts_with(response.as_slice(), expected_start.as_slice())
            },
            _ => {
                let mut marker: Vec<u8> = Vec::with_capacity(1);
                marker.push(kind.sid() + 0x40);
                assert(marker@ =~= seq![kind.positive_marker()]);
                find_bytes(response.as_slice(), marker.as_slice()).is_some()
            },
        };
        if !granted {
            return Err(
                match kind {
                    ServiceKind::RoutingActivation => UdsError::RoutingActivationDenied,
                    ServiceKind::SecurityAccessSeed => UdsError::SecurityAccessDenied,
                    ServiceKind::SecurityAccessKey => UdsError::SecurityAccessDenied,
                    ServiceKind::StartSession => UdsError::RequestDenied(
                        "Start session denied".to_string(),
                    ),
                    ServiceKind::ControlDtcSetting => UdsError::RequestDenied(
                        "Control DTC setting denied".to_string(),
                    ),
                    ServiceKind::CommunicationControl => UdsError::RequestDenied(
                        "Communication control denied".to_string(),
                    ),
                    ServiceKind::ReadDataByIdentifier => UdsError::RequestDenied(
                        "Read data identifier denied".to_string(),
                    ),
                    ServiceKind::WriteDataByIdentifier => UdsError::RequestDenied(
                        "Write data identifier denied".to_string(),
                    ),
                    ServiceKind::EcuReset => UdsError::RequestDenied("ECU Reset denied".to_string()),
                    ServiceKind::ReadDtcInformation => UdsError::RequestDenied(
                        "Read DTC information denied".to_string(),
                    ),
                    ServiceKind::ClearDiagnosticInformation => UdsError::RequestDenied(
                        "Clear diagnostic information denied".to_string(),
                    ),
                    ServiceKind::TesterPresent => UdsError::RequestDenied(
                        "Tester present denied".to_string(),
                    ),
                },
            );
        }
        match kind {
            ServiceKind::SecurityAccessSeed => {
                if response.len() >= 4 {
                    let start: usize = response.len() - 4;
                    let mut seed: Vec<u8> = Vec::with_capacity(4);
                    seed.push(response[start]);
                    seed.push(response[start + 1]);
                    seed.push(response[start + 2]);
                    seed.push(response[start + 3]);
                    assert(seed@ =~= response@.subrange(
                        response@.len() - 4,
                        response@.len() as int,
                    ));
                    self.security_access_seed = seed;
                }
                Ok(UdsResponse { success: true, data: None, error: None })
            },
            ServiceKind::ReadDataByIdentifier => Ok(
                UdsResponse { success: true, data: Some(response), error: None },
            ),
            ServiceKind::WriteDataByIdentifier => Ok(
                UdsResponse { success: true, data: Some(response), error: None },
            ),
            ServiceKind::ReadDtcInformation => Ok(
                UdsResponse { success: true, data: Some(response), error: None },
            ),
            _ => Ok(UdsResponse { success: true, data: None, error: None }),
        }
    }

    /// Gives the connection up after a transport error: the connection is
    /// down and the seed is gone.
    fn drop_session(&mut self)
        requires
            old(self).wf(),
        ensures
            final(self).wf(),
            final(self).same_addresses(old(self)),
            !final(self).connected(),
            final(self).seed().len() == 0,
    {
        let _ = self.client.disconnect();
        self.security_access_seed = Vec::new();
    }

    /// Takes in what came of writing the request of `exchange`. A failure
    /// ends the exchange and the session. After a write, an exchange that
    /// reads no answer is done with a success, and any other goes on to
    /// read.
    pub fn sent(&mut self, exchange: &Exchange, outcome: SendOutcome) -> (progress: Progress)
        requires
            old(self).wf(),
        ensures
            final(self).wf(),
            final(self).same_addresses(old(self)),
            match send_result(old(self).connected(), outcome) {
                Err(error) => {
                    &&& progress == Progress::Done(Err(UdsError::DoipError(error)))
                    &&& !final(self).connected()
                    &&& final(self).seed().len() == 0
                },
                Ok(_) => {
                    &&& final(self).connected()
                    &&& final(self).seed() == old(self).seed()
                    &&& if exchange.awaits_response {
                        progress is Receive
                    } else {
                        progress matches Progress::Done(result) && is_unanswered_success(result)
                    }
                },
            },
    {
        match self.client.send(outcome) {
            Err(error) => {
                self.drop_session();
                Progress::Done(Err(UdsError::DoipError(error)))
            },
            Ok(_) => {
                if exchange.awaits_response {
                    Progress::Receive
                } else {
                    Progress::Done(Ok(UdsResponse { success: true, data: None, error: None }))
                }
            },
        }
    }

    /// Takes in what came of one read while the answer of `exchange` is
    /// awaited. A failure of the read, the peer's closing among them, ends
    /// the exchange and the session. A chunk that completes the exchange is
    /// judged; after any other the caller reads again.
    pub fn received(&mut self, exchange: &Exchange, outcome: ReadOutcome) -> (progress: Progress)
        requires
            old(self).wf(),
        ensures
            final(self).wf(),
            final(self).same_addresses(old(self)),
            match receive_result(old(self).connected(), outcome) {
                Err(error) => {
                    &&& progress == Progress::Done(Err(UdsError::DoipError(error)))
                    &&& !final(self).connected()
                    &&& final(self).seed().len() == 0
                },
                Ok(data) => {
                    &&& final(self).connected()
                    &&& match chunk_verdict(
                        seq![exchange.kind.sid_spec()],
                        old(self).server_address(),
                        old(self).client_address(),
                        data@,
                    ) {
                        None => progress is Receive && final(self).seed() == old(self).seed(),
                        Some(response) => {
                            &&& progress matches Progress::Done(result)
                            &&& is_judgement(
                                exchange.kind,
                                old(self).client_address(),
                                old(self).server_address(),
                                response,
                                result,
                            )
                            &&& final(self).seed() == seed_after(
                                exchange.kind,
                                old(self).client_address(),
                                old(self).server_address(),
                                old(self).seed(),
                                response,
                            )
                        },
                    }
                },
            },
    {
        match self.client.receive(outcome) {
            Err(error) => {
                self.drop_session();
                Progress::Done(Err(UdsError::DoipError(error)))
            },
            Ok(data) => {
                let mut service: Vec<u8> = Vec::with_capacity(1);
                service.push(exchange.kind.sid());
                assert(service@ =~= seq![exchange.kind.sid_spec()]);
                match self.doip_receive_handle(service.as_slice(), data) {
                    None => Progress::Receive,
                    Some(response) => Progress::Done(self.judge(exchange.kind, response)),
                }
            },
        }
    }

    /// The text that follows the first place at which `target_sequence`
    /// stands in `data`, with every byte that is not printable written as
    /// an escape; `None` where the sequence stands nowhere.
    pub fn bytes_to_ascii(&self, data: &[u8], target_sequence: &[u8]) -> (text: Option<String>)
        ensures
            text is Some <==> contains_bytes(data@, target_sequence@),
            text matches Some(shown) ==> exists|at: int|
                is_first_occurrence_from(data@, target_sequence@, 0, at) && shown@ == escaped_text(
                    data@.subrange(at + target_sequence@.len(), data@.len() as int),
                ),
    {
        text_after(data, target_sequence)
    }
}

/// The text that follows the first place at which `target_sequence` stands
/// in `data`, with every byte that is not printable written as an escape;
/// `None` where the sequence stands nowhere. After the identifier that a
/// read of data echoes, this is the data as text.
pub fn text_after(data: &[u8], target_sequence: &[u8]) -> (text: Option<String>)
    ensures
        text is Some <==> contains_bytes(data@, target_sequence@),
        text matches Some(shown) ==> exists|at: int|
            is_first_occurrence_from(data@, target_sequence@, 0, at) && shown@ == escaped_text(
                data@.subrange(at + target_sequence@.len(), data@.len() as int),
            ),
{
    match find_bytes(data, target_sequence) {
        Some(start_index) => {
            assert(occurs_at(data@, target_sequence@, start_index as int));
            assert(data@.len() == data.len());
            let from: usize = start_index + target_sequence.len();
            let mut tail: Vec<u8> = Vec::new();
            let mut i: usize = from;
            while i < data.len()
                invariant
                    from <= i <= data@.len(),
                    tail@ == data@.subrange(from as int, i as int),
                decreases data@.len() - i,
            {
                tail.push(data[i]);
                i += 1;
                assert(tail@ =~= data@.subrange(from as int, i as int));
            }
            let shown = bytes_to_ascii_with_escape(tail.as_slice());
            assert(is_first_occurrence_from(data@, target_sequence@, 0, start_index as int));
            Some(shown)
        },
        None => None,
    }
}

/// What a run of reads gives while an answer to `service` is awaited: the
/// response that the first decisive read completes, the error that it is,
/// or `None` where no read of the run is decisive. A read of no bytes is the
/// peer's closing, and without a connection nothing is read at all.
pub open spec fn reassembled(
    connected: bool,
    service: Seq<u8>,
    server: Seq<u8>,
    client: Seq<u8>,
    reads: Seq<Seq<u8>>,
) -> Option<Result<Seq<u8>, DoipError>>
    decreases reads.len(),
{
    if reads.len() == 0 {
        None
    } else if !connected {
        Some(Err(DoipError::NotConnected))
    } else if reads[0].len() == 0 {
        Some(Err(DoipError::ConnectionClosedByPeer))
    } else {
        match chunk_verdict(service, server, client, reads[0]) {
            Some(response) => Some(Ok(response)),
            None => reassembled(connected, service, server, client, reads.skip(1)),
        }
    }
}

/// The bytes of each recorded read.
pub open spec fn read_views(reads: Seq<Vec<u8>>) -> Seq<Seq<u8>> {
    Seq::new(reads.len(), |i: int| reads[i]@)
}

impl UdsService {
    /// Reassembles the response to `service` from reads that were recorded,
    /// taking them in as they came: a read of no bytes as the peer's
    /// closing, every other as a chunk. `None` says that the record ends
    /// before the response is complete.
    pub fn receive_for(&mut self, service: &[u8], reads: &Vec<Vec<u8>>) -> (result: Option<
        UdsResult<Vec<u8>>,
    >)
        requires
            old(self).wf(),
        ensures
            final(self).wf(),
            final(self).same_addresses(old(self)),
            match reassembled(
                old(self).connected(),
                service@,
                old(self).server_address(),
                old(self).client_address(),
                read_views(reads@),
            ) {
                None => {
                    &&& result is None
                    &&& final(self).connected() == old(self).connected()
                    &&& final(self).seed() == old(self).seed()
                },
                Some(Ok(response)) => {
                    &&& result matches Some(Ok(bytes))
                    &&& bytes@ == response
                    &&& final(self).connected()
                    &&& final(self).seed() == old(self).seed()
                },
                Some(Err(error)) => {
                    &&& result == Some(Err::<Vec<u8>, UdsError>(UdsError::DoipError(error)))
                    &&& !final(self).connected()
                    &&& final(self).seed().len() == 0
                },
            },
    {
        let ghost all = read_views(reads@);
        let mut i: usize = 0;
        assert(all.skip(0) =~= all);
        while i < reads.len()
            invariant
                i <= reads@.len(),
                all == read_views(reads@),
                self.wf(),
                self.same_addresses(old(self)),
                self.connected() == old(self).connected(),
                self.seed() == old(self).seed(),
                reassembled(
                    old(self).connected(),
                    service@,
                    old(self).server_address(),
                    old(self).client_address(),
                    all,
                ) == reassembled(
                    old(self).connected(),
                    service@,
                    old(self).server_address(),
                    old(self).client_address(),
                    all.skip(i as int),
                ),
            decreases reads@.len() - i,
        {
            let chunk = copy_bytes(reads[i].as_slice());
            proof {
                assert(all.skip(i as int)[0] == chunk@);
                assert(all.skip(i as int).skip(1) =~= all.skip(i + 1));
            }
            match self.client.receive(ReadOutcome::Read(chunk)) {
                Err(error) => {
                    self.drop_session();
                    return Some(Err(UdsError::DoipError(error)));
                },
                Ok(data) => {
                    match self.doip_receive_handle(service, data) {
                        Some(response) => {
                            return Some(Ok(response));
                        },
                        None => {},
                    }
                },
            }
            i += 1;
        }
        None
    }
}

/// Every frame is laid out as frames are, whatever the addresses and the
/// request, as long as the length field can count the request.
pub proof fn lemma_frame_layout(client: Seq<u8>, server: Seq<u8>, payload: Seq<u8>)
    requires
        client.len() == 2,
        server.len() == 2,
        payload.len() + 4 <= u32::MAX,
    ensures
        has_frame_layout(frame(client, server, payload), client, server, payload),
{
    let whole = frame(client, server, payload);
    let length = (payload.len() + 4) as u32;
    lemma_int_bytes_roundtrip(length, be_bytes(length));
    assert(whole.subrange(0, 4) =~= doip_header());
    assert(whole.subrange(4, 8) =~= be_bytes(length));
    assert(whole.subrange(8, 10) =~= client);
    assert(whole.subrange(10, 12) =~= server);
    assert(whole.subrange(12, 12 + payload.len() as int) =~= payload);
}

/// Reads that do not count are passed over: where the first `skipped` reads
/// of a run are chunks without a verdict, the run gives what the rest of it
/// gives.
pub proof fn lemma_undecided_reads_are_skipped(
    service: Seq<u8>,
    server: Seq<u8>,
    client: Seq<u8>,
    reads: Seq<Seq<u8>>,
    skipped: int,
)
    requires
        0 <= skipped <= reads.len(),
        forall|i: int|
            0 <= i < skipped ==> reads[i].len() > 0 && chunk_verdict(
                service,
                server,
                client,
                #[trigger] reads[i],
            ) is None,
    ensures
        reassembled(true, service, server, client, reads) == reassembled(
            true,
            service,
            server,
            client,
            reads.skip(skipped),
        ),
    decreases skipped,
{
    if skipped == 0 {
        assert(reads.skip(0) =~= reads);
    } else {
        let rest = reads.skip(1);
        assert forall|i: int| 0 <= i < skipped - 1 implies rest[i].len() > 0 && chunk_verdict(
            service,
            server,
            client,
            #[trigger] rest[i],
        ) is None by {
            assert(rest[i] == reads[i + 1]);
        }
        lemma_undecided_reads_are_skipped(service, server, client, rest, skipped - 1);
        assert(rest.skip(skipped - 1) =~= reads.skip(skipped));
    }
}

/// A chunk that holds a pending reply, and the header at most once, has no
/// verdict; nor has one that holds a busy reply, or ends like an
/// acknowledgement.
pub proof fn lemma_transient_chunks(
    service: Seq<u8>,
    server: Seq<u8>,
    client: Seq<u8>,
    data: Seq<u8>,
)
    requires
        !has_repeated_marker(data, doip_header()),
        contains_bytes(data, pending_reply(service)) || contains_bytes(data, busy_reply(service))
            || occurs_at(
            data,
            ack_suffix(server, client),
            data.len() - ack_suffix(server, client).len(),
        ),
    ensures
        chunk_verdict(service, server, client, data) is None,
{
}

/// A chunk that is not empty, holds the header at most once and neither a
/// pending nor a busy reply, and does not end like an acknowledgement, is
/// the response.
pub proof fn lemma_final_chunk(service: Seq<u8>, server: Seq<u8>, client: Seq<u8>, data: Seq<u8>)
    requires
        data.len() > 0,
        !has_repeated_marker(data, doip_header()),
        !contains_bytes(data, pending_reply(service)),
        !contains_bytes(data, busy_reply(service)),
        !occurs_at(
            data,
            ack_suffix(server, client),
            data.len() - ack_suffix(server, client).len(),
        ),
    ensures
        chunk_verdict(service, server, client, data) == Some(data),
{
}

/// A chunk that holds the header twice or more gives its last frame: what
/// stands in it from the last header on.
pub proof fn lemma_last_frame_wins(
    service: Seq<u8>,
    server: Seq<u8>,
    client: Seq<u8>,
    data: Seq<u8>,
    at: int,
)
    requires
        has_repeated_marker(data, doip_header()),
        is_last_occurrence(data, doip_header(), at),
    ensures
        chunk_verdict(service, server, client, data) == Some(
            data.subrange(at, data.len() as int),
        ),
{
    lemma_last_occurrence_unique(data, doip_header(), at);
}

/// A run that begins with the peer's closing fails with that, whatever
/// follows.
pub proof fn lemma_closed_stream(
    service: Seq<u8>,
    server: Seq<u8>,
    client: Seq<u8>,
    reads: Seq<Seq<u8>>,
)
    requires
        reads.len() > 0,
        reads[0].len() == 0,
    ensures
        reassembled(true, service, server, client, reads) == Some(
            Err::<Seq<u8>, DoipError>(DoipError::ConnectionClosedByPeer),
        ),
{
}

} // verus!
