//! The agent's local IPC protocol: requests and responses, version negotiation,
//! the dispatcher, text field limits and the length prefix of frames. Moving
//! frames over a pipe and JSON encoding belong to the application.

use vstd::prelude::*;

use crate::fmt::{decimal_text, spec_decimal};
use crate::hidpp::text;
use crate::text::{is_control, str_has_control, utf8};

verus! {

pub const PROTOCOL_VERSION: u32 = 1;
pub const MAX_PAYLOAD_BYTES: usize = 65536;
pub const MAX_REQUEST_ID_BYTES: usize = 128;
pub const MAX_CLIENT_NAME_BYTES: usize = 64;
pub const MAX_SUPPORTED_VERSIONS: usize = 16;

/// A JSON value carried through unchanged (a configuration draft).
#[verifier::external_type_specification]
#[verifier::external_body]
pub struct ExJsonValue(serde_json::Value);

/// The kind of an I/O failure on the pipe.
#[verifier::external_type_specification]
#[verifier::external_body]
pub struct ExIoErrorKind(std::io::ErrorKind);

/// `Clone::clone` of a JSON value (derived by serde_json): nothing is claimed of
/// the copy, which verified code only carries along.
pub assume_specification[ <serde_json::Value as Clone>::clone ](value: &serde_json::Value) -> serde_json::Value;

/// `Clone::clone` of an I/O error kind: nothing is claimed of the copy.
pub assume_specification[ <std::io::ErrorKind as Clone>::clone ](kind: &std::io::ErrorKind) -> std::io::ErrorKind;

#[derive(Debug, Clone, PartialEq)]
pub enum Request {
    Hello { version: u32, request_id: String, supported_versions: Vec<u32>, client: String },
    GetSnapshot { version: u32, request_id: String },
    ValidateDraft { version: u32, request_id: String, draft: serde_json::Value },
    CommitConfig { version: u32, request_id: String, base_revision: u64, draft: serde_json::Value },
    ApplyNow { version: u32, request_id: String },
    SetSelectionMode { version: u32, request_id: String, mode: SelectionMode },
    AttachUi { version: u32, request_id: String },
}

/// The protocol version a request claims.
pub open spec fn request_version(request: &Request) -> u32 {
    match request {
        Request::Hello { version, .. } => *version,
        Request::GetSnapshot { version, .. } => *version,
        Request::ValidateDraft { version, .. } => *version,
        Request::CommitConfig { version, .. } => *version,
        Request::ApplyNow { version, .. } => *version,
        Request::SetSelectionMode { version, .. } => *version,
        Request::AttachUi { version, .. } => *version,
    }
}

/// The request id a request carries.
pub open spec fn request_id_of(request: &Request) -> Seq<char> {
    match request {
        Request::Hello { request_id, .. } => request_id@,
        Request::GetSnapshot { request_id, .. } => request_id@,
        Request::ValidateDraft { request_id, .. } => request_id@,
        Request::CommitConfig { request_id, .. } => request_id@,
        Request::ApplyNow { request_id, .. } => request_id@,
        Request::SetSelectionMode { request_id, .. } => request_id@,
        Request::AttachUi { request_id, .. } => request_id@,
    }
}

/// The `type` tag of a request on the wire.
pub open spec fn spec_wire_name(request: &Request) -> &'static str {
    match request {
        Request::Hello { .. } => "hello",
        Request::GetSnapshot { .. } => "get_snapshot",
        Request::ValidateDraft { .. } => "validate_draft",
        Request::CommitConfig { .. } => "commit_config",
        Request::ApplyNow { .. } => "apply_now",
        Request::SetSelectionMode { .. } => "set_selection_mode",
        Request::AttachUi { .. } => "attach_ui",
    }
}

/// Why a request is malformed, if it is: wrong version, a bad request id, or, for
/// `hello`, a version list without the current version or a bad client name.
pub open spec fn request_error(request: &Request) -> Option<ProtocolErrorView> {
    if request_version(request) != PROTOCOL_VERSION {
        Some(ProtocolErrorView::UnsupportedVersion { found: request_version(request) })
    } else if text_error("request_id"@, request_id_of(request), MAX_REQUEST_ID_BYTES) is Some {
        text_error("request_id"@, request_id_of(request), MAX_REQUEST_ID_BYTES)
    } else {
        match request {
            Request::Hello { supported_versions, client, .. } => if supported_versions@.len() == 0
                || supported_versions@.len() > MAX_SUPPORTED_VERSIONS || !supported_versions@.contains(
                PROTOCOL_VERSION,
            ) {
                Some(ProtocolErrorView::InvalidField("supported_versions 必须包含当前版本且数量不超过 16"@))
            } else {
                text_error("client"@, client@, MAX_CLIENT_NAME_BYTES)
            },
            _ => None,
        }
    }
}

impl Request {
    pub fn version(&self) -> (version: u32)
        ensures
            version == request_version(self),
    {
        match self {
            Request::Hello { version, .. } => *version,
            Request::GetSnapshot { version, .. } => *version,
            Request::ValidateDraft { version, .. } => *version,
            Request::CommitConfig { version, .. } => *version,
            Request::ApplyNow { version, .. } => *version,
            Request::SetSelectionMode { version, .. } => *version,
            Request::AttachUi { version, .. } => *version,
        }
    }

    pub fn request_id(&self) -> (id: &str)
        ensures
            id@ == request_id_of(self),
    {
        match self {
            Request::Hello { request_id, .. } => request_id.as_str(),
            Request::GetSnapshot { request_id, .. } => request_id.as_str(),
            Request::ValidateDraft { request_id, .. } => request_id.as_str(),
            Request::CommitConfig { request_id, .. } => request_id.as_str(),
            Request::ApplyNow { request_id, .. } => request_id.as_str(),
            Request::SetSelectionMode { request_id, .. } => request_id.as_str(),
            Request::AttachUi { request_id, .. } => request_id.as_str(),
        }
    }

    pub fn wire_name(&self) -> (name: &'static str)
        ensures
            name == spec_wire_name(self),
    {
        match self {
            Request::Hello { .. } => "hello",
            Request::GetSnapshot { .. } => "get_snapshot",
            Request::ValidateDraft { .. } => "validate_draft",
            Request::CommitConfig { .. } => "commit_config",
            Request::ApplyNow { .. } => "apply_now",
            Request::SetSelectionMode { .. } => "set_selection_mode",
            Request::AttachUi { .. } => "attach_ui",
        }
    }

    pub fn validate(&self) -> (r: Result<(), ProtocolError>)
        ensures
            match request_error(self) {
                None => r is Ok,
                Some(e) => r is Err && r->Err_0@ == e,
            },
    {
        if self.version() != PROTOCOL_VERSION {
            return Err(ProtocolError::UnsupportedVersion { found: self.version() });
        }
        validate_text("request_id", self.request_id(), MAX_REQUEST_ID_BYTES)?;
        match self {
            Request::Hello { supported_versions, client, .. } => {
                let mut has_current = false;
                let mut i: usize = 0;
                while i < supported_versions.len()
                    invariant
                        i <= supported_versions@.len(),
                        has_current == exists|k: int| 0 <= k < i && supported_versions@[k] == PROTOCOL_VERSION,
                    decreases supported_versions.len() - i,
                {
                    if supported_versions[i] == PROTOCOL_VERSION {
                        has_current = true;
                    }
                    i = i + 1;
                }
                if supported_versions.len() == 0 || supported_versions.len() > MAX_SUPPORTED_VERSIONS
                    || !has_current {
                    return Err(
                        ProtocolError::InvalidField(text("supported_versions 必须包含当前版本且数量不超过 16")),
                    );
                }
                validate_text("client", client.as_str(), MAX_CLIENT_NAME_BYTES)?;
            },
            _ => {},
        }
        Ok(())
    }
}

#[derive(Debug, Clone, Copy, PartialEq, Eq, Structural)]
pub enum SelectionMode {
    Auto,
    Office,
    Cs2,
}

#[derive(Debug, Clone, Copy, PartialEq, Eq, Structural)]
pub enum Environment {
    Office,
    Cs2,
    Custom,
}

#[derive(Debug, Clone, Copy, PartialEq, Eq, Structural)]
pub enum DeviceStatus {
    Unknown,
    Disconnected,
    Ready,
    Busy,
    Degraded,
}

#[derive(Debug, Clone, Copy, PartialEq, Eq, Structural)]
pub struct AgentSnapshot {
    pub device_status: DeviceStatus,
    pub active_environment: Environment,
    pub config_revision: u64,
    pub current_dpi: Option<u16>,
    pub desired_dpi: u16,
}

/// What a successful response carries: the negotiated version for `hello`, the
/// agent's state for `get_snapshot`.
#[derive(Debug, Clone, Copy, PartialEq, Eq, Structural)]
pub enum ResponseData {
    SelectedVersion(u32),
    Snapshot(AgentSnapshot),
}

#[derive(Debug, Clone, PartialEq, Eq)]
pub struct Response {
    pub version: u32,
    pub request_id: String,
    pub ok: bool,
    pub data: Option<ResponseData>,
    pub error: Option<ErrorBody>,
}

/// A response is well formed when it carries data exactly when it succeeded and an
/// error exactly when it failed.
pub open spec fn envelope_ok(response: &Response) -> bool {
    response.ok == response.data is Some && response.ok == !(response.error is Some)
}

pub open spec fn response_error(response: &Response) -> Option<ProtocolErrorView> {
    if response.version != PROTOCOL_VERSION {
        Some(ProtocolErrorView::UnsupportedVersion { found: response.version })
    } else if text_error("request_id"@, response.request_id@, MAX_REQUEST_ID_BYTES) is Some {
        text_error("request_id"@, response.request_id@, MAX_REQUEST_ID_BYTES)
    } else if !envelope_ok(response) {
        Some(ProtocolErrorView::InvalidEnvelope)
    } else {
        None
    }
}

impl Response {
    pub fn success(request_id: String, data: ResponseData) -> (response: Self)
        ensures
            response.version == PROTOCOL_VERSION,
            response.request_id@ == request_id@,
            response.ok,
            response.data == Some(data),
            response.error is None,
    {
        Response { version: PROTOCOL_VERSION, request_id, ok: true, data: Some(data), error: None }
    }

    pub fn failure(request_id: String, error: ErrorBody) -> (response: Self)
        ensures
            response.version == PROTOCOL_VERSION,
            response.request_id@ == request_id@,
            !response.ok,
            response.data is None,
            response.error == Some(error),
    {
        Response { version: PROTOCOL_VERSION, request_id, ok: false, data: None, error: Some(error) }
    }

    pub fn validate(&self) -> (r: Result<(), ProtocolError>)
        ensures
            match response_error(self) {
                None => r is Ok,
                Some(e) => r is Err && r->Err_0@ == e,
            },
    {
        if self.version != PROTOCOL_VERSION {
            return Err(ProtocolError::UnsupportedVersion { found: self.version });
        }
        validate_text("request_id", self.request_id.as_str(), MAX_REQUEST_ID_BYTES)?;
        if self.ok == self.error.is_some() || self.ok != self.data.is_some() {
            return Err(ProtocolError::InvalidEnvelope);
        }
        Ok(())
    }
}

#[derive(Debug, Clone, PartialEq, Eq)]
pub struct ErrorBody {
    pub code: ErrorCode,
    pub message: String,
    pub retryable: bool,
}

#[derive(Debug, Clone, Copy, PartialEq, Eq, Structural)]
pub enum ErrorCode {
    InvalidRequest,
    Version,
    Conflict,
    Busy,
    Internal,
}

impl ErrorCode {
    /// The code's name on the wire.
    pub fn wire_code(&self) -> (code: &'static str)
        ensures
            code == match self {
                ErrorCode::InvalidRequest => "PH-IPC-INVALID-REQUEST",
                ErrorCode::Version => "PH-IPC-VERSION",
                ErrorCode::Conflict => "PH-IPC-CONFLICT",
                ErrorCode::Busy => "PH-IPC-BUSY",
                ErrorCode::Internal => "PH-IPC-INTERNAL",
            },
    {
        match self {
            ErrorCode::InvalidRequest => "PH-IPC-INVALID-REQUEST",
            ErrorCode::Version => "PH-IPC-VERSION",
            ErrorCode::Conflict => "PH-IPC-CONFLICT",
            ErrorCode::Busy => "PH-IPC-BUSY",
            ErrorCode::Internal => "PH-IPC-INTERNAL",
        }
    }
}

#[derive(Debug, Clone, PartialEq, Eq)]
pub enum Event {
    SnapshotChanged { version: u32, snapshot: AgentSnapshot },
    ApplyStarted { version: u32, environment: Environment },
    ApplyFinished { version: u32, snapshot: AgentSnapshot },
    DeviceChanged { version: u32, snapshot: AgentSnapshot },
    ActivateUi { version: u32 },
}

#[derive(Debug, Clone, PartialEq, Eq)]
pub enum FrameError {
    Io(std::io::ErrorKind),
    EmptyPayload,
    PayloadTooLarge { length: usize, maximum: usize },
    Json(String),
    Protocol(ProtocolError),
}

#[derive(Debug, Clone, PartialEq, Eq)]
pub enum ProtocolError {
    NotNegotiated,
    AlreadyNegotiated,
    UnsupportedVersion { found: u32 },
    InvalidField(String),
    InvalidEnvelope,
}

pub enum ProtocolErrorView {
    NotNegotiated,
    AlreadyNegotiated,
    UnsupportedVersion { found: u32 },
    InvalidField(Seq<char>),
    InvalidEnvelope,
}

impl View for ProtocolError {
    type V = ProtocolErrorView;

    open spec fn view(&self) -> ProtocolErrorView {
        match self {
            ProtocolError::NotNegotiated => ProtocolErrorView::NotNegotiated,
            ProtocolError::AlreadyNegotiated => ProtocolErrorView::AlreadyNegotiated,
            ProtocolError::UnsupportedVersion { found } => ProtocolErrorView::UnsupportedVersion { found: *found },
            ProtocolError::InvalidField(message) => ProtocolErrorView::InvalidField(message@),
            ProtocolError::InvalidEnvelope => ProtocolErrorView::InvalidEnvelope,
        }
    }
}

pub open spec fn dec(n: int) -> Seq<char> {
    spec_decimal(n as nat)
}

/// The user-facing text of a protocol error (its `Display` rendering).
pub open spec fn spec_protocol_message(e: ProtocolErrorView) -> Seq<char> {
    match e {
        ProtocolErrorView::NotNegotiated => "尚未完成 hello 版本协商"@,
        ProtocolErrorView::AlreadyNegotiated => "hello 版本协商已经完成"@,
        ProtocolErrorView::UnsupportedVersion { found } => "不支持 IPC 协议版本 "@ + dec(found as int),
        ProtocolErrorView::InvalidField(message) => "字段无效："@ + message,
        ProtocolErrorView::InvalidEnvelope => "响应 data/error 与 ok 状态不一致"@,
    }
}

impl ProtocolError {
    pub fn message(&self) -> (m: String)
        ensures
            m@ == spec_protocol_message(self@),
    {
        match self {
            ProtocolError::NotNegotiated => text("尚未完成 hello 版本协商"),
            ProtocolError::AlreadyNegotiated => text("hello 版本协商已经完成"),
            ProtocolError::UnsupportedVersion { found } => {
                let mut m = text("不支持 IPC 协议版本 ");
                m.append(decimal_text(*found as u64).as_str());
                m
            },
            ProtocolError::InvalidField(message) => {
                let mut m = text("字段无效：");
                m.append(message.as_str());
                m
            },
            ProtocolError::InvalidEnvelope => text("响应 data/error 与 ok 状态不一致"),
        }
    }
}

/// `format!("{:?}", kind)`: the name of an I/O error kind.
#[verifier::external_body]
fn io_kind_text(kind: &std::io::ErrorKind) -> String {
    format!("{:?}", kind)
}

impl FrameError {
    /// The user-facing rendering of the error. The name of an I/O error kind is
    /// the standard library's `Debug` text and is not stated here.
    pub fn message(&self) -> (m: String)
        ensures
            match self {
                FrameError::Io(_) => m@.len() >= "IPC I/O 错误："@.len() && m@.subrange(0, "IPC I/O 错误："@.len() as int)
                    == "IPC I/O 错误："@,
                FrameError::EmptyPayload => m@ == "IPC payload 不能为空"@,
                FrameError::PayloadTooLarge { length, maximum } => m@ == "IPC payload "@ + dec(*length as int)
                    + " 字节超过上限 "@ + dec(*maximum as int),
                FrameError::Json(message) => m@ == "IPC JSON 错误："@ + message@,
                FrameError::Protocol(error) => m@ == "IPC 协议错误："@ + spec_protocol_message(error@),
            },
    {
        match self {
            FrameError::Io(kind) => {
                let mut m = text("IPC I/O 错误：");
                let ghost prefix = m@;
                m.append(io_kind_text(kind).as_str());
                assert(m@.subrange(0, prefix.len() as int) =~= prefix);
                m
            },
            FrameError::EmptyPayload => text("IPC payload 不能为空"),
            FrameError::PayloadTooLarge { length, maximum } => {
                let mut m = text("IPC payload ");
                m.append(decimal_text(*length as u64).as_str());
                m.append(" 字节超过上限 ");
                m.append(decimal_text(*maximum as u64).as_str());
                m
            },
            FrameError::Json(message) => {
                let mut m = text("IPC JSON 错误：");
                m.append(message.as_str());
                m
            },
            FrameError::Protocol(error) => {
                let mut m = text("IPC 协议错误：");
                m.append(error.message().as_str());
                m
            },
        }
    }
}

// ---------------------------------------------------------------------------
// Text fields
// ---------------------------------------------------------------------------

/// Why a text field is refused, if it is: it must have 1 to `maximum` UTF-8 bytes
/// and no control character.
pub open spec fn text_error(field: Seq<char>, value: Seq<char>, maximum: usize) -> Option<ProtocolErrorView> {
    if utf8(value).len() == 0 || utf8(value).len() > maximum || exists|i: int|
        0 <= i < value.len() && is_control(#[trigger] value[i]) {
        Some(
            ProtocolErrorView::InvalidField(field + " 必须为 1–"@ + dec(maximum as int) + " 字节且不含控制字符"@),
        )
    } else {
        None
    }
}

pub fn validate_text(field: &str, value: &str, maximum: usize) -> (r: Result<(), ProtocolError>)
    ensures
        match text_error(field@, value@, maximum) {
            None => r is Ok,
            Some(e) => r is Err && r->Err_0@ == e,
        },
{
    let length = value.as_bytes().len();
    if length == 0 || length > maximum || str_has_control(value) {
        let mut m = text(field);
        m.append(" 必须为 1–");
        m.append(decimal_text(maximum as u64).as_str());
        m.append(" 字节且不含控制字符");
        Err(ProtocolError::InvalidField(m))
    } else {
        Ok(())
    }
}

// ---------------------------------------------------------------------------
// Negotiation and dispatch
// ---------------------------------------------------------------------------

/// One client connection: nothing but `hello` is accepted until `hello` succeeds,
/// and `hello` is accepted only once.
#[derive(Debug)]
pub struct Session {
    negotiated: bool,
}

impl Default for Session {
    fn default() -> (session: Self)
        ensures
            !session.spec_negotiated(),
    {
        Session { negotiated: false }
    }
}

impl Session {
    pub closed spec fn spec_negotiated(&self) -> bool {
        self.negotiated
    }

    /// Admits a well-formed request: `hello` negotiates, a second `hello` and any
    /// other request before `hello` are refused. A refused request leaves the
    /// session as it was.
    pub fn accept(&mut self, request: &Request) -> (r: Result<(), ProtocolError>)
        ensures
            request_error(request) matches Some(e) ==> r is Err && r->Err_0@ == e,
            request_error(request) is None && !old(self).spec_negotiated() && !(request is Hello) ==> r is Err
                && r->Err_0@ == ProtocolErrorView::NotNegotiated,
            request_error(request) is None && old(self).spec_negotiated() && request is Hello ==> r is Err
                && r->Err_0@ == ProtocolErrorView::AlreadyNegotiated,
            r is Ok <==> request_error(request) is None && (old(self).spec_negotiated() != request is Hello),
            final(self).spec_negotiated() == (old(self).spec_negotiated() || r is Ok),
    {
        request.validate()?;
        match request {
            Request::Hello { .. } => {
                if self.negotiated {
                    Err(ProtocolError::AlreadyNegotiated)
                } else {
                    self.negotiated = true;
                    Ok(())
                }
            },
            _ => {
                if self.negotiated {
                    Ok(())
                } else {
                    Err(ProtocolError::NotNegotiated)
                }
            },
        }
    }

    pub fn is_negotiated(&self) -> (negotiated: bool)
        ensures
            negotiated == self.spec_negotiated(),
    {
        self.negotiated
    }
}

/// The error code a refused request is answered with.
pub open spec fn refusal_code(e: ProtocolErrorView) -> ErrorCode {
    match e {
        ProtocolErrorView::UnsupportedVersion { .. } => ErrorCode::Version,
        _ => ErrorCode::InvalidRequest,
    }
}

/// How an admitted request is answered: `hello` with the selected version,
/// `get_snapshot` with the snapshot, anything else with "not implemented".
pub open spec fn answers_accepted(request: &Request, snapshot: AgentSnapshot, response: &Response) -> bool {
    &&& response.version == PROTOCOL_VERSION
    &&& response.request_id@ == request_id_of(request)
    &&& match request {
        Request::Hello { .. } => response.ok && response.data == Some(ResponseData::SelectedVersion(PROTOCOL_VERSION))
            && response.error is None,
        Request::GetSnapshot { .. } => response.ok && response.data == Some(ResponseData::Snapshot(snapshot))
            && response.error is None,
        _ => !response.ok && response.data is None && response.error is Some && response.error->Some_0.code
            == ErrorCode::InvalidRequest && !response.error->Some_0.retryable && response.error->Some_0.message@
            == spec_wire_name(request)@ + " 尚未由代理实现"@,
    }
}

/// Answers a request the session has already admitted.
pub fn dispatch_accepted_request(request: &Request, snapshot: &AgentSnapshot) -> (response: Response)
    ensures
        answers_accepted(request, *snapshot, &response),
        envelope_ok(&response),
{
    let request_id = text(request.request_id());
    match request {
        Request::Hello { .. } => Response::success(request_id, ResponseData::SelectedVersion(PROTOCOL_VERSION)),
        Request::GetSnapshot { .. } => Response::success(request_id, ResponseData::Snapshot(*snapshot)),
        _ => {
            let mut message = text(request.wire_name());
            message.append(" 尚未由代理实现");
            Response::failure(
                request_id,
                ErrorBody { code: ErrorCode::InvalidRequest, message, retryable: false },
            )
        },
    }
}

/// How many clients the agent serves at once.
pub const MAX_AGENT_CLIENTS: usize = 4;

/// Whether the agent accepts one more client while `active` are connected.
pub fn admits_client(active: usize) -> (admitted: bool)
    ensures
        admitted == (active < MAX_AGENT_CLIENTS),
{
    active < MAX_AGENT_CLIENTS
}

/// How long the agent waits for the device coordinator's answer to a request, in
/// milliseconds: the requests that change the device or the configuration go to
/// the coordinator once the session is negotiated (an immediate apply may take
/// fifteen seconds, the others five); every other request is answered from the
/// published snapshot (`None`).
pub fn coordinator_wait_ms(negotiated: bool, request: &Request) -> (wait: Option<u64>)
    ensures
        wait == if !negotiated {
            None
        } else {
            match request {
                Request::ApplyNow { .. } => Some(15_000u64),
                Request::ValidateDraft { .. } | Request::CommitConfig { .. } | Request::SetSelectionMode { .. } => Some(
                    5_000u64,
                ),
                _ => None,
            }
        },
{
    if !negotiated {
        return None;
    }
    match request {
        Request::ApplyNow { .. } => Some(15_000),
        Request::ValidateDraft { .. } | Request::CommitConfig { .. } | Request::SetSelectionMode { .. } => Some(5_000),
        _ => None,
    }
}

/// Admits the request in the session and answers it; a refused request is
/// answered with the refusal, as a non-retryable error.
pub fn dispatch_request(session: &mut Session, request: &Request, snapshot: &AgentSnapshot) -> (response: Response)
    ensures
        response.version == PROTOCOL_VERSION,
        response.request_id@ == request_id_of(request),
        envelope_ok(&response),
        final(session).spec_negotiated() == (old(session).spec_negotiated() || response.ok && request is Hello),
        response.ok ==> request_error(request) is None && (old(session).spec_negotiated() != request is Hello),
        request_error(request) is None && (old(session).spec_negotiated() != request is Hello) ==> answers_accepted(
            request,
            *snapshot,
            &response,
        ),
        request_error(request) is Some ==> !response.ok && response.error is Some && response.error->Some_0.code
            == refusal_code(request_error(request)->Some_0) && response.error->Some_0.message@
            == spec_protocol_message(request_error(request)->Some_0) && !response.error->Some_0.retryable,
        request_error(request) is None && !old(session).spec_negotiated() && !(request is Hello) ==> !response.ok
            && response.error is Some && response.error->Some_0.code == ErrorCode::InvalidRequest
            && response.error->Some_0.message@ == spec_protocol_message(ProtocolErrorView::NotNegotiated),
        request_error(request) is None ==> dispatched(old(session).spec_negotiated(), request, *snapshot, &response),
{
    let request_id = text(request.request_id());
    match session.accept(request) {
        Err(error) => {
            let code = match error {
                ProtocolError::UnsupportedVersion { .. } => ErrorCode::Version,
                _ => ErrorCode::InvalidRequest,
            };
            let message = error.message();
            Response::failure(request_id, ErrorBody { code, message, retryable: false })
        },
        Ok(()) => dispatch_accepted_request(request, snapshot),
    }
}

/// How a server answers a request that reached it well formed: `dispatch_request`'s
/// answer, for a session that was (`negotiated`) or was not yet negotiated.
pub open spec fn dispatched(negotiated: bool, request: &Request, snapshot: AgentSnapshot, response: &Response) -> bool {
    &&& response.version == PROTOCOL_VERSION
    &&& response.request_id@ == request_id_of(request)
    &&& envelope_ok(response)
    &&& response.ok ==> (negotiated != request is Hello)
    &&& negotiated != request is Hello ==> answers_accepted(request, snapshot, response)
    &&& !negotiated && !(request is Hello) ==> !response.ok && response.error is Some
        && response.error->Some_0.code == ErrorCode::InvalidRequest && !response.error->Some_0.retryable
        && response.error->Some_0.message@ == spec_protocol_message(ProtocolErrorView::NotNegotiated)
    &&& negotiated && request is Hello ==> !response.ok && response.error is Some
        && response.error->Some_0.code == ErrorCode::InvalidRequest && !response.error->Some_0.retryable
        && response.error->Some_0.message@ == spec_protocol_message(ProtocolErrorView::AlreadyNegotiated)
}

/// Serves one decoded request: a malformed request ends the exchange with its
/// protocol error and leaves the session as it was; a well-formed one is admitted
/// and answered, and the answer passes the envelope check before it is sent.
pub fn serve_next(session: &mut Session, request: &Request, snapshot: &AgentSnapshot) -> (r: Result<
    Response,
    FrameError,
>)
    ensures
        request_error(request) matches Some(e) ==> (r matches Err(FrameError::Protocol(pe)) && pe@ == e),
        request_error(request) is Some ==> final(session).spec_negotiated() == old(session).spec_negotiated(),
        request_error(request) is None ==> (r matches Ok(response) && response_error(&response) is None
            && dispatched(old(session).spec_negotiated(), request, *snapshot, &response)),
        request_error(request) is None ==> final(session).spec_negotiated() == (old(session).spec_negotiated()
            || request is Hello),
{
    if let Err(error) = request.validate() {
        return Err(FrameError::Protocol(error));
    }
    let response = dispatch_request(session, request, snapshot);
    match response.validate() {
        Ok(()) => Ok(response),
        Err(error) => Err(FrameError::Protocol(error)),
    }
}

/// `serve_next`, with the snapshot taken only once a well-formed request is in
/// hand.
pub fn serve_next_with<F: FnOnce() -> AgentSnapshot>(session: &mut Session, request: &Request, snapshot: F) -> (r:
    Result<Response, FrameError>)
    requires
        snapshot.requires(()),
    ensures
        request_error(request) matches Some(e) ==> (r matches Err(FrameError::Protocol(pe)) && pe@ == e),
        request_error(request) is Some ==> final(session).spec_negotiated() == old(session).spec_negotiated(),
        request_error(request) is None ==> (r matches Ok(response) && response_error(&response) is None && (exists|
            taken: AgentSnapshot|
            #![trigger snapshot.ensures((), taken)]
            snapshot.ensures((), taken) && dispatched(old(session).spec_negotiated(), request, taken, &response))),
        request_error(request) is None ==> final(session).spec_negotiated() == (old(session).spec_negotiated()
            || request is Hello),
{
    if let Err(error) = request.validate() {
        return Err(FrameError::Protocol(error));
    }
    let taken = snapshot();
    serve_next(session, request, &taken)
}

// ---------------------------------------------------------------------------
// Frames: a little-endian u32 length, then that many payload bytes
// ---------------------------------------------------------------------------

/// The value of four little-endian bytes.
pub open spec fn le_u32(bytes: Seq<u8>) -> int {
    bytes[0] + 256 * bytes[1] + 65536 * bytes[2] + 16777216 * bytes[3]
}

/// The four little-endian bytes of a 32-bit length.
pub open spec fn prefix_bytes(length: int) -> Seq<u8> {
    seq![
        (length % 256) as u8,
        ((length / 256) % 256) as u8,
        ((length / 65536) % 256) as u8,
        ((length / 16777216) % 256) as u8,
    ]
}

/// The four-byte prefix announcing a payload of `length` bytes.
pub fn frame_prefix(length: usize) -> (r: Result<[u8; 4], FrameError>)
    ensures
        length == 0 ==> r == Err::<[u8; 4], FrameError>(FrameError::EmptyPayload),
        length > MAX_PAYLOAD_BYTES ==> r == Err::<[u8; 4], FrameError>(
            FrameError::PayloadTooLarge { length, maximum: MAX_PAYLOAD_BYTES },
        ),
        0 < length <= MAX_PAYLOAD_BYTES ==> r is Ok && r->Ok_0@ == prefix_bytes(length as int),
{
    if length == 0 {
        return Err(FrameError::EmptyPayload);
    }
    if length > MAX_PAYLOAD_BYTES {
        return Err(FrameError::PayloadTooLarge { length, maximum: MAX_PAYLOAD_BYTES });
    }
    let value = length as u32;
    let prefix = [
        (value % 256) as u8,
        ((value / 256) % 256) as u8,
        ((value / 65536) % 256) as u8,
        (value / 16777216) as u8,
    ];
    assert(prefix@ =~= prefix_bytes(length as int));
    Ok(prefix)
}

/// The payload length a frame prefix announces, once it is within the limit.
pub fn payload_length(prefix: [u8; 4]) -> (r: Result<usize, FrameError>)
    ensures
        le_u32(prefix@) == 0 ==> r == Err::<usize, FrameError>(FrameError::EmptyPayload),
        le_u32(prefix@) > MAX_PAYLOAD_BYTES ==> r is Err && r->Err_0 is PayloadTooLarge
            && r->Err_0->PayloadTooLarge_maximum == MAX_PAYLOAD_BYTES && r->Err_0->PayloadTooLarge_length
            == le_u32(prefix@),
        0 < le_u32(prefix@) <= MAX_PAYLOAD_BYTES ==> r == Ok::<usize, FrameError>(le_u32(prefix@) as usize),
{
    let value: u64 = prefix[0] as u64 + 256 * (prefix[1] as u64) + 65536 * (prefix[2] as u64) + 16777216 * (
    prefix[3] as u64);
    assert(value == le_u32(prefix@));
    if value == 0 {
        return Err(FrameError::EmptyPayload);
    }
    if value > MAX_PAYLOAD_BYTES as u64 {
        assert(value <= 0xffff_ffff);
        let length: usize = if value <= usize::MAX as u64 {
            value as usize
        } else {
            usize::MAX
        };
        return Err(FrameError::PayloadTooLarge { length, maximum: MAX_PAYLOAD_BYTES });
    }
    Ok(value as usize)
}

/// Reading the prefix written for a length gives that length back, for every
/// length a 32-bit prefix can hold.
pub proof fn lemma_frame_length_round_trip(length: int)
    requires
        0 <= length < 0x1_0000_0000,
    ensures
        le_u32(prefix_bytes(length)) == length,
{
    let b0 = length % 256;
    let b1 = (length / 256) % 256;
    let b2 = (length / 65536) % 256;
    let b3 = (length / 16777216) % 256;
    assert(b0 + 256 * b1 + 65536 * b2 + 16777216 * b3 == length) by (nonlinear_arith)
        requires
            0 <= length < 0x1_0000_0000,
            b0 == length % 256,
            b1 == (length / 256) % 256,
            b2 == (length / 65536) % 256,
            b3 == (length / 16777216) % 256,
    ;
}

} // verus!
