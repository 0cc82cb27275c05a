//! The configuration tool's command-line client: the actions it offers, the
//! request each action sends, and how the agent's answers are reported.

use vstd::prelude::*;

use crate::config::{AgentConfig, ConfigDocument, DocumentView, UiLanguage};
use crate::fmt::{decimal_text, spec_decimal};
use crate::gui::spec_is_revision_conflict;
use crate::hidpp::text;
use crate::ipc::{AgentSnapshot, DeviceStatus, Environment, ErrorBody, ErrorCode, Request, SelectionMode, PROTOCOL_VERSION};
use crate::text::str_equal;

verus! {

/// What the client is asked to do.
#[derive(Debug, Clone, Copy, PartialEq, Eq, Structural)]
pub enum AgentAction {
    Inspect,
    Apply,
    ValidateCurrentConfig,
    CommitCurrentConfig,
    SetSelectionMode(SelectionMode),
    SetStartup(bool),
}

/// The action a command-line switch asks for.
pub open spec fn spec_action_from_argument(argument: Seq<char>) -> Option<AgentAction> {
    if argument == "--inspect-agent"@ {
        Some(AgentAction::Inspect)
    } else if argument == "--apply-agent"@ {
        Some(AgentAction::Apply)
    } else if argument == "--validate-current-config"@ {
        Some(AgentAction::ValidateCurrentConfig)
    } else if argument == "--commit-current-config"@ {
        Some(AgentAction::CommitCurrentConfig)
    } else if argument == "--set-selection-auto"@ {
        Some(AgentAction::SetSelectionMode(SelectionMode::Auto))
    } else if argument == "--set-selection-office"@ {
        Some(AgentAction::SetSelectionMode(SelectionMode::Office))
    } else if argument == "--set-selection-cs2"@ {
        Some(AgentAction::SetSelectionMode(SelectionMode::Cs2))
    } else if argument == "--enable-startup"@ {
        Some(AgentAction::SetStartup(true))
    } else if argument == "--disable-startup"@ {
        Some(AgentAction::SetStartup(false))
    } else {
        None
    }
}

pub fn action_from_argument(argument: &str) -> (action: Option<AgentAction>)
    ensures
        action == spec_action_from_argument(argument@),
{
    if str_equal(argument, "--inspect-agent") {
        Some(AgentAction::Inspect)
    } else if str_equal(argument, "--apply-agent") {
        Some(AgentAction::Apply)
    } else if str_equal(argument, "--validate-current-config") {
        Some(AgentAction::ValidateCurrentConfig)
    } else if str_equal(argument, "--commit-current-config") {
        Some(AgentAction::CommitCurrentConfig)
    } else if str_equal(argument, "--set-selection-auto") {
        Some(AgentAction::SetSelectionMode(SelectionMode::Auto))
    } else if str_equal(argument, "--set-selection-office") {
        Some(AgentAction::SetSelectionMode(SelectionMode::Office))
    } else if str_equal(argument, "--set-selection-cs2") {
        Some(AgentAction::SetSelectionMode(SelectionMode::Cs2))
    } else if str_equal(argument, "--enable-startup") {
        Some(AgentAction::SetStartup(true))
    } else if str_equal(argument, "--disable-startup") {
        Some(AgentAction::SetStartup(false))
    } else {
        None
    }
}

/// The action sends the stored configuration as a draft.
pub open spec fn spec_loads_draft(action: AgentAction) -> bool {
    action is ValidateCurrentConfig || action is CommitCurrentConfig || action is SetStartup
}

pub fn loads_draft(action: AgentAction) -> (r: bool)
    ensures
        r == spec_loads_draft(action),
{
    match action {
        AgentAction::ValidateCurrentConfig | AgentAction::CommitCurrentConfig | AgentAction::SetStartup(_) => true,
        _ => false,
    }
}

/// The action commits, so it first reads the agent's current revision.
pub open spec fn spec_needs_base_revision(action: AgentAction) -> bool {
    action is CommitCurrentConfig || action is SetStartup
}

pub fn needs_base_revision(action: AgentAction) -> (r: bool)
    ensures
        r == spec_needs_base_revision(action),
{
    match action {
        AgentAction::CommitCurrentConfig | AgentAction::SetStartup(_) => true,
        _ => false,
    }
}

/// The stored configuration as the action sends it: starting at logon as the
/// action sets it, everything else unchanged.
pub fn action_draft(config: ConfigDocument, action: AgentAction) -> (draft: ConfigDocument)
    ensures
        draft@ == match action {
            AgentAction::SetStartup(enabled) => DocumentView {
                agent: AgentConfig { start_with_windows: enabled, ..config@.agent },
                ..config@
            },
            _ => config@,
        },
{
    let mut draft = config;
    if let AgentAction::SetStartup(enabled) = action {
        draft.agent.start_with_windows = enabled;
    }
    draft
}

/// The request id an action's request carries.
pub open spec fn spec_action_request_id(action: AgentAction) -> &'static str {
    match action {
        AgentAction::Apply => "config-apply-1",
        AgentAction::Inspect => "config-snapshot-1",
        AgentAction::ValidateCurrentConfig => "config-validate-1",
        AgentAction::CommitCurrentConfig => "config-commit-1",
        AgentAction::SetSelectionMode(_) => "config-set-selection-1",
        AgentAction::SetStartup(_) => "config-set-startup-1",
    }
}

/// The request an action sends: `apply_now`, `get_snapshot`, `validate_draft` or
/// `commit_config` of the draft against `base_revision`, or `set_selection_mode`.
pub fn action_request(action: AgentAction, base_revision: u64, draft: Option<serde_json::Value>) -> (request: Request)
    requires
        spec_loads_draft(action) ==> draft is Some,
    ensures
        request_shape(action, base_revision, draft, &request),
        crate::ipc::request_id_of(&request) == spec_action_request_id(action)@,
        crate::ipc::request_version(&request) == PROTOCOL_VERSION,
{
    match action {
        AgentAction::Apply => Request::ApplyNow { version: PROTOCOL_VERSION, request_id: text("config-apply-1") },
        AgentAction::Inspect => Request::GetSnapshot {
            version: PROTOCOL_VERSION,
            request_id: text("config-snapshot-1"),
        },
        AgentAction::ValidateCurrentConfig => {
            let draft = draft.unwrap();
            Request::ValidateDraft { version: PROTOCOL_VERSION, request_id: text("config-validate-1"), draft }
        },
        AgentAction::CommitCurrentConfig => {
            let draft = draft.unwrap();
            Request::CommitConfig {
                version: PROTOCOL_VERSION,
                request_id: text("config-commit-1"),
                base_revision,
                draft,
            }
        },
        AgentAction::SetSelectionMode(mode) => Request::SetSelectionMode {
            version: PROTOCOL_VERSION,
            request_id: text("config-set-selection-1"),
            mode,
        },
        AgentAction::SetStartup(_) => {
            let draft = draft.unwrap();
            Request::CommitConfig {
                version: PROTOCOL_VERSION,
                request_id: text("config-set-startup-1"),
                base_revision,
                draft,
            }
        },
    }
}

/// The kind of request an action sends, with the draft it carries, the revision
/// a commit is made against and the mode a selection change sets.
pub open spec fn request_shape(
    action: AgentAction,
    base_revision: u64,
    draft: Option<serde_json::Value>,
    request: &Request,
) -> bool {
    match action {
        AgentAction::Apply => request is ApplyNow,
        AgentAction::Inspect => request is GetSnapshot,
        AgentAction::ValidateCurrentConfig => request matches Request::ValidateDraft { draft: d, .. } && Some(*d)
            == draft,
        AgentAction::CommitCurrentConfig | AgentAction::SetStartup(_) => request matches Request::CommitConfig {
            base_revision: b,
            draft: d,
            ..
        } && b == base_revision && Some(*d) == draft,
        AgentAction::SetSelectionMode(mode) => request matches Request::SetSelectionMode { mode: m, .. } && m == mode,
    }
}

/// The first words of the report after an action completed.
pub open spec fn spec_completion_label(action: AgentAction) -> &'static str {
    match action {
        AgentAction::Apply => "应用完成",
        AgentAction::CommitCurrentConfig => "配置提交完成",
        AgentAction::SetSelectionMode(_) => "环境模式更新完成",
        AgentAction::SetStartup(_) => "登录启动更新完成",
        _ => "代理快照",
    }
}

pub fn completion_label(action: AgentAction) -> (label: &'static str)
    ensures
        label == spec_completion_label(action),
{
    match action {
        AgentAction::Apply => "应用完成",
        AgentAction::CommitCurrentConfig => "配置提交完成",
        AgentAction::SetSelectionMode(_) => "环境模式更新完成",
        AgentAction::SetStartup(_) => "登录启动更新完成",
        _ => "代理快照",
    }
}

pub open spec fn device_status_name(status: DeviceStatus) -> Seq<char> {
    match status {
        DeviceStatus::Unknown => "Unknown"@,
        DeviceStatus::Disconnected => "Disconnected"@,
        DeviceStatus::Ready => "Ready"@,
        DeviceStatus::Busy => "Busy"@,
        DeviceStatus::Degraded => "Degraded"@,
    }
}

pub open spec fn environment_name(environment: Environment) -> Seq<char> {
    match environment {
        Environment::Office => "Office"@,
        Environment::Cs2 => "Cs2"@,
        Environment::Custom => "Custom"@,
    }
}

/// The report line for a snapshot:
/// `<label>：设备=<status>，环境=<environment>，当前 DPI=<dpi>，目标 DPI=<dpi>，配置修订=<revision>`.
pub open spec fn spec_snapshot_report(label: Seq<char>, snapshot: AgentSnapshot) -> Seq<char> {
    label + "：设备="@ + device_status_name(snapshot.device_status) + "，环境="@ + environment_name(
        snapshot.active_environment,
    ) + "，当前 DPI="@ + match snapshot.current_dpi {
        Some(d) => spec_decimal(d as nat),
        None => "未知"@,
    } + "，目标 DPI="@ + spec_decimal(snapshot.desired_dpi as nat) + "，配置修订="@ + spec_decimal(
        snapshot.config_revision as nat,
    )
}

pub fn snapshot_report(label: &str, snapshot: &AgentSnapshot) -> (report: String)
    ensures
        report@ == spec_snapshot_report(label@, *snapshot),
{
    let mut report = text(label);
    report.append("：设备=");
    report.append(
        match snapshot.device_status {
            DeviceStatus::Unknown => "Unknown",
            DeviceStatus::Disconnected => "Disconnected",
            DeviceStatus::Ready => "Ready",
            DeviceStatus::Busy => "Busy",
            DeviceStatus::Degraded => "Degraded",
        },
    );
    report.append("，环境=");
    report.append(
        match snapshot.active_environment {
            Environment::Office => "Office",
            Environment::Cs2 => "Cs2",
            Environment::Custom => "Custom",
        },
    );
    report.append("，当前 DPI=");
    match snapshot.current_dpi {
        Some(d) => report.append(decimal_text(d as u64).as_str()),
        None => report.append("未知"),
    }
    report.append("，目标 DPI=");
    report.append(decimal_text(snapshot.desired_dpi as u64).as_str());
    report.append("，配置修订=");
    report.append(decimal_text(snapshot.config_revision).as_str());
    report
}

/// The code's name on the wire.
pub open spec fn spec_wire_code(code: ErrorCode) -> &'static str {
    match code {
        ErrorCode::InvalidRequest => "PH-IPC-INVALID-REQUEST",
        ErrorCode::Version => "PH-IPC-VERSION",
        ErrorCode::Conflict => "PH-IPC-CONFLICT",
        ErrorCode::Busy => "PH-IPC-BUSY",
        ErrorCode::Internal => "PH-IPC-INTERNAL",
    }
}

/// How the client reports an error answer: the code as a JSON string, `：`, and
/// the message.
pub open spec fn spec_error_text(code: ErrorCode, message: Seq<char>) -> Seq<char> {
    "\""@ + spec_wire_code(code)@ + "\"："@ + message
}

pub fn error_text(error: &ErrorBody) -> (t: String)
    ensures
        t@ == spec_error_text(error.code, error.message@),
{
    let mut t = text("\"");
    t.append(error.code.wire_code());
    t.append("\"：");
    t.append(error.message.as_str());
    t
}

/// Every conflict the agent answers is recognised as a revision conflict by the
/// window, whatever its message.
pub proof fn lemma_conflicts_are_recognized(message: Seq<char>)
    ensures
        spec_is_revision_conflict(spec_error_text(ErrorCode::Conflict, message)),
{
    reveal_strlit("\"");
    reveal_strlit("PH-IPC-CONFLICT");
    let t = spec_error_text(ErrorCode::Conflict, message);
    assert(t.subrange(1, 1 + "PH-IPC-CONFLICT"@.len() as int) =~= "PH-IPC-CONFLICT"@);
}

/// The interface language a `--set-ui-language` value names.
pub open spec fn spec_ui_language_argument(value: Option<Seq<char>>) -> Result<UiLanguage, Seq<char>> {
    match value {
        Some(v) => if v == "zh_cn"@ {
            Ok(UiLanguage::ZhCn)
        } else if v == "en"@ {
            Ok(UiLanguage::En)
        } else {
            Err("不支持的界面语言："@ + v + "（可选值：zh_cn、en）"@)
        },
        None => Err("--set-ui-language 需要 zh_cn 或 en 参数"@),
    }
}

pub fn ui_language_argument(value: Option<&str>) -> (r: Result<UiLanguage, String>)
    ensures
        match spec_ui_language_argument(
            match value {
                Some(v) => Some(v@),
                None => None,
            },
        ) {
            Ok(language) => r == Ok::<UiLanguage, String>(language),
            Err(message) => r is Err && r->Err_0@ == message,
        },
{
    match value {
        Some(v) => if str_equal(v, "zh_cn") {
            Ok(UiLanguage::ZhCn)
        } else if str_equal(v, "en") {
            Ok(UiLanguage::En)
        } else {
            let mut message = text("不支持的界面语言：");
            message.append(v);
            message.append("（可选值：zh_cn、en）");
            Err(message)
        },
        None => Err(text("--set-ui-language 需要 zh_cn 或 en 参数")),
    }
}

} // verus!
