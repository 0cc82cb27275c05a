use pulsehub::client::{
    action_draft, action_from_argument, action_request, completion_label, error_text, loads_draft,
    needs_base_revision, snapshot_report, ui_language_argument, AgentAction,
};
use pulsehub::config::{ConfigDocument, UiLanguage};
use pulsehub::gui::is_revision_conflict;
use pulsehub::ipc::{AgentSnapshot, DeviceStatus, Environment, ErrorBody, ErrorCode, Request, SelectionMode};

#[test]
fn command_line_switches_name_actions() {
    assert_eq!(action_from_argument("--apply-agent"), Some(AgentAction::Apply));
    assert_eq!(action_from_argument("--set-selection-cs2"), Some(AgentAction::SetSelectionMode(SelectionMode::Cs2)));
    assert_eq!(action_from_argument("--disable-startup"), Some(AgentAction::SetStartup(false)));
    assert_eq!(action_from_argument("--bogus"), None);
    assert!(loads_draft(AgentAction::ValidateCurrentConfig));
    assert!(!loads_draft(AgentAction::Inspect));
    assert!(needs_base_revision(AgentAction::SetStartup(true)));
    assert!(!needs_base_revision(AgentAction::ValidateCurrentConfig));
}

#[test]
fn actions_send_their_requests() {
    let commit = action_request(AgentAction::SetStartup(true), 7, Some(serde_json::Value::Bool(true)));
    match commit {
        Request::CommitConfig { request_id, base_revision, draft, .. } => {
            assert_eq!(request_id, "config-set-startup-1");
            assert_eq!(base_revision, 7);
            assert_eq!(draft, serde_json::Value::Bool(true));
        }
        other => panic!("unexpected request {other:?}"),
    }
    let select = action_request(AgentAction::SetSelectionMode(SelectionMode::Office), 0, None);
    assert!(matches!(select, Request::SetSelectionMode { mode: SelectionMode::Office, .. }));
    assert!(matches!(action_request(AgentAction::Inspect, 0, None), Request::GetSnapshot { .. }));

    let mut config = ConfigDocument::default();
    config.agent.start_with_windows = true;
    let draft = action_draft(config.clone(), AgentAction::SetStartup(false));
    assert!(!draft.agent.start_with_windows);
    assert_eq!(draft.profiles, config.profiles);
}

#[test]
fn answers_are_reported() {
    assert_eq!(completion_label(AgentAction::Apply), "应用完成");
    assert_eq!(completion_label(AgentAction::Inspect), "代理快照");
    let snapshot = AgentSnapshot {
        device_status: DeviceStatus::Ready,
        active_environment: Environment::Cs2,
        config_revision: 9,
        current_dpi: None,
        desired_dpi: 800,
    };
    assert_eq!(
        snapshot_report("代理快照", &snapshot),
        "代理快照：设备=Ready，环境=Cs2，当前 DPI=未知，目标 DPI=800，配置修订=9"
    );
    let conflict = ErrorBody { code: ErrorCode::Conflict, message: "配置修订冲突".to_owned(), retryable: false };
    assert_eq!(error_text(&conflict), "\"PH-IPC-CONFLICT\"：配置修订冲突");
    assert!(is_revision_conflict(&error_text(&conflict)));
    let busy = ErrorBody { code: ErrorCode::Busy, message: "设备协调者响应超时".to_owned(), retryable: true };
    assert!(!is_revision_conflict(&error_text(&busy)));
}

#[test]
fn ui_language_switch_values() {
    assert_eq!(ui_language_argument(Some("en")), Ok(UiLanguage::En));
    assert_eq!(ui_language_argument(Some("zh_cn")), Ok(UiLanguage::ZhCn));
    assert_eq!(ui_language_argument(Some("fr")), Err("不支持的界面语言：fr（可选值：zh_cn、en）".to_owned()));
    assert_eq!(ui_language_argument(None), Err("--set-ui-language 需要 zh_cn 或 en 参数".to_owned()));
}
