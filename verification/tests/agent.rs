use pulsehub::agent::{
    button_actions_for_profile, config_command_failure, custom_application_for_process, hidpp_apply_failure,
    mouse_button_action, onboard_action_from_config, retry_safe_shutdown, safe_shutdown_target,
    selected_environment, snapshot_for_target, startup_command, suggested_dpi_values, target_for_process,
    device_state_from_probe, live_snapshot, serve_apply_request, ApplyFailure, DeviceHealthMonitor, ForegroundProcess, EnvironmentSwitchGuard, EnvironmentTarget, SwitchDecision,
    DEVICE_FAILURE_THRESHOLD, ENVIRONMENT_STABLE_FOR_MS, PROFILE_APPLY_COOLDOWN_MS,
};
use pulsehub::config::{ApplicationProfileConfig, ButtonActionConfig, ConfigDocument, ConfigError, SelectionMode};
use pulsehub::hidpp::{HidppError, OnboardButtonAction};
use pulsehub::cli::{parse_arguments, Arguments, Invocation};
use pulsehub::coordinator::{health_check_due, selection_mode_draft, AgentCoordinator, ForegroundWatcher};
use pulsehub::g102::{HidppLink, Transport};
use pulsehub::hidpp::HidppProbeResult;
use pulsehub::ipc::{
    AgentSnapshot, DeviceStatus, Environment as IpcEnvironment, ErrorCode, Request, ResponseData, SelectionMode as IpcSelectionMode,
    Session,
};
use std::time::Duration;
use pulsehub::local_log::{
    entry_line, is_expired, is_managed_log_name, log_file_name, should_remove, LogState, CLEANUP_INTERVAL_MS,
    RETENTION_SECS,
};
use pulsehub::model::Environment;

fn foreground(name: &str, process_id: u64) -> ForegroundProcess {
    ForegroundProcess { executable_name: name.to_owned(), process_id }
}

fn word(config: &ConfigDocument) -> ApplicationProfileConfig {
    ApplicationProfileConfig {
        id: "winword".to_owned(),
        name: "Word".to_owned(),
        executable_path: r"C:\Program Files\Microsoft Office\root\Office16\WINWORD.EXE".to_owned(),
        process_name: "WINWORD.EXE".to_owned(),
        profile: config.profiles.cs2.clone(),
    }
}

#[test]
fn recognizes_only_managed_daily_logs() {
    assert!(is_managed_log_name("pulsehub-agent-20654.log"));
    assert!(!is_managed_log_name("pulsehub-agent-current.log"));
    assert!(!is_managed_log_name("config.toml"));
    assert!(!is_managed_log_name("other-20654.log"));
    assert!(!is_managed_log_name("pulsehub-agent-.log"));
}

#[test]
fn configured_cs2_rule_selects_cs2() {
    let config = ConfigDocument::default();
    assert_eq!(selected_environment(&config, Some("CS2.EXE")), Environment::Cs2);
    assert_eq!(selected_environment(&config, Some("explorer.exe")), Environment::Office);
}

#[test]
fn fixed_modes_ignore_the_foreground_process() {
    let mut config = ConfigDocument::default();
    config.selection.mode = SelectionMode::Cs2;
    assert_eq!(selected_environment(&config, Some("explorer.exe")), Environment::Cs2);
    config.selection.mode = SelectionMode::Application;
    assert_eq!(selected_environment(&config, Some("cs2.exe")), Environment::Office);
}

#[test]
fn converts_profile_mappings_to_verified_g102_slots() {
    let mut profile = ConfigDocument::default().profiles.office;
    profile.button_mappings[2].action = ButtonActionConfig::OnboardKeyboard { usage_page: 0x07, usage: 0x2a, modifiers: 0 };
    let actions = button_actions_for_profile(&profile).unwrap();

    assert_eq!(actions[0], mouse_button_action(1));
    assert_eq!(actions[2], OnboardButtonAction::Keyboard { modifiers: 0, key: 0x2a });
    assert_eq!(actions[3], mouse_button_action(4));
    assert_eq!(actions[5], OnboardButtonAction::Special { code: 0x05, profile: 0 });
}

#[test]
fn onboard_actions_reject_what_the_mouse_cannot_store() {
    assert_eq!(
        onboard_action_from_config(&ButtonActionConfig::LogicalControl { value: "mouse:wheel".to_owned() }),
        Err("不支持的板载逻辑动作：mouse:wheel".to_owned())
    );
    assert_eq!(
        onboard_action_from_config(&ButtonActionConfig::OnboardKeyboard { usage_page: 0x0c, usage: 0x100, modifiers: 0 }),
        Err("G102 板载键盘动作不支持 usage_page=0x000c, usage=0x0100".to_owned())
    );
    assert_eq!(mouse_button_action(5), OnboardButtonAction::Mouse { button: Some(5), mask: 0x10 });
}

#[test]
fn safe_shutdown_target_restores_native_controls() {
    let config = ConfigDocument::default();
    let target = safe_shutdown_target(&config.shutdown_profile).unwrap();

    assert_eq!(target.dpi, 1600);
    assert_eq!(target.report_rate_hz, 1000);
    assert_eq!(target.dpi_levels, [800, 1600, 2400, 3200]);
    assert_eq!(target.button_actions[0], mouse_button_action(1));
    assert_eq!(target.button_actions[1], mouse_button_action(2));
    assert_eq!(target.button_actions[2], mouse_button_action(3));
    assert_eq!(target.button_actions[3], mouse_button_action(4));
    assert_eq!(target.button_actions[4], mouse_button_action(5));
    assert_eq!(target.button_actions[5], OnboardButtonAction::Special { code: 0x05, profile: 0 });
}

#[test]
fn safe_shutdown_target_uses_user_profile() {
    let mut profile = ConfigDocument::default().shutdown_profile;
    profile.dpi = 800;
    profile.report_rate_hz = 250;
    let target = safe_shutdown_target(&profile).unwrap();
    assert_eq!(target.dpi, 800);
    assert_eq!(target.report_rate_hz, 250);
}

#[test]
fn rejects_incomplete_profile_before_device_io() {
    let mut profile = ConfigDocument::default().profiles.office;
    profile.button_mappings.retain(|mapping| mapping.physical_control != "g102:middle");

    assert!(button_actions_for_profile(&profile).is_err());
    assert_eq!(button_actions_for_profile(&profile).unwrap_err(), "配置缺少 G102 按键映射：g102:middle");
}

#[test]
fn target_maps_to_sanitized_ipc_snapshot() {
    let target = EnvironmentTarget {
        profile_key: "cs2".to_owned(),
        profile_name: "CS2".to_owned(),
        executable_name: "private-process.exe".to_owned(),
        process_id: 42,
        environment: Environment::Cs2,
        dpi: 800,
        report_rate_hz: 1000,
        button_actions: button_actions_for_profile(&ConfigDocument::default().profiles.cs2).unwrap(),
        dpi_levels: [800, 1600, 2400, 3200],
    };

    let snapshot = snapshot_for_target(&target, 7, DeviceStatus::Ready, Some(800));

    assert_eq!(snapshot.device_status, DeviceStatus::Ready);
    assert_eq!(snapshot.active_environment, IpcEnvironment::Cs2);
    assert_eq!(snapshot.config_revision, 7);
    assert_eq!(snapshot.current_dpi, Some(800));
    assert_eq!(snapshot.desired_dpi, 800);
}

#[test]
fn auto_mode_matches_imported_application_case_insensitively() {
    let mut config = ConfigDocument::default();
    config.applications.push(word(&config));

    let selected = custom_application_for_process(&config, "winword.exe").unwrap();
    assert_eq!(selected.id, "winword");
    config.selection.mode = SelectionMode::Office;
    assert!(custom_application_for_process(&config, "WINWORD.EXE").is_none());
    config.selection.mode = SelectionMode::Application;
    config.selection.fixed_application_id = Some("winword".to_owned());
    let fixed = custom_application_for_process(&config, "explorer.exe").unwrap();
    assert_eq!(fixed.id, "winword");
}

#[test]
fn targets_carry_the_chosen_profile() {
    let mut config = ConfigDocument::default();
    config.profiles.cs2.dpi = 800;
    config.profiles.cs2.dpi_levels = vec![400, 800, 1600, 3200];
    let target = target_for_process(&config, &foreground("cs2.exe", 7)).unwrap();
    assert_eq!(target.environment, Environment::Cs2);
    assert_eq!(target.profile_key, "cs2");
    assert_eq!(target.profile_name, "CS 环境");
    assert_eq!(target.dpi, 800);
    assert_eq!(target.dpi_levels, [400, 800, 1600, 3200]);

    config.applications.push(word(&config));
    let target = target_for_process(&config, &foreground("WinWord.exe", 8)).unwrap();
    assert_eq!(target.environment, Environment::Custom);
    assert_eq!(target.profile_key, "application:winword");
    assert_eq!(target.profile_name, "Word");
    assert_eq!(target.process_id, 8);

    let target = target_for_process(&config, &foreground("explorer.exe", 9)).unwrap();
    assert_eq!((target.environment, target.profile_key.as_str()), (Environment::Office, "office"));
}

#[test]
fn dpi_shortcuts_are_derived_from_continuous_capability() {
    assert_eq!(suggested_dpi_values(50, 8000, Some(50), &[50, 8000]), [100, 400, 800, 1600, 1800, 3200]);
    assert_eq!(suggested_dpi_values(400, 1600, Some(400), &[400, 1600]), [400, 800, 1600]);
}

#[test]
fn dpi_shortcuts_follow_a_discrete_list() {
    assert_eq!(suggested_dpi_values(400, 3200, None, &[400, 800, 1200]), [400, 800]);
    assert_eq!(suggested_dpi_values(400, 3200, None, &[]), [400, 800, 1600, 1800, 3200]);
}

#[test]
fn startup_command_quotes_agent_path_and_uses_daemon_arguments() {
    assert_eq!(
        startup_command(r"C:\Program Files\PulseHub\pulsehub-agent.exe"),
        r#""C:\Program Files\PulseHub\pulsehub-agent.exe" --run-agent --confirm-device-write"#
    );
}

#[test]
fn switch_guard_requires_stability_and_merges_transient_targets() {
    let started = 10_000_u64;
    let mut guard = EnvironmentSwitchGuard::default();

    assert_eq!(guard.decide("cs2", Some("office"), started), SwitchDecision::Wait(ENVIRONMENT_STABLE_FOR_MS));
    assert_eq!(guard.decide("office", Some("office"), started + 400), SwitchDecision::AlreadyActive);
    assert_eq!(guard.decide("cs2", Some("office"), started + 500), SwitchDecision::Wait(ENVIRONMENT_STABLE_FOR_MS));
    assert_eq!(guard.decide("cs2", Some("office"), started + 1500), SwitchDecision::Apply);
}

#[test]
fn switch_guard_waits_out_the_remaining_stability() {
    let mut guard = EnvironmentSwitchGuard::default();
    assert_eq!(guard.decide("cs2", None, 0), SwitchDecision::Wait(1000));
    assert_eq!(guard.decide("cs2", None, 300), SwitchDecision::Wait(700));
    assert_eq!(guard.decide("cs2", None, 1000), SwitchDecision::Apply);
}

#[test]
fn switch_guard_enforces_profile_apply_cooldown() {
    let started = 10_000_u64;
    let mut guard = EnvironmentSwitchGuard::default();
    guard.record_applied(started);

    assert_eq!(guard.decide("cs2", Some("office"), started + 1000), SwitchDecision::Wait(ENVIRONMENT_STABLE_FOR_MS));
    assert_eq!(guard.decide("cs2", Some("office"), started + 2000), SwitchDecision::Wait(3000));
    assert_eq!(guard.decide("cs2", Some("office"), started + PROFILE_APPLY_COOLDOWN_MS), SwitchDecision::Apply);
}

#[test]
fn device_health_ignores_transient_failures_and_signals_once() {
    let mut health = DeviceHealthMonitor::default();

    assert!(!health.record_failure());
    assert!(!health.record_failure());
    health.record_success();
    assert!(!health.record_failure());
    assert!(!health.record_failure());
    assert!(health.record_failure());
    assert!(!health.record_failure());
}

#[test]
fn device_health_can_signal_again_after_recovery() {
    let mut health = DeviceHealthMonitor::default();
    for _ in 0..DEVICE_FAILURE_THRESHOLD - 1 {
        assert!(!health.record_failure());
    }
    assert!(health.record_failure());
    health.record_success();
    for _ in 0..DEVICE_FAILURE_THRESHOLD - 1 {
        assert!(!health.record_failure());
    }
    assert!(health.record_failure());
}

#[test]
fn failures_are_classified_for_retry() {
    let failure = hidpp_apply_failure("板载配置写入失败", HidppError::InterfaceNotFound);
    assert!(failure.device_disconnected);
    assert!(failure.retryable);
    assert_eq!(failure.message, "板载配置写入失败：未找到匹配的 G102 HID++ 短/长报告接口");
    let failure = hidpp_apply_failure("x", HidppError::InvalidResponse("y".to_owned()));
    assert!(!failure.retryable);
    let command = config_command_failure(ConfigError::RevisionConflict { expected: 1, actual: 2 });
    assert_eq!(command.code, ErrorCode::Conflict);
    assert_eq!(config_command_failure(ConfigError::MissingAppData).code, ErrorCode::Internal);
    let retryable = ApplyFailure { message: String::new(), retryable: true, device_disconnected: false };
    assert!(retry_safe_shutdown(&retryable, 1, true));
    assert!(!retry_safe_shutdown(&retryable, 3, true));
    assert!(!retry_safe_shutdown(&retryable, 1, false));
}

#[test]
fn log_files_are_named_by_utc_day() {
    assert_eq!(log_file_name(0), "pulsehub-agent-0.log");
    assert_eq!(log_file_name(1_784_505_600 + 86_399), "pulsehub-agent-20654.log");
    assert!(is_managed_log_name(&log_file_name(1_700_000_000)));
    assert_eq!(entry_line(42, "INFO", "开发者日志已启用"), "[42] [INFO] 开发者日志已启用");
}

#[test]
fn only_expired_managed_files_are_removed() {
    assert!(!is_expired(RETENTION_SECS, 0));
    assert!(is_expired(RETENTION_SECS, 1));
    assert!(is_expired(RETENTION_SECS + 1, 0));
    assert!(should_remove("pulsehub-agent-1.log", true, RETENTION_SECS + 1, 0));
    assert!(!should_remove("notes.log", true, RETENTION_SECS + 1, 0));
    assert!(!should_remove("pulsehub-agent-1.log", false, RETENTION_SECS + 1, 0));
    assert!(!should_remove("pulsehub-agent-1.log", true, 10, 0));
}

#[test]
fn logging_announces_only_when_switched_on_and_cleans_up_every_ten_days() {
    let mut state = LogState::new();
    assert!(!state.writes_entries());
    assert!(!state.run_periodic_maintenance(CLEANUP_INTERVAL_MS * 2));
    state.initialize(1_000);
    state.initialize(5_000);
    assert!(state.set_enabled(true));
    assert!(!state.set_enabled(true));
    assert!(state.writes_entries());
    assert!(!state.run_periodic_maintenance(1_000 + CLEANUP_INTERVAL_MS - 1));
    assert!(state.run_periodic_maintenance(1_000 + CLEANUP_INTERVAL_MS));
    assert!(!state.run_periodic_maintenance(1_000 + CLEANUP_INTERVAL_MS + 1));
    assert!(!state.set_enabled(false));
    assert!(!state.writes_entries());
}

struct SilentDevice;

impl Transport for SilentDevice {
    fn transact(&mut self, _request: &[u8], _timeout: Duration) -> Result<Vec<u8>, HidppError> {
        Err(HidppError::Timeout)
    }
}

#[test]
fn probe_outcomes_map_to_device_states() {
    let empty = HidppProbeResult {
        protocol_major: 4,
        protocol_minor: 2,
        features: Vec::new(),
        dpi_sensors: Vec::new(),
        onboard_profiles: None,
        onboard_profile: None,
    };
    assert_eq!(device_state_from_probe(&Ok(empty)), (DeviceStatus::Degraded, None));
    assert_eq!(device_state_from_probe(&Err(HidppError::InterfaceNotFound)), (DeviceStatus::Disconnected, None));
    assert_eq!(device_state_from_probe(&Err(HidppError::Timeout)), (DeviceStatus::Busy, None));
    assert_eq!(device_state_from_probe(&Err(HidppError::PlatformUnsupported)), (DeviceStatus::Degraded, None));
}

#[test]
fn live_snapshot_reports_a_silent_device_as_busy() {
    let config = ConfigDocument::default();
    let snapshot = live_snapshot(&config, &foreground("cs2.exe", 1), &mut HidppLink::new(SilentDevice)).unwrap();
    assert_eq!(snapshot.device_status, DeviceStatus::Busy);
    assert_eq!(snapshot.active_environment, IpcEnvironment::Cs2);
    assert_eq!(snapshot.current_dpi, None);
    assert_eq!(snapshot.config_revision, 0);
}

#[test]
fn apply_sessions_refuse_before_hello_and_report_device_failures() {
    let config = ConfigDocument::default();
    let mut snapshot = AgentSnapshot {
        device_status: DeviceStatus::Ready,
        active_environment: IpcEnvironment::Office,
        config_revision: 4,
        current_dpi: Some(1600),
        desired_dpi: 1600,
    };
    let mut session = Session::default();
    let apply = Request::ApplyNow { version: 1, request_id: "apply".to_owned() };
    let mut asked = false;
    let refused = serve_apply_request(&mut session, &apply, &mut snapshot, &config, || {
        asked = true;
        Ok(foreground("cs2.exe", 1))
    }, &mut HidppLink::new(SilentDevice));
    assert!(!asked);
    assert_eq!(refused.error.unwrap().code, ErrorCode::InvalidRequest);

    let hello = Request::Hello {
        version: 1,
        request_id: "hello".to_owned(),
        supported_versions: vec![1],
        client: "pulsehub-config".to_owned(),
    };
    let answered = serve_apply_request(&mut session, &hello, &mut snapshot, &config, || Err("unused".to_owned()), &mut HidppLink::new(SilentDevice));
    assert_eq!(answered.data, Some(ResponseData::SelectedVersion(1)));

    let no_window = serve_apply_request(&mut session, &apply, &mut snapshot, &config, || Err("没有前台窗口".to_owned()), &mut HidppLink::new(SilentDevice));
    let error = no_window.error.unwrap();
    assert_eq!((error.code, error.message.as_str(), error.retryable), (ErrorCode::Internal, "没有前台窗口", true));

    let busy = serve_apply_request(&mut session, &apply, &mut snapshot, &config, || Ok(foreground("cs2.exe", 1)), &mut HidppLink::new(SilentDevice));
    let error = busy.error.unwrap();
    assert_eq!(error.code, ErrorCode::Busy);
    assert!(error.retryable);
    assert_eq!(snapshot.config_revision, 4);
    assert_eq!(snapshot.active_environment, IpcEnvironment::Office);
}

fn office_snapshot() -> AgentSnapshot {
    AgentSnapshot {
        device_status: DeviceStatus::Ready,
        active_environment: IpcEnvironment::Office,
        config_revision: 1,
        current_dpi: Some(1600),
        desired_dpi: 1600,
    }
}

#[test]
fn coordinator_waits_for_a_stable_target_and_backs_off_on_device_failures() {
    let config = ConfigDocument::default();
    let mut coordinator = AgentCoordinator::new(office_snapshot());
    let cs2 = || Ok(foreground("cs2.exe", 5));
    let tick = |coordinator: &mut AgentCoordinator, now: u64| {
        coordinator.foreground_tick(&config, 1, now, cs2, &mut HidppLink::new(SilentDevice), 0xc092, 0x5200)
    };
    assert_eq!(tick(&mut coordinator, 0), Some(Duration::from_millis(1000)));
    assert_eq!(tick(&mut coordinator, 400), Some(Duration::from_millis(600)));
    assert_eq!(tick(&mut coordinator, 1000), Some(Duration::from_millis(250)));
    assert_eq!(tick(&mut coordinator, 1300), Some(Duration::from_millis(500)));
    assert_eq!(coordinator.snapshot(), office_snapshot());
    let no_window = coordinator.foreground_tick(&config, 1, 1400, || Err("none".to_owned()), &mut HidppLink::new(SilentDevice), 0xc092, 0x5200);
    assert_eq!(no_window, Some(Duration::from_millis(1000)));
}

#[test]
fn coordinator_degrades_after_repeated_health_failures_and_recovers_state() {
    let mut coordinator = AgentCoordinator::new(office_snapshot());
    assert!(!coordinator.health_check(&mut HidppLink::new(SilentDevice)));
    assert!(!coordinator.health_check(&mut HidppLink::new(SilentDevice)));
    assert!(coordinator.health_check(&mut HidppLink::new(SilentDevice)));
    assert_eq!(coordinator.snapshot().device_status, DeviceStatus::Degraded);
    assert_eq!(coordinator.snapshot().current_dpi, None);
    assert!(!coordinator.health_check(&mut HidppLink::new(SilentDevice)));
}

#[test]
fn coordinator_commands_update_the_published_snapshot() {
    let mut config = ConfigDocument::default();
    config.profiles.office.dpi = 1200;
    config.profiles.cs2.dpi = 800;
    let mut coordinator = AgentCoordinator::new(office_snapshot());
    let snapshot = coordinator.after_commit(&config, 2);
    assert_eq!((snapshot.config_revision, snapshot.desired_dpi), (2, 1200));
    let snapshot = coordinator.after_mode_change(&config, 3, || Ok(foreground("cs2.exe", 5)));
    assert_eq!(snapshot.active_environment, IpcEnvironment::Cs2);
    assert_eq!((snapshot.config_revision, snapshot.desired_dpi), (3, 800));
    let snapshot = coordinator.after_mode_change(&config, 4, || Err("none".to_owned()));
    assert_eq!(snapshot.active_environment, IpcEnvironment::Office);
    assert_eq!(snapshot.desired_dpi, 1200);

    let failure = coordinator
        .apply_now(&config, 4, || Ok(foreground("cs2.exe", 5)), &mut HidppLink::new(SilentDevice), 0xc092, 0x5200)
        .unwrap_err();
    assert_eq!(failure.code, ErrorCode::Busy);
    assert!(failure.retryable);
    let failure = coordinator.apply_now(&config, 4, || Err("没有前台窗口".to_owned()), &mut HidppLink::new(SilentDevice), 0, 0).unwrap_err();
    assert_eq!((failure.code, failure.message.as_str()), (ErrorCode::Internal, "没有前台窗口"));

    let draft = selection_mode_draft(&config, IpcSelectionMode::Cs2);
    assert_eq!(draft.selection.mode, SelectionMode::Cs2);
    assert_eq!(draft.profiles, config.profiles);
}

fn words(list: &[&str]) -> Vec<String> {
    list.iter().map(|word| (*word).to_owned()).collect()
}

#[test]
fn command_line_modes_and_write_confirmation() {
    let none = Arguments {
        inspect_foreground: false,
        apply_current_environment: false,
        watch_foreground: false,
        serve_ipc_once: false,
        serve_ipc_apply_once: false,
        serve_ipc: false,
        run_agent: false,
        confirm_device_write: false,
        exit_after_seconds: None,
    };
    assert_eq!(parse_arguments(&words(&[])), Ok(Invocation::Run(none)));
    assert_eq!(
        parse_arguments(&words(&["--run-agent", "--confirm-device-write", "--exit-after-seconds", "30"])),
        Ok(Invocation::Run(Arguments {
            run_agent: true,
            confirm_device_write: true,
            exit_after_seconds: Some(30),
            ..none
        }))
    );
    assert_eq!(
        parse_arguments(&words(&["--run-agent"])),
        Err("设备应用或自动监听必须与 --confirm-device-write 同时提供".to_owned())
    );
    assert_eq!(
        parse_arguments(&words(&["--inspect-foreground", "--confirm-device-write"])),
        Err("设备应用或自动监听必须与 --confirm-device-write 同时提供".to_owned())
    );
    assert_eq!(
        parse_arguments(&words(&["--watch-foreground", "--run-agent", "--confirm-device-write"])),
        Err("前台检查、单次应用和自动监听模式不能同时使用".to_owned())
    );
    assert_eq!(
        parse_arguments(&words(&["--exit-after-seconds"])),
        Err("--exit-after-seconds 后必须提供秒数".to_owned())
    );
    assert_eq!(parse_arguments(&words(&["--exit-after-seconds", "abc"])), Err("无效秒数：abc".to_owned()));
    assert_eq!(
        parse_arguments(&words(&["--exit-after-seconds", "99999999999"])),
        Err("--exit-after-seconds 必须为 1–3600".to_owned())
    );
    assert_eq!(
        parse_arguments(&words(&["--inspect-foreground", "--exit-after-seconds", "5"])),
        Err("--exit-after-seconds 只能与 --watch-foreground、--serve-ipc 或 --run-agent 一起使用".to_owned())
    );
    assert_eq!(parse_arguments(&words(&["-h", "--bogus"])), Ok(Invocation::Help));
    assert_eq!(parse_arguments(&words(&["--bogus", "-h"])), Err("未知参数：--bogus".to_owned()));
}

#[test]
fn watcher_backs_off_while_the_device_fails() {
    let config = ConfigDocument::default();
    let mut watcher = ForegroundWatcher::new();
    let delay = watcher.tick(&config, || Ok(foreground("cs2.exe", 3)), &mut HidppLink::new(SilentDevice));
    assert_eq!(delay, Some(Duration::from_millis(250)));
    let delay = watcher.tick(&config, || Err("none".to_owned()), &mut HidppLink::new(SilentDevice));
    assert_eq!(delay, Some(Duration::from_millis(500)));
}

fn cs2_target() -> EnvironmentTarget {
    EnvironmentTarget {
        profile_key: "cs2".to_owned(),
        profile_name: "CS2".to_owned(),
        executable_name: "cs2.exe".to_owned(),
        process_id: 5,
        environment: Environment::Cs2,
        dpi: 800,
        report_rate_hz: 1000,
        button_actions: button_actions_for_profile(&ConfigDocument::default().profiles.cs2).unwrap(),
        dpi_levels: [800, 1600, 2400, 3200],
    }
}

fn dpi_written(after: u16) -> pulsehub::hidpp::DpiWriteResult {
    pulsehub::hidpp::DpiWriteResult { sensor_index: 0, before: 1600, requested: after, after, changed: true }
}

#[test]
fn a_successful_apply_becomes_the_active_environment() {
    let mut coordinator = AgentCoordinator::new(office_snapshot());
    let failure = ApplyFailure { message: "设备忙".to_owned(), retryable: true, device_disconnected: false };
    assert_eq!(coordinator.after_apply(&cs2_target(), 3, 100, Err(failure)), Some(Duration::from_millis(250)));
    assert_eq!(coordinator.snapshot(), office_snapshot());

    assert_eq!(coordinator.after_apply(&cs2_target(), 3, 200, Ok(dpi_written(800))), None);
    let snapshot = coordinator.snapshot();
    assert_eq!(snapshot.device_status, DeviceStatus::Ready);
    assert_eq!(snapshot.active_environment, IpcEnvironment::Cs2);
    assert_eq!((snapshot.config_revision, snapshot.current_dpi, snapshot.desired_dpi), (3, Some(800), 800));

    let lasting = ApplyFailure { message: "坏配置".to_owned(), retryable: false, device_disconnected: false };
    assert_eq!(coordinator.after_apply(&cs2_target(), 4, 300, Err(lasting)), None);
    assert_eq!(coordinator.snapshot(), snapshot);
}

#[test]
fn an_immediate_apply_is_answered_by_its_outcome() {
    let mut coordinator = AgentCoordinator::new(office_snapshot());
    let answer = coordinator.answer_apply(&cs2_target(), 6, Ok(dpi_written(800))).unwrap();
    assert_eq!(answer, coordinator.snapshot());
    assert_eq!((answer.active_environment, answer.current_dpi, answer.config_revision), (IpcEnvironment::Cs2, Some(800), 6));

    let busy = ApplyFailure { message: "设备忙".to_owned(), retryable: true, device_disconnected: false };
    let failure = coordinator.answer_apply(&cs2_target(), 7, Err(busy)).unwrap_err();
    assert_eq!((failure.code, failure.message.as_str(), failure.retryable), (ErrorCode::Busy, "设备忙", true));
    let broken = ApplyFailure { message: "坏配置".to_owned(), retryable: false, device_disconnected: false };
    let failure = coordinator.answer_apply(&cs2_target(), 7, Err(broken)).unwrap_err();
    assert_eq!((failure.code, failure.retryable), (ErrorCode::Internal, false));
    assert_eq!(coordinator.snapshot(), answer);
}

#[test]
fn the_device_is_checked_every_half_second() {
    assert!(!health_check_due(0));
    assert!(!health_check_due(499));
    assert!(health_check_due(500));
    assert!(health_check_due(u64::MAX));
}
