use pulsehub::config::{
    ApplicationProfileConfig, ButtonActionConfig, ButtonMappingConfig, ConfigDocument, SelectionMode, UiLanguage,
};
use pulsehub::draft::{
    apply_gui_form, base_id, captured_action_id, edit_mapping_row, import_application, language_from_label,
    mapping_row, set_custom_dpi, set_dpi_level, unique_id, EnvironmentForm, GuiForm, RowEdit,
};
use pulsehub::gui::{action_from_id, captured_keyboard_action};
use pulsehub::ipc::{AgentSnapshot, DeviceStatus, Environment};
use pulsehub::panel::{
    base_revision, device_status_label, editor_levels, language_label, mode_options, overview, overview_banner,
    shutdown_editor_levels,
};

fn application(id: &str, name: &str, process_name: &str) -> ApplicationProfileConfig {
    ApplicationProfileConfig {
        id: id.to_owned(),
        name: name.to_owned(),
        executable_path: format!(r"C:\Apps\{process_name}"),
        process_name: process_name.to_owned(),
        profile: ConfigDocument::default().profiles.cs2,
    }
}

fn form(config: &ConfigDocument) -> GuiForm {
    let environment = |dpi: u16| EnvironmentForm {
        dpi,
        report_rate_hz: 500,
        dpi_levels: [400, 800, 1600, 3200],
        mappings: vec![("g102:middle".to_owned(), "key:4:1".to_owned())],
    };
    GuiForm {
        office: environment(800),
        cs2: environment(1600),
        shutdown: environment(2400),
        applications: config.applications.clone(),
        selection_mode: "固定 CS2".to_owned(),
        start_with_windows: false,
        developer_logging: true,
        language: "English".to_owned(),
    }
}

#[test]
fn imported_ids_come_from_the_stem_and_stay_unique() {
    assert_eq!(base_id("My App-2"), "my_app_2");
    assert_eq!(base_id("游戏"), "__");
    let existing = vec![application("game", "Game", "a.exe"), application("game_2", "Game 2", "b.exe")];
    assert_eq!(unique_id(&existing, "game"), "game_3");
    assert_eq!(unique_id(&existing, "other"), "other");
    assert_eq!(unique_id(&existing, "game_2"), "game_2_2");
}

#[test]
fn importing_an_executable_builds_its_environment_from_the_cs2_editor() {
    let existing = vec![application("game", "Game 环境", "Game.exe")];
    let selections = vec![("g102:middle".to_owned(), "disabled".to_owned())];
    let imported = import_application(
        &existing,
        r"D:\Games\GAME.EXE",
        "GAME.EXE",
        Some("GAME"),
        1200,
        [400, 800, 1200, 1600],
        &selections,
    );
    assert_eq!(imported.unwrap_err(), "GAME.EXE 已经有独立环境配置。 ");

    let imported = import_application(
        &existing,
        r"D:\Games\Game-Two.exe",
        "Game-Two.exe",
        Some("Game-Two"),
        1200,
        [400, 800, 1200, 1600],
        &selections,
    )
    .unwrap();
    assert_eq!(imported.id, "game_two");
    assert_eq!(imported.name, "Game-Two 环境");
    assert_eq!(imported.process_name, "Game-Two.exe");
    assert_eq!(imported.executable_path, r"D:\Games\Game-Two.exe");
    assert_eq!(imported.profile.dpi, 1200);
    assert_eq!(imported.profile.dpi_levels, vec![400, 800, 1200, 1600]);
    assert_eq!(imported.profile.report_rate_hz, 1000);
    assert_eq!(imported.profile.button_mappings[2].action, ButtonActionConfig::Disabled);

    let word = import_application(&existing, r"C:\Office\WINWORD.EXE", "WINWORD.EXE", Some("WINWORD"), -5, [1, 2, 3, 4], &[])
        .unwrap();
    assert_eq!(word.name, "Word 环境");
    assert_eq!(word.id, "winword");
    assert_eq!(word.profile.dpi, 800);

    let nameless = import_application(&existing, r"C:\x", "", None, 800, [1, 2, 3, 4], &[]);
    assert_eq!(nameless.unwrap_err(), "请输入存在的 .exe 程序完整路径。");
    let script = import_application(&existing, r"C:\tools\run.bat", "run.bat", Some("run"), 800, [1, 2, 3, 4], &[]);
    assert_eq!(script.unwrap_err(), "请输入存在的 .exe 程序完整路径。");
    let hidden = import_application(&existing, r"C:\tools\.exe", ".exe", Some(".exe"), 800, [1, 2, 3, 4], &[]);
    assert_eq!(hidden.unwrap_err(), "请输入存在的 .exe 程序完整路径。");
}

#[test]
fn saving_the_form_updates_only_what_the_window_edits() {
    let config = ConfigDocument::default();
    let draft = apply_gui_form(config.clone(), form(&config)).unwrap();
    assert_eq!(draft.profiles.office.dpi, 800);
    assert_eq!(draft.profiles.cs2.dpi, 1600);
    assert_eq!(draft.shutdown_profile.dpi, 2400);
    assert_eq!(draft.profiles.office.report_rate_hz, 500);
    assert_eq!(draft.shutdown_profile.dpi_levels, vec![400, 800, 1600, 3200]);
    assert_eq!(
        draft.profiles.cs2.button_mappings[2].action,
        ButtonActionConfig::OnboardKeyboard { usage_page: 7, usage: 4, modifiers: 1 }
    );
    assert_eq!(draft.selection.mode, SelectionMode::Cs2);
    assert_eq!(draft.selection.rules, config.selection.rules);
    assert_eq!(draft.agent.language, UiLanguage::En);
    assert!(!draft.agent.start_with_windows);
    assert!(draft.agent.developer_logging);
    assert_eq!(draft.schema_version, config.schema_version);

    let mut bad_language = form(&config);
    bad_language.language = "Deutsch".to_owned();
    assert_eq!(apply_gui_form(config.clone(), bad_language).unwrap_err(), "不支持的界面语言：Deutsch");

    let mut bad_mode = form(&config);
    bad_mode.selection_mode = "固定 Word".to_owned();
    assert_eq!(apply_gui_form(config.clone(), bad_mode).unwrap_err(), "不支持的模式：固定 Word");

    let mut bad_control = form(&config);
    bad_control.cs2.mappings = vec![("g102:wheel".to_owned(), "disabled".to_owned())];
    assert_eq!(apply_gui_form(config, bad_control).unwrap_err(), "配置缺少按键 g102:wheel");
}

#[test]
fn language_labels_read_back() {
    for language in [UiLanguage::ZhCn, UiLanguage::En] {
        assert_eq!(language_from_label(language_label(language)), Ok(language));
    }
}

#[test]
fn typed_dpi_values_become_notices() {
    let (value, notice) = set_custom_dpi(" 1600 ", 100, 8000, 0).unwrap();
    assert_eq!(value, 1600);
    assert_eq!(notice.title, "自定义 DPI 已加入草稿");
    assert_eq!(notice.detail, "1600 DPI 将在保存配置后生效。");
    let refused = set_custom_dpi("abc", 100, 8000, 50).unwrap_err();
    assert_eq!(refused.title, "DPI 输入无效");
    assert_eq!(refused.detail, "请输入只包含数字的 DPI 值。");

    let (levels, notice) = set_dpi_level([400, 800, 1600, 3200], 1, "1000", 100, 8000, 50).unwrap().unwrap();
    assert_eq!(levels, [400, 1000, 1600, 3200]);
    assert_eq!(notice.title, "DPI 档位已加入草稿");
    assert_eq!(notice.detail, "档位 2 已设置为 1000 DPI。");
    let out_of_order = set_dpi_level([400, 800, 1600, 3200], 0, "2000", 100, 8000, 50).unwrap().unwrap_err();
    assert_eq!(out_of_order.title, "DPI 档位顺序无效");
    assert_eq!(out_of_order.detail, "四个 DPI 档位必须从低到高排列且不能重复。");
    assert!(set_dpi_level([400, 800, 1600, 3200], 4, "1000", 100, 8000, 50).is_none());
    let bad = set_dpi_level([400, 800, 1600, 3200], 4, "1001", 100, 8000, 50).unwrap().unwrap_err();
    assert_eq!(bad.title, "DPI 档位无效");
}

#[test]
fn mapping_rows_lock_primary_buttons_and_track_the_dpi_cycle() {
    let left = ButtonMappingConfig {
        physical_control: "g102:left".to_owned(),
        action: ButtonActionConfig::LogicalControl { value: "mouse:left".to_owned() },
    };
    let mut row = mapping_row(&left, true);
    assert_eq!(row.label, "Primary button");
    assert_eq!(row.action_id, "left");
    assert!(row.locked);
    assert!(matches!(edit_mapping_row(&mut row, "disabled", "Disabled"), RowEdit::Locked));
    assert_eq!(row.action_id, "left");

    let dpi = ButtonMappingConfig {
        physical_control: "g102:dpi".to_owned(),
        action: ButtonActionConfig::LogicalControl { value: "mouse:dpi_cycle".to_owned() },
    };
    let mut row = mapping_row(&dpi, false);
    assert_eq!(row.label, "DPI 键（G6）");
    assert_eq!(row.action_label, "原本 DPI 切换");
    assert!(!row.locked);
    assert!(matches!(edit_mapping_row(&mut row, "disabled", "禁用"), RowEdit::Updated { dpi_cycle: Some(false) }));
    assert_eq!(row.action_id, "disabled");

    let consumer = ButtonMappingConfig {
        physical_control: "g102:middle".to_owned(),
        action: ButtonActionConfig::OnboardConsumer { usage: 0xe9 },
    };
    assert!(mapping_row(&consumer, true).locked);
}

#[test]
fn captured_chords_read_back_as_keyboard_actions() {
    let (usage, modifiers, _) = captured_keyboard_action("a", true, true, false, false).unwrap();
    let id = captured_action_id(usage, modifiers);
    assert_eq!(id, "key:4:3");
    assert_eq!(
        action_from_id(&id),
        Ok(ButtonActionConfig::OnboardKeyboard { usage_page: 7, usage: 4, modifiers: 3 })
    );
}

#[test]
fn window_labels_levels_and_mode_choices() {
    assert_eq!(device_status_label(DeviceStatus::Disconnected, false), "未检测到设备");
    assert_eq!(device_status_label(DeviceStatus::Busy, true), "Device is busy");
    assert_eq!(base_revision(7), 7);
    assert_eq!(base_revision(u64::MAX), i32::MAX);
    assert_eq!(editor_levels(&vec![1, 2, 3]), None);
    assert_eq!(editor_levels(&vec![1, 2, 3, 4]), Some([1, 2, 3, 4]));
    assert_eq!(shutdown_editor_levels(&vec![]), [800, 1600, 2400, 3200]);
    let applications = vec![application("word", "Word 环境", "WINWORD.EXE")];
    assert_eq!(mode_options(&applications, false), ["自动模式", "固定 Office", "固定 CS2", "固定 Word 环境"]);
    assert_eq!(mode_options(&applications, true), ["Auto mode", "Fixed Office", "Fixed CS2", "Fixed Word"]);
}

#[test]
fn overview_reports_applied_and_pending_dpi() {
    let mut snapshot = AgentSnapshot {
        device_status: DeviceStatus::Ready,
        active_environment: Environment::Cs2,
        config_revision: 3,
        current_dpi: Some(800),
        desired_dpi: 800,
    };
    let shown = overview(&snapshot, false);
    assert_eq!(shown.connection, "设备已连接");
    assert_eq!(shown.environment, "CS 环境");
    assert_eq!(shown.current_dpi, "800");
    let banner = overview_banner(&snapshot, &shown.environment, "自动模式", false);
    assert_eq!(banner.title, "当前模式：自动模式");
    assert_eq!(banner.detail, "当前环境：CS 环境；配置已应用，当前 DPI 为 800。");

    snapshot.current_dpi = None;
    snapshot.desired_dpi = 1600;
    let shown = overview(&snapshot, true);
    assert_eq!(shown.current_dpi, "—");
    let banner = overview_banner(&snapshot, &shown.environment, "Auto mode", true);
    assert_eq!(banner.title, "Current mode: Auto mode (waiting to apply)");
    assert_eq!(banner.detail, "Active profile: CS2; saved. Device DPI: Unknown; target DPI: 1600.");
}
