use pulsehub::config::{ButtonActionConfig, ConfigDocument, SelectionMode, ApplicationProfileConfig};
use pulsehub::gui::{
    action_from_id, action_identity, apply_mapping_selections, captured_keyboard_action, connection_label,
    control_label, is_revision_conflict, keyboard_action_label, keyboard_usage_from_key, keyboard_usage_label,
    localize_profile_name, original_action, selection_mode_from_gui, selection_mode_from_label,
    selection_mode_label, selection_mode_label_for_config, should_prompt_before_close, validate_custom_dpi,
};
use pulsehub::ipc::DeviceStatus;

fn word(config: &ConfigDocument) -> ApplicationProfileConfig {
    ApplicationProfileConfig {
        id: "winword".to_owned(),
        name: "Word 环境".to_owned(),
        executable_path: r"C:\Program Files\Microsoft Office\root\Office16\WINWORD.EXE".to_owned(),
        process_name: "WINWORD.EXE".to_owned(),
        profile: config.profiles.cs2.clone(),
    }
}

#[test]
fn recognizes_revision_conflict_without_matching_other_errors() {
    assert!(is_revision_conflict("\"PH-IPC-CONFLICT\"：配置修订冲突"));
    assert!(!is_revision_conflict("\"PH-IPC-BUSY\"：设备协调者响应超时"));
}

#[test]
fn captures_single_keys_and_modifier_chords() {
    assert_eq!(captured_keyboard_action("a", true, false, false, false), Ok((0x04, 0x01, "Ctrl + A".to_owned())));
    assert_eq!(captured_keyboard_action("Backspace", false, false, false, false), Ok((0x2a, 0, "Backspace".to_owned())));
    assert_eq!(keyboard_usage_from_key("中"), None);
}

#[test]
fn key_capture_covers_letters_digits_and_function_keys() {
    assert_eq!(keyboard_usage_from_key("Z"), Some(0x1d));
    assert_eq!(keyboard_usage_from_key("0"), Some(0x27));
    assert_eq!(keyboard_usage_from_key("\u{f704}"), Some(0x3a));
    assert_eq!(keyboard_usage_from_key("Down"), Some(0x51));
    assert_eq!(keyboard_usage_from_key(""), None);
    assert_eq!(keyboard_usage_label(0x3a), "F1");
    assert_eq!(keyboard_usage_label(0x1e), "1");
    assert_eq!(keyboard_usage_label(0x68), "HID 0x68");
    assert_eq!(keyboard_action_label(0x06, 0x0f), "Ctrl + Shift + Alt + Win + C");
    assert_eq!(
        captured_keyboard_action("中", false, false, false, false),
        Err("当前 G102 板载格式不支持按键“中”。请换用常规键盘按键。".to_owned())
    );
}

#[test]
fn custom_dpi_respects_device_range_and_step() {
    assert_eq!(validate_custom_dpi(" 1250 ", 50, 8000, 50), Ok(1250));
    assert!(validate_custom_dpi("1255", 50, 8000, 50).is_err());
    assert!(validate_custom_dpi("9000", 50, 8000, 50).is_err());
    assert!(validate_custom_dpi("fast", 50, 8000, 50).is_err());
}

#[test]
fn custom_dpi_messages_and_signs() {
    assert_eq!(validate_custom_dpi("fast", 50, 8000, 50), Err("请输入只包含数字的 DPI 值。".to_owned()));
    assert_eq!(validate_custom_dpi("1255", 50, 8000, 50), Err("请输入 50–8000 且符合 50 DPI 步进的值。".to_owned()));
    assert_eq!(validate_custom_dpi("+800", 50, 8000, 0), Ok(800));
    assert_eq!(validate_custom_dpi("-5", -10, 10, 5), Ok(-5));
    assert_eq!(validate_custom_dpi("-5", 0, 10, 1), Err("请输入 0–10 且符合 1 DPI 步进的值。".to_owned()));
    assert!(validate_custom_dpi("99999999999", 0, 10, 1).is_err());
}

#[test]
fn mapping_selection_updates_draft_and_keeps_primary_clicks_valid() {
    let mut config = ConfigDocument::default();
    apply_mapping_selections(
        &mut config.profiles.office.button_mappings,
        &[("g102:side_back".to_owned(), "key:6:1".to_owned())],
    )
    .unwrap();
    config.validate().unwrap();
    let side_back = config
        .profiles
        .office
        .button_mappings
        .iter()
        .find(|mapping| mapping.physical_control == "g102:side_back")
        .unwrap();
    assert!(matches!(side_back.action, ButtonActionConfig::OnboardKeyboard { usage: 0x06, modifiers: 1, .. }));
}

#[test]
fn mapping_selection_stops_at_the_first_bad_choice() {
    let mut config = ConfigDocument::default();
    let result = apply_mapping_selections(
        &mut config.profiles.office.button_mappings,
        &[
            ("g102:middle".to_owned(), "disabled".to_owned()),
            ("g102:wheel".to_owned(), "left".to_owned()),
            ("g102:dpi".to_owned(), "disabled".to_owned()),
        ],
    );
    assert_eq!(result, Err("配置缺少按键 g102:wheel".to_owned()));
    assert_eq!(config.profiles.office.button_mappings[2].action, ButtonActionConfig::Disabled);
    assert_ne!(config.profiles.office.button_mappings[5].action, ButtonActionConfig::Disabled);
}

#[test]
fn action_ids_parse_keys_and_mouse_functions() {
    assert_eq!(
        action_from_id("side_back"),
        Ok(ButtonActionConfig::LogicalControl { value: "mouse:back".to_owned() })
    );
    assert_eq!(
        action_from_id("key:42:0"),
        Ok(ButtonActionConfig::OnboardKeyboard { usage_page: 7, usage: 42, modifiers: 0 })
    );
    assert_eq!(action_from_id("key:0:0"), Err("无效的键盘动作：key:0:0".to_owned()));
    assert_eq!(action_from_id("key:4:1:2"), Err("无效的键盘动作：key:4:1:2".to_owned()));
    assert_eq!(action_from_id("key:4"), Err("无效的键盘动作：key:4".to_owned()));
    assert_eq!(action_from_id("wheel"), Err("不支持的按键动作：wheel".to_owned()));
}

#[test]
fn action_identity_round_trips_through_action_ids() {
    let action = ButtonActionConfig::OnboardKeyboard { usage_page: 7, usage: 6, modifiers: 1 };
    let (id, label, editable) = action_identity(&action, true);
    assert_eq!((id.as_str(), label.as_str(), editable), ("key:6:1", "Ctrl + C", true));
    assert_eq!(action_from_id(&id), Ok(action));
    let (id, label, _) = action_identity(&ButtonActionConfig::LogicalControl { value: "mouse:dpi_cycle".to_owned() }, false);
    assert_eq!((id.as_str(), label.as_str()), ("dpi_cycle", "原本 DPI 切换"));
    let (id, _, editable) = action_identity(&ButtonActionConfig::OnboardConsumer { usage: 0xe9 }, true);
    assert_eq!((id.as_str(), editable), ("custom", false));
}

#[test]
fn close_only_prompts_for_dirty_drafts() {
    assert!(!should_prompt_before_close(false));
    assert!(should_prompt_before_close(true));
}

#[test]
fn selection_mode_labels_round_trip() {
    for mode in [SelectionMode::Auto, SelectionMode::Office, SelectionMode::Cs2] {
        assert_eq!(selection_mode_from_label(selection_mode_label(mode)), Ok(mode));
    }
    assert!(selection_mode_from_label("未知").is_err());
    let mut config = ConfigDocument::default();
    config.applications.push(word(&config));
    assert_eq!(
        selection_mode_from_gui("固定 Word 环境", &config.applications),
        Ok((SelectionMode::Application, Some("winword".to_owned())))
    );
}

#[test]
fn configuration_labels_name_the_fixed_application() {
    let mut config = ConfigDocument::default();
    assert_eq!(selection_mode_label_for_config(&config, true), "Auto mode");
    config.applications.push(word(&config));
    config.selection.mode = SelectionMode::Application;
    config.selection.fixed_application_id = Some("winword".to_owned());
    assert_eq!(selection_mode_label_for_config(&config, false), "固定 Word 环境");
    assert_eq!(selection_mode_label_for_config(&config, true), "Fixed Word");
    assert_eq!(localize_profile_name("办公环境", true), "Office");
    assert_eq!(localize_profile_name("CS2 环境", true), "CS2");
    assert_eq!(localize_profile_name("办公环境", false), "办公环境");
}

#[test]
fn device_and_control_labels() {
    assert_eq!(connection_label(DeviceStatus::Ready, true), "Device connected");
    assert_eq!(connection_label(DeviceStatus::Busy, false), "设备忙");
    assert_eq!(control_label("g102:dpi", true), "DPI button (G6)");
    assert_eq!(control_label("g102:other", false), "其他按键");
    assert_eq!(original_action("g102:side_back", true), ("side_back", "Mouse back"));
    assert_eq!(original_action("g102:left", false), ("disabled", "禁用"));
}
