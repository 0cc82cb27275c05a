use std::time::Duration;

use pulsehub::discovery::{
    display_optional, display_serial, parse_report_lengths, read_unsigned, sort_collections, enumerate_collections, HidCollectionInfo,
    ReportLengths,
};
use pulsehub::g102::{
    activate_first_g102_onboard_mode, apply_first_g102_button_actions, probe_first_g102, read_first_g102_dpi, request_long, set_dpi_after_probe, set_first_g102_dpi, set_onboard_mode,
    set_sensor_dpi, write_failure_with_recovery, write_onboard_sector, HidppLink, Transport,
};
use pulsehub::hidpp::{
    build_office_profile_sector, build_profile_sector, crc_ccitt, encode_onboard_button, g102_office_button_actions,
    parse_dpi_list, parse_onboard_profile, parse_onboard_profiles, response_matches, validate_requested_dpi,
    validate_response, DpiSensorInfo, HidppError, HidppFeature, HidppProbeResult, OnboardButtonAction, OnboardMode, ProfileDpiSettings,
};

const G102_FIXTURE: &str = "\
# G102 LIGHTSYNC (046d:c092, release 5200), wired HID++ 2.0 answers
protocol_version_response=11 ff 00 18 04 02 00 00 00 00 00 00 00 00 00 00 00 00 00 00
dpi_list_response=11 ff 0a 18 00 00 32 e0 32 1f 40 00 00 00 00 00 00 00 00 00
dpi_current_response=11 ff 0a 28 00 0c 80 03 20 00 00 00 00 00 00 00 00 00 00 00
onboard_description_response=11 ff 0f 08 01 04 01 01 01 06 10 00 ff 02 00 00 00 00 00 00
onboard_mode_response=11 ff 0f 28 02 00 00 00 00 00 00 00 00 00 00 00 00 00 00 00
onboard_current_profile_response=11 ff 0f 48 00 00 00 00 00 00 00 00 00 00 00 00 00 00 00 00
";

fn fixture_frame(key: &str) -> Vec<u8> {
    let prefix = format!("{key}=");
    G102_FIXTURE
        .lines()
        .find_map(|line| line.strip_prefix(&prefix))
        .unwrap_or_else(|| panic!("fixture 缺少 {key}"))
        .split_ascii_whitespace()
        .map(|byte| u8::from_str_radix(byte, 16).expect("fixture 必须包含十六进制字节"))
        .collect()
}

struct RecordingTransport {
    response: Vec<u8>,
    request: Vec<u8>,
}

impl Transport for RecordingTransport {
    fn transact(&mut self, request: &[u8], _timeout: Duration) -> Result<Vec<u8>, HidppError> {
        self.request = request.to_vec();
        Ok(self.response.clone())
    }
}

#[derive(Default)]
struct EchoTransport {
    requests: Vec<Vec<u8>>,
}

impl Transport for EchoTransport {
    fn transact(&mut self, request: &[u8], _timeout: Duration) -> Result<Vec<u8>, HidppError> {
        self.requests.push(request.to_vec());
        Ok(request.to_vec())
    }
}

/// Answers each request from a queue of scripted responses.
struct ScriptedTransport {
    responses: Vec<Vec<u8>>,
    requests: Vec<Vec<u8>>,
}

impl Transport for ScriptedTransport {
    fn transact(&mut self, request: &[u8], _timeout: Duration) -> Result<Vec<u8>, HidppError> {
        self.requests.push(request.to_vec());
        if self.responses.is_empty() {
            Err(HidppError::Timeout)
        } else {
            Ok(self.responses.remove(0))
        }
    }
}

fn answer(request: [u8; 4], parameters: &[u8]) -> Vec<u8> {
    let mut response = vec![0x11, request[1], request[2], request[3]];
    response.extend_from_slice(parameters);
    response.resize(20, 0);
    response
}

#[test]
fn parses_numbered_input_output_and_feature_reports() {
    let descriptor = [
        0x85, 0x01, 0x75, 0x08, 0x95, 0x03, 0x81, 0x02, 0x95, 0x02, 0x91, 0x02, 0x85, 0x02, 0x75, 0x04, 0x95, 0x03,
        0xb1, 0x02,
    ];

    assert_eq!(parse_report_lengths(&descriptor), Ok(ReportLengths { input: 4, output: 3, feature: 3 }));
}

#[test]
fn accumulates_fields_for_the_same_report_id() {
    let descriptor = [0x75, 0x01, 0x95, 0x03, 0x81, 0x02, 0x75, 0x01, 0x95, 0x05, 0x81, 0x03];

    assert_eq!(parse_report_lengths(&descriptor).unwrap().input, 2);
}

#[test]
fn rejects_truncated_items() {
    assert!(parse_report_lengths(&[0x76, 0x08]).is_err());
    assert!(parse_report_lengths(&[0xfe, 0x04, 0x00, 0x01]).is_err());
}

#[test]
fn report_descriptor_errors_name_the_problem() {
    assert_eq!(parse_report_lengths(&[0x76, 0x08]), Err("截断的 HID 短项数据".to_owned()));
    assert_eq!(parse_report_lengths(&[0xfe]), Err("截断的 HID 长项头".to_owned()));
    assert_eq!(parse_report_lengths(&[0x85, 0x00]), Err("HID 描述符包含非法的 Report ID 0".to_owned()));
    assert_eq!(parse_report_lengths(&[0x86, 0x00, 0x01]), Err("HID Report ID 超出 u8 范围".to_owned()));
    assert_eq!(parse_report_lengths(&[0xb4]), Err("HID 全局状态栈下溢".to_owned()));
    assert_eq!(parse_report_lengths(&[0xa4]), Err("HID 全局状态栈未闭合".to_owned()));
    assert_eq!(parse_report_lengths(&[]), Ok(ReportLengths { input: 0, output: 0, feature: 0 }));
}

#[test]
fn push_and_pop_restore_global_items() {
    let descriptor = [
        0x75, 0x08, 0x95, 0x02, 0xa4, 0x75, 0x10, 0x95, 0x04, 0x81, 0x02, 0xb4, 0x91, 0x02,
    ];
    assert_eq!(parse_report_lengths(&descriptor), Ok(ReportLengths { input: 9, output: 3, feature: 0 }));
}

#[test]
fn long_items_are_skipped_whole() {
    let descriptor = [0xfe, 0x02, 0x00, 0xaa, 0xbb, 0x75, 0x08, 0x95, 0x01, 0xb1, 0x02];
    assert_eq!(parse_report_lengths(&descriptor), Ok(ReportLengths { input: 0, output: 0, feature: 2 }));
}

#[test]
fn item_payloads_are_little_endian() {
    assert_eq!(read_unsigned(&[]), 0);
    assert_eq!(read_unsigned(&[0x34, 0x12]), 0x1234);
    assert_eq!(read_unsigned(&[0x78, 0x56, 0x34, 0x12]), 0x1234_5678);
}

fn collection(vendor_id: u16, product_id: u16, interface_number: i32, usage_page: u16) -> HidCollectionInfo {
    HidCollectionInfo {
        vendor_id,
        product_id,
        release_number: 0x5200,
        manufacturer: None,
        product: None,
        serial_number: None,
        usage_page,
        usage: 1,
        interface_number,
        bus_type: "Usb".to_owned(),
        report_descriptor_length: None,
        report_lengths: None,
        open_error: None,
    }
}

#[test]
fn collections_are_classified_and_ordered() {
    let g102 = collection(0x046d, 0xc092, 1, 0xff00);
    assert!(g102.is_logitech());
    assert!(g102.is_known_g102());
    assert!(g102.is_vendor_defined());
    let other = collection(0x1234, 0xc092, 0, 0x0001);
    assert!(!other.is_known_g102());
    assert!(!other.is_vendor_defined());

    let sorted = sort_collections(vec![g102.clone(), other.clone(), collection(0x046d, 0xc092, 0, 0x0001)]);
    let keys: Vec<(u16, i32)> = sorted.iter().map(|c| (c.vendor_id, c.interface_number)).collect();
    assert_eq!(keys, [(0x046d, 0), (0x046d, 1), (0x1234, 0)]);
}

#[test]
fn enumeration_lists_each_listed_device_once() {
    let descriptor = vec![0x75, 0x01, 0x95, 0x03, 0x81, 0x02, 0x75, 0x01, 0x95, 0x05, 0x81, 0x03];
    let devices = vec![
        (collection(0x046d, 0xc092, 1, 0xff00), Err("access denied".to_owned())),
        (collection(0x1234, 0x0001, 0, 0x0001), Ok(descriptor.clone())),
        (collection(0x046d, 0xc092, 0, 0x0001), Ok(descriptor.clone())),
    ];
    let listed = enumerate_collections(false, devices.clone());
    assert_eq!(listed.len(), 2);
    assert_eq!(listed[0].interface_number, 0);
    assert_eq!(listed[0].report_lengths.as_ref().unwrap().input, 2);
    assert_eq!(listed[0].report_descriptor_length, Some(descriptor.len()));
    assert!(listed[0].open_error.is_none());
    assert_eq!(listed[1].open_error.as_deref(), Some("access denied"));
    assert!(listed[1].report_lengths.is_none());

    let everything = enumerate_collections(true, devices);
    assert_eq!(everything.len(), 3);
    assert_eq!(everything[2].vendor_id, 0x1234);
}

#[test]
fn probe_display_hides_serials() {
    assert_eq!(display_optional(Some("G102")), "G102");
    assert_eq!(display_optional(Some("")), "<无>");
    assert_eq!(display_optional(None), "<无>");
    assert_eq!(display_serial(Some("ABC123")), "<已隐藏>");
    assert_eq!(display_serial(None), "<无>");
}

#[test]
fn matches_long_response_to_short_request() {
    let request = [0x10, 0xff, 0x00, 0x08, 0x22, 0x01, 0x00];
    let response = [0x11, 0xff, 0x00, 0x08, 0x0a, 0x00, 0x01, 0, 0, 0, 0, 0, 0, 0, 0, 0, 0, 0, 0, 0];
    assert!(response_matches(&request, &response));
    assert!(validate_response(&request, &response).is_ok());
}

#[test]
fn decodes_continuous_dpi_range() {
    let bytes = [0x00, 0x32, 0xe0, 0x32, 0x1f, 0x40, 0x00, 0x00];
    assert_eq!(parse_dpi_list(&bytes).unwrap(), (50, 8000, Some(50), vec![50, 8000]));
}

#[test]
fn surfaces_hidpp_device_error() {
    let request = [0x10, 0xff, 0x0a, 0x28, 0, 0, 0];
    let response = [0x10, 0xff, 0xff, 0x0a, 0x28, 0x09, 0];
    assert!(matches!(validate_response(&request, &response), Err(HidppError::Device { code: 0x09, .. })));
}

#[test]
fn device_error_message_names_the_code() {
    let request = [0x10, 0xff, 0x0a, 0x28, 0, 0, 0];
    let response = [0x10, 0xff, 0xff, 0x0a, 0x28, 0x09, 0];
    let error = validate_response(&request, &response).unwrap_err();
    assert_eq!(error.message(), "设备返回 HID++ 错误 0x09（不支持）");
}

#[test]
fn validates_redacted_g102_fixture() {
    let protocol = fixture_frame("protocol_version_response");
    assert_eq!(&protocol[4..6], &[4, 2]);

    let dpi_list = fixture_frame("dpi_list_response");
    assert_eq!(parse_dpi_list(&dpi_list[5..]).unwrap(), (50, 8000, Some(50), vec![50, 8000]));

    let current = fixture_frame("dpi_current_response");
    assert_eq!(u16::from_be_bytes([current[5], current[6]]), 3200);
    assert_eq!(u16::from_be_bytes([current[7], current[8]]), 800);
    assert!(!G102_FIXTURE.contains("serial"));
    assert!(!G102_FIXTURE.contains("path"));
}

#[test]
fn parses_onboard_profile_capabilities_from_fixture() {
    let description = fixture_frame("onboard_description_response");
    let mode = fixture_frame("onboard_mode_response");
    let current = fixture_frame("onboard_current_profile_response");
    let info = parse_onboard_profiles(&description[4..], mode[4], &current[4..]).unwrap();

    assert_eq!(info.mode, OnboardMode::Host);
    assert_eq!(info.profile_count, 1);
    assert_eq!(info.rom_profile_count, 1);
    assert_eq!(info.button_count, 6);
    assert_eq!(info.sector_count, 16);
    assert_eq!(info.sector_size, 255);
    assert_eq!(info.current_profile, 0);
}

#[test]
fn validates_requested_dpi_against_runtime_range() {
    let sensor = DpiSensorInfo {
        index: 0,
        minimum: 50,
        maximum: 8000,
        step: Some(50),
        discrete_values: vec![50, 8000],
        current: 3200,
        default: 800,
    };
    assert!(validate_requested_dpi(&sensor, 800).is_ok());
    assert!(matches!(validate_requested_dpi(&sensor, 25), Err(HidppError::InvalidDpi { .. })));
    assert!(matches!(validate_requested_dpi(&sensor, 825), Err(HidppError::InvalidDpi { .. })));
}

#[test]
fn encodes_set_dpi_as_function_three() {
    let mut transport = HidppLink::new(RecordingTransport {
        response: vec![0x11, 0xff, 0x0a, 0x38, 0x00, 0x03, 0x20, 0, 0, 0, 0, 0, 0, 0, 0, 0, 0, 0, 0, 0],
        request: Vec::new(),
    });
    set_sensor_dpi(&mut transport, 0x0a, 0, 800).unwrap();
    assert_eq!(transport.device().request, [0x10, 0xff, 0x0a, 0x38, 0x00, 0x03, 0x20]);
}

#[test]
fn encodes_activate_onboard_mode_as_function_one() {
    let mut transport = HidppLink::new(RecordingTransport { response: vec![0x10, 0xff, 0x0f, 0x18, 0x01, 0x00, 0x00], request: Vec::new() });
    set_onboard_mode(&mut transport, 0x0f, OnboardMode::Onboard).unwrap();
    assert_eq!(transport.device().request, [0x10, 0xff, 0x0f, 0x18, 0x01, 0, 0]);
}

#[test]
fn unknown_onboard_mode_is_refused_before_sending() {
    let mut transport = HidppLink::new(RecordingTransport { response: Vec::new(), request: Vec::new() });
    let error = set_onboard_mode(&mut transport, 0x0f, OnboardMode::Unknown(7)).unwrap_err();
    assert_eq!(error, HidppError::InvalidResponse("拒绝设置未知板载模式 0x07".to_owned()));
    assert!(transport.device().request.is_empty());
}

#[test]
fn crc_matches_ccitt_false_check_value() {
    assert_eq!(crc_ccitt(b"123456789"), 0x29b1);
}

#[test]
fn encodes_memory_read_as_long_report() {
    let mut transport = HidppLink::new(RecordingTransport {
        response: vec![0x11, 0xff, 0x0f, 0x58, 0, 0, 0, 0, 0, 0, 0, 0, 0, 0, 0, 0, 0, 0, 0, 0],
        request: Vec::new(),
    });
    let mut parameters = [0_u8; 16];
    parameters[..4].copy_from_slice(&[0x00, 0x01, 0x00, 0x10]);
    request_long(&mut transport, 0x0f, 5, parameters).unwrap();

    assert_eq!(transport.device().request[0], 0x11);
    assert_eq!(&transport.device().request[1..8], &[0xff, 0x0f, 0x58, 0, 1, 0, 0x10]);
    assert_eq!(transport.device().request.len(), 20);
}

#[test]
fn parses_profile_dpi_slots_and_button_actions() {
    let mut sector = vec![0_u8; 255];
    sector[0] = 1;
    sector[1] = 1;
    sector[2] = 2;
    for (offset, dpi) in [400_u16, 800, 1600, 3200, 0].into_iter().enumerate() {
        let start = 3 + offset * 2;
        sector[start..start + 2].copy_from_slice(&dpi.to_le_bytes());
    }
    sector[32..36].copy_from_slice(&[0x80, 0x01, 0x00, 0x01]);
    sector[36..40].copy_from_slice(&[0x80, 0x02, 0x02, 0x04]);
    sector[40..44].copy_from_slice(&[0x80, 0x03, 0x00, 0xe9]);
    sector[44..48].copy_from_slice(&[0x90, 0x05, 0x00, 0x00]);
    sector[48..52].copy_from_slice(&[0xff, 0, 0, 0]);
    sector[52..56].copy_from_slice(&[0x00, 0x03, 0, 0x20]);

    let profile = parse_onboard_profile(1, true, &sector, 6).unwrap().unwrap();
    assert_eq!(profile.report_rate_hz, 1000);
    assert_eq!(profile.dpi_slots, [400, 800, 1600, 3200]);
    assert_eq!(profile.buttons[0], OnboardButtonAction::Mouse { button: Some(1), mask: 1 });
    assert!(matches!(profile.buttons[3], OnboardButtonAction::Special { code: 5, .. }));
    assert_eq!(profile.buttons[4], OnboardButtonAction::Disabled);
}

#[test]
fn encodes_confirmed_office_button_mapping() {
    let encoded = g102_office_button_actions()
        .iter()
        .map(encode_onboard_button)
        .collect::<Result<Vec<_>, _>>()
        .unwrap();

    assert_eq!(
        encoded,
        [
            [0x80, 0x01, 0x00, 0x01],
            [0x80, 0x01, 0x00, 0x02],
            [0x80, 0x02, 0x00, 0x2a],
            [0x80, 0x02, 0x01, 0x19],
            [0x80, 0x02, 0x01, 0x06],
            [0x80, 0x02, 0x01, 0x04],
        ]
    );

    assert!(encode_onboard_button(&OnboardButtonAction::Macro { page: 1, offset: 2 }).is_err());
}

#[test]
fn patches_only_office_buttons_and_crc() {
    let mut original = vec![0x5a_u8; 255];
    let current = [
        [0x80, 0x01, 0x00, 0x01],
        [0x80, 0x01, 0x00, 0x02],
        [0x80, 0x02, 0x00, 0xe1],
        [0x80, 0x02, 0x01, 0x19],
        [0x80, 0x02, 0x01, 0x06],
        [0x80, 0x02, 0x00, 0x39],
    ];
    for (index, binding) in current.iter().enumerate() {
        let start = 32 + index * 4;
        original[start..start + 4].copy_from_slice(binding);
    }
    let payload_length = original.len() - 2;
    let crc = crc_ccitt(&original[..payload_length]);
    original[payload_length..].copy_from_slice(&crc.to_be_bytes());

    let (desired, changed) = build_office_profile_sector(&original, 6).unwrap();
    assert_eq!(changed, [2, 5]);
    assert_eq!(&desired[40..44], &[0x80, 0x02, 0x00, 0x2a]);
    assert_eq!(&desired[52..56], &[0x80, 0x02, 0x01, 0x04]);
    assert_eq!(&desired[..32], &original[..32]);
    assert_eq!(&desired[56..253], &original[56..253]);
    assert_eq!(u16::from_be_bytes([desired[253], desired[254]]), crc_ccitt(&desired[..253]));
}

#[test]
fn patches_default_dpi_slot_with_buttons_in_one_sector() {
    let mut original = vec![0_u8; 255];
    original[1] = 2;
    original[7..9].copy_from_slice(&800_u16.to_le_bytes());
    for (index, action) in g102_office_button_actions().iter().enumerate() {
        let start = 32 + index * 4;
        original[start..start + 4].copy_from_slice(&encode_onboard_button(action).unwrap());
    }
    let crc = crc_ccitt(&original[..253]);
    original[253..].copy_from_slice(&crc.to_be_bytes());

    let (desired, changed_buttons, dpi_changed) = build_profile_sector(
        &original,
        6,
        &g102_office_button_actions(),
        Some(ProfileDpiSettings::Levels { dpi: 3200, levels: [800, 1600, 2400, 3200] }),
    )
    .unwrap();

    assert!(dpi_changed);
    assert!(changed_buttons.is_empty());
    assert_eq!(desired[1], 0);
    assert_eq!(&desired[3..11], &[0x80, 0x0c, 0x20, 0x03, 0x40, 0x06, 0x60, 0x09]);
    assert_eq!(&desired[11..13], &[0, 0]);
    assert_eq!(&desired[32..56], &original[32..56]);
    assert_eq!(crc_ccitt(&desired[..253]), u16::from_be_bytes([desired[253], desired[254]]));
}

#[test]
fn rebuilding_a_patched_sector_changes_nothing() {
    let mut original = vec![0_u8; 255];
    original[1] = 2;
    original[7..9].copy_from_slice(&800_u16.to_le_bytes());
    let crc = crc_ccitt(&original[..253]);
    original[253..].copy_from_slice(&crc.to_be_bytes());
    let dpi = Some(ProfileDpiSettings::Single(1600));
    let (first, _, _) = build_profile_sector(&original, 6, &g102_office_button_actions(), dpi).unwrap();
    let (second, changed, dpi_changed) = build_profile_sector(&first, 6, &g102_office_button_actions(), dpi).unwrap();
    assert_eq!(first, second);
    assert!(changed.is_empty());
    assert!(!dpi_changed);
}

#[test]
fn writes_255_byte_sector_with_guarded_transaction() {
    let mut sector = vec![0_u8; 255];
    let crc = crc_ccitt(&sector[..253]);
    sector[253..].copy_from_slice(&crc.to_be_bytes());
    let mut transport = HidppLink::new(EchoTransport::default());

    write_onboard_sector(&mut transport, 0x0f, 1, 255, &sector).unwrap();

    assert_eq!(transport.device().requests.len(), 18);
    assert_eq!(transport.device().requests[0][3], 0x68);
    assert_eq!(&transport.device().requests[0][4..10], &[0, 1, 0, 0, 0, 255]);
    assert!(transport.device().requests[1..17].iter().all(|request| request[0] == 0x11 && request[3] == 0x78));
    assert_eq!(transport.device().requests[16][19], 0);
    assert_eq!(transport.device().requests[17][0], 0x10);
    assert_eq!(transport.device().requests[17][3], 0x88);
}

#[test]
fn refuses_sector_writes_with_bad_crc_before_sending() {
    let sector = vec![0_u8; 255];
    let mut transport = HidppLink::new(EchoTransport::default());
    assert!(write_onboard_sector(&mut transport, 0x0f, 1, 255, &sector).is_err());
    assert!(write_onboard_sector(&mut transport, 0x0f, 1, 254, &sector).is_err());
    assert!(transport.device().requests.is_empty());
}

#[test]
fn write_failure_reports_the_restore_outcome() {
    let error = write_failure_with_recovery(HidppError::Timeout, Ok(()));
    assert_eq!(error, HidppError::InvalidResponse("板载写入失败，已恢复并验证原配置：等待 HID++ 响应超时".to_owned()));
    let error = write_failure_with_recovery(HidppError::Timeout, Err(HidppError::InterfaceNotFound));
    assert_eq!(
        error.message(),
        "无效 HID++ 响应：板载写入失败且原配置恢复未验证；写入错误：等待 HID++ 响应超时；恢复错误：未找到匹配的 G102 HID++ 短/长报告接口"
    );
}

#[test]
fn onboard_writes_refuse_unverified_products() {
    let mut transport = HidppLink::new(EchoTransport::default());
    let error = apply_first_g102_button_actions(&mut transport, 0xc084, 0x5200, &g102_office_button_actions())
        .unwrap_err();
    assert_eq!(
        error,
        HidppError::InvalidResponse("拒绝板载写入：仅验证过 046d:c092 release=5200，当前为 046d:c084 release=5200".to_owned())
    );
    assert!(transport.device().requests.is_empty());
}

#[test]
fn reads_current_dpi_through_the_feature_table() {
    let mut transport = HidppLink::new(ScriptedTransport {
        responses: vec![
            answer([0x10, 0xff, 0x00, 0x08], &[0x0a, 0x00, 0x01]),
            answer([0x10, 0xff, 0x0a, 0x08], &[0x01]),
            answer([0x10, 0xff, 0x0a, 0x28], &[0x00, 0x0c, 0x80, 0x03, 0x20]),
        ],
        requests: Vec::new(),
    });
    assert_eq!(read_first_g102_dpi(&mut transport), Ok(3200));
    assert_eq!(transport.device().requests[0], [0x10, 0xff, 0x00, 0x08, 0x22, 0x01, 0x00]);
    assert_eq!(transport.device().requests[2], [0x10, 0xff, 0x0a, 0x28, 0x00, 0x00, 0x00]);
}

#[test]
fn dpi_write_is_skipped_when_already_current_and_rejected_when_invalid() {
    let probe_answers = || {
        vec![
            answer([0x10, 0xff, 0x00, 0x18], &[0x04, 0x02]),
            answer([0x10, 0xff, 0x00, 0x08], &[0x01, 0x00, 0x00]),
            answer([0x10, 0xff, 0x01, 0x08], &[0x01]),
            answer([0x10, 0xff, 0x01, 0x18], &[0x00, 0x00, 0x00]),
            answer([0x10, 0xff, 0x01, 0x18], &[0x22, 0x01, 0x00]),
            answer([0x10, 0xff, 0x00, 0x08], &[0x0a, 0x00, 0x01]),
            answer([0x10, 0xff, 0x0a, 0x08], &[0x01]),
            answer([0x10, 0xff, 0x0a, 0x18], &[0x00, 0x00, 0x32, 0xe0, 0x32, 0x1f, 0x40, 0x00, 0x00]),
            answer([0x10, 0xff, 0x0a, 0x28], &[0x00, 0x0c, 0x80, 0x03, 0x20]),
        ]
    };
    let mut transport = HidppLink::new(ScriptedTransport { responses: probe_answers(), requests: Vec::new() });
    let result = set_first_g102_dpi(&mut transport, 3200).unwrap();
    assert!(!result.changed);
    assert_eq!((result.before, result.after), (3200, 3200));
    assert!(transport.device().requests.iter().all(|request| request[3] != 0x38));

    let mut transport = HidppLink::new(ScriptedTransport { responses: probe_answers(), requests: Vec::new() });
    assert!(matches!(set_first_g102_dpi(&mut transport, 3210), Err(HidppError::InvalidDpi { requested: 3210, .. })));
    assert!(transport.device().requests.iter().all(|request| request[3] != 0x38));
}

#[test]
fn onboard_mode_is_switched_only_when_needed() {
    let already = vec![
        answer([0x10, 0xff, 0x00, 0x08], &[0x0f, 0x00, 0x00]),
        answer([0x10, 0xff, 0x0f, 0x28], &[0x01]),
        answer([0x10, 0xff, 0x0f, 0x28], &[0x01]),
    ];
    let mut transport = HidppLink::new(ScriptedTransport { responses: already, requests: Vec::new() });
    let result = activate_first_g102_onboard_mode(&mut transport, 0xc092, 0x5200).unwrap();
    assert_eq!((result.before, result.after), (OnboardMode::Onboard, OnboardMode::Onboard));
    assert_eq!(transport.device().requests.len(), 3);
    assert!(transport.device().requests.iter().all(|request| request[3] != 0x18));

    let host = vec![
        answer([0x10, 0xff, 0x00, 0x08], &[0x0f, 0x00, 0x00]),
        answer([0x10, 0xff, 0x0f, 0x28], &[0x02]),
        answer([0x10, 0xff, 0x0f, 0x18], &[]),
        answer([0x10, 0xff, 0x0f, 0x28], &[0x01]),
    ];
    let mut transport = HidppLink::new(ScriptedTransport { responses: host, requests: Vec::new() });
    let result = activate_first_g102_onboard_mode(&mut transport, 0xc092, 0x5200).unwrap();
    assert_eq!((result.before, result.after), (OnboardMode::Host, OnboardMode::Onboard));
    assert_eq!(transport.device().requests[2], [0x10, 0xff, 0x0f, 0x18, 0x01, 0x00, 0x00]);

    let mut transport = HidppLink::new(ScriptedTransport { responses: Vec::new(), requests: Vec::new() });
    assert!(activate_first_g102_onboard_mode(&mut transport, 0xc084, 0x5200).is_err());
    assert!(transport.device().requests.is_empty());
}

fn g102_probe_answers() -> Vec<Vec<u8>> {
    vec![
        answer([0x10, 0xff, 0x00, 0x18], &[0x04, 0x02]),
        answer([0x10, 0xff, 0x00, 0x08], &[0x01, 0x00, 0x00]),
        answer([0x10, 0xff, 0x01, 0x08], &[0x01]),
        answer([0x10, 0xff, 0x01, 0x18], &[0x00, 0x00, 0x00]),
        answer([0x10, 0xff, 0x01, 0x18], &[0x22, 0x01, 0x00]),
        answer([0x10, 0xff, 0x00, 0x08], &[0x0a, 0x00, 0x01]),
        answer([0x10, 0xff, 0x0a, 0x08], &[0x01]),
        answer([0x10, 0xff, 0x0a, 0x18], &[0x00, 0x00, 0x32, 0xe0, 0x32, 0x1f, 0x40, 0x00, 0x00]),
        answer([0x10, 0xff, 0x0a, 0x28], &[0x00, 0x0c, 0x80, 0x03, 0x20]),
    ]
}

#[test]
fn dpi_change_is_set_and_confirmed_by_reading_back() {
    let mut responses = g102_probe_answers();
    responses.push(answer([0x10, 0xff, 0x0a, 0x38], &[0x00, 0x06, 0x40]));
    responses.push(answer([0x10, 0xff, 0x0a, 0x28], &[0x00, 0x06, 0x40, 0x03, 0x20]));
    let mut transport = HidppLink::new(ScriptedTransport { responses, requests: Vec::new() });
    let result = set_first_g102_dpi(&mut transport, 1600).unwrap();
    assert!(result.changed);
    assert_eq!((result.sensor_index, result.before, result.requested, result.after), (0, 3200, 1600, 1600));
    assert_eq!(transport.device().requests[9], [0x10, 0xff, 0x0a, 0x38, 0x00, 0x06, 0x40]);

    let mut responses = g102_probe_answers();
    responses.push(answer([0x10, 0xff, 0x0a, 0x38], &[0x00, 0x06, 0x40]));
    responses.push(answer([0x10, 0xff, 0x0a, 0x28], &[0x00, 0x03, 0x20, 0x03, 0x20]));
    let mut transport = HidppLink::new(ScriptedTransport { responses, requests: Vec::new() });
    assert_eq!(
        set_first_g102_dpi(&mut transport, 1600),
        Err(HidppError::InvalidResponse("DPI 写后回读不一致：请求 1600，设备返回 800".to_owned()))
    );
}

#[test]
fn dpi_set_refuses_a_probe_result_without_sensors() {
    let root = HidppFeature { id: 0x0000, index: 0, feature_type: 0, version: 0 };
    let dpi = HidppFeature { id: 0x2201, index: 0x0a, feature_type: 0, version: 1 };
    let probed = HidppProbeResult {
        protocol_major: 4,
        protocol_minor: 2,
        features: vec![root.clone()],
        dpi_sensors: Vec::new(),
        onboard_profiles: None,
        onboard_profile: None,
    };
    let mut transport = HidppLink::new(ScriptedTransport { responses: Vec::new(), requests: Vec::new() });
    assert_eq!(
        set_dpi_after_probe(&mut transport, &probed, 800),
        Err(HidppError::InvalidResponse("设备未公开 ADJUSTABLE_DPI (0x2201)".to_owned()))
    );
    let probed = HidppProbeResult { features: vec![root, dpi], ..probed };
    assert_eq!(
        set_dpi_after_probe(&mut transport, &probed, 800),
        Err(HidppError::InvalidResponse("设备没有 DPI 传感器".to_owned()))
    );
    assert!(transport.device().requests.is_empty());
}

#[test]
fn onboard_mode_read_back_must_report_onboard() {
    let answers = vec![
        answer([0x10, 0xff, 0x00, 0x08], &[0x0f, 0x00, 0x00]),
        answer([0x10, 0xff, 0x0f, 0x28], &[0x02]),
        answer([0x10, 0xff, 0x0f, 0x18], &[]),
        answer([0x10, 0xff, 0x0f, 0x28], &[0x02]),
    ];
    let mut transport = HidppLink::new(ScriptedTransport { responses: answers, requests: Vec::new() });
    assert_eq!(
        activate_first_g102_onboard_mode(&mut transport, 0xc092, 0x5200),
        Err(HidppError::InvalidResponse("板载模式写后回读不一致：设备返回 Host".to_owned()))
    );
}

#[test]
fn probe_refuses_old_protocols_and_oversized_feature_tables() {
    let old = vec![answer([0x10, 0xff, 0x00, 0x18], &[0x01, 0x00])];
    let mut transport = HidppLink::new(ScriptedTransport { responses: old, requests: Vec::new() });
    assert_eq!(
        probe_first_g102(&mut transport),
        Err(HidppError::InvalidResponse("目标设备报告 HID++ 1.0，需要 2.0 或更高版本".to_owned()))
    );
    assert_eq!(transport.device().requests.len(), 1);

    let oversized = vec![
        answer([0x10, 0xff, 0x00, 0x18], &[0x04, 0x02]),
        answer([0x10, 0xff, 0x00, 0x08], &[0x01, 0x00, 0x00]),
        answer([0x10, 0xff, 0x01, 0x08], &[65]),
    ];
    let mut transport = HidppLink::new(ScriptedTransport { responses: oversized, requests: Vec::new() });
    assert_eq!(
        probe_first_g102(&mut transport),
        Err(HidppError::InvalidResponse("功能数量 65 超过安全上限 64".to_owned()))
    );
    assert_eq!(transport.device().requests.len(), 3);

    let hidden = vec![
        answer([0x10, 0xff, 0x00, 0x18], &[0x04, 0x02]),
        answer([0x10, 0xff, 0x00, 0x08], &[0x00, 0x00, 0x00]),
    ];
    let mut transport = HidppLink::new(ScriptedTransport { responses: hidden, requests: Vec::new() });
    assert_eq!(
        probe_first_g102(&mut transport),
        Err(HidppError::InvalidResponse("设备未公开 Feature Set (0x0001)".to_owned()))
    );
}
