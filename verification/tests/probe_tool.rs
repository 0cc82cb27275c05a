use pulsehub::discovery::{hidpp_interfaces, HidCollectionInfo, ReportLengths};
use pulsehub::hidpp::{DpiSensorInfo, HidppError, HidppFeature, HidppProbeResult};
use pulsehub::probe::{
    collection_lines, collection_model, g102_counts, parse_probe_arguments, probe_lines, summary_line,
    ProbeInvocation,
};

fn words(list: &[&str]) -> Vec<String> {
    list.iter().map(|word| (*word).to_owned()).collect()
}

fn collection(product_id: u16, usage_page: u16) -> HidCollectionInfo {
    HidCollectionInfo {
        vendor_id: 0x046d,
        product_id,
        release_number: 0x5200,
        manufacturer: Some("Logitech".to_owned()),
        product: Some(String::new()),
        serial_number: Some("ABC".to_owned()),
        usage_page,
        usage: 0x0001,
        interface_number: 1,
        bus_type: "Usb".to_owned(),
        report_descriptor_length: Some(67),
        report_lengths: Some(ReportLengths { input: 20, output: 20, feature: 0 }),
        open_error: None,
    }
}

#[test]
fn probe_switches_require_confirmed_writes() {
    assert_eq!(
        parse_probe_arguments(&words(&["--all"])),
        Ok(ProbeInvocation::Run { include_all: true, protocol_trace: false, requested_dpi: None })
    );
    assert_eq!(
        parse_probe_arguments(&words(&["--set-dpi", "1600", "--confirm-device-write"])),
        Ok(ProbeInvocation::Run { include_all: false, protocol_trace: false, requested_dpi: Some(1600) })
    );
    assert_eq!(
        parse_probe_arguments(&words(&["--set-dpi", "1600"])),
        Err("拒绝写入：--set-dpi 必须同时提供 --confirm-device-write".to_owned())
    );
    assert_eq!(
        parse_probe_arguments(&words(&["--confirm-device-write"])),
        Err("--confirm-device-write 只能与 --set-dpi 一起使用".to_owned())
    );
    assert_eq!(parse_probe_arguments(&words(&["--set-dpi", "70000"])), Err("无效 DPI 数值：70000".to_owned()));
    assert_eq!(parse_probe_arguments(&words(&["--set-dpi"])), Err("--set-dpi 后必须提供 DPI 数值".to_owned()));
    assert_eq!(parse_probe_arguments(&words(&["--help", "--bogus"])), Ok(ProbeInvocation::Help));
    assert_eq!(parse_probe_arguments(&words(&["--bogus"])), Err("未知参数：--bogus".to_owned()));
}

#[test]
fn collections_are_counted_and_reported() {
    let mut other = collection(0xc52b, 0x0001);
    other.vendor_id = 0x1234;
    let collections = vec![collection(0xc092, 0xff00), collection(0xc092, 0x0001), other.clone()];
    assert_eq!(g102_counts(&collections), (2, 1));
    assert_eq!(collection_model(&collections[0]), "G102/G203 候选");
    assert_eq!(collection_model(&other), "其他 HID 设备");
    assert_eq!(
        summary_line(3, 2, 1),
        "汇总：3 个 collection，2 个已知 G102/G203 collection，1 个厂商自定义候选接口。"
    );
    let mut warned = collection(0xc092, 0xff00);
    warned.open_error = Some("拒绝访问".to_owned());
    warned.report_lengths = None;
    assert_eq!(
        collection_lines(2, &warned),
        [
            "[2] G102/G203 候选",
            "  USB: 046d:c092 release=5200 bus=Usb",
            "  名称: manufacturer=Logitech product=<无> serial=<已隐藏>",
            "  Collection: interface=1 usage_page=0xff00 usage=0x0001",
            "  报告: 无法读取",
            "  读取警告: 拒绝访问",
            "",
        ]
    );
    assert_eq!(collection_lines(1, &collections[0])[4], "  报告: descriptor=67B input=20B output=20B feature=0B");
}

#[test]
fn hidpp_capabilities_are_reported() {
    let result = HidppProbeResult {
        protocol_major: 4,
        protocol_minor: 2,
        features: vec![HidppFeature { id: 0x2201, index: 0x0a, feature_type: 0, version: 1 }],
        dpi_sensors: vec![DpiSensorInfo {
            index: 0,
            minimum: 200,
            maximum: 8000,
            step: None,
            discrete_values: vec![400, 800],
            current: 800,
            default: 800,
        }],
        onboard_profiles: None,
        onboard_profile: None,
    };
    assert_eq!(
        probe_lines(&result),
        [
            "HID++ 协议：4.2，功能数：1",
            "  feature index=0x0a id=0x2201 type=0x00 version=1",
            "DPI 传感器 0：离散值 [400, 800]；当前 800；默认 800",
        ]
    );
}

#[test]
fn hidpp_interfaces_pair_the_short_and_long_collections_of_one_device() {
    let mut keyboard = collection(0xc092, 0x0001);
    keyboard.usage = 0x0006;
    let short = collection(0xc092, 0xff00);
    let mut long = collection(0xc092, 0xff00);
    long.usage = 0x0002;
    assert_eq!(hidpp_interfaces(&vec![keyboard.clone(), long.clone(), short.clone()]), Ok((2, 1)));
    assert_eq!(hidpp_interfaces(&vec![keyboard, short.clone()]), Err(HidppError::InterfaceNotFound));
    let mut other_serial = long;
    other_serial.serial_number = Some("XYZ".to_owned());
    assert_eq!(hidpp_interfaces(&vec![short, other_serial]), Err(HidppError::InterfaceNotFound));
}
