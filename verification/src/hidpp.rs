//! Logitech HID++ 2.0: report framing, response matching, DPI and onboard
//! profile decoding, CRC-protected profile sector patching, and the device
//! transactions built on a transport.

use core::time::Duration;
use vstd::prelude::*;
use vstd::string::*;

use crate::fmt::{decimal_text, hex_text, spec_decimal, spec_hex, zero_pad};

verus! {

pub const REPORT_ID_SHORT: u8 = 0x10;
pub const REPORT_ID_LONG: u8 = 0x11;
pub const WIRED_DEVICE_INDEX: u8 = 0xff;
pub const SOFTWARE_ID: u8 = 0x08;
pub const ROOT_FEATURE_INDEX: u8 = 0x00;
pub const FEATURE_SET_ID: u16 = 0x0001;
pub const ADJUSTABLE_DPI_ID: u16 = 0x2201;
pub const ONBOARD_PROFILES_ID: u16 = 0x8100;
pub const MAX_FEATURE_COUNT: u8 = 64;

#[derive(Debug, Clone, PartialEq, Eq, Structural)]
pub struct HidppFeature {
    pub id: u16,
    pub index: u8,
    pub feature_type: u8,
    pub version: u8,
}

#[derive(Debug, Clone, PartialEq, Eq)]
pub struct DpiSensorInfo {
    pub index: u8,
    pub minimum: u16,
    pub maximum: u16,
    pub step: Option<u16>,
    pub discrete_values: Vec<u16>,
    pub current: u16,
    pub default: u16,
}

#[derive(Debug, Clone, PartialEq, Eq)]
pub struct HidppProbeResult {
    pub protocol_major: u8,
    pub protocol_minor: u8,
    pub features: Vec<HidppFeature>,
    pub dpi_sensors: Vec<DpiSensorInfo>,
    pub onboard_profiles: Option<OnboardProfilesInfo>,
    pub onboard_profile: Option<OnboardProfileSnapshot>,
}

#[derive(Debug, Clone, Copy, PartialEq, Eq, Structural)]
pub enum OnboardMode {
    NoChange,
    Onboard,
    Host,
    Unknown(u8),
}

/// The mode a `GET_ONBOARD_MODE` byte denotes.
pub open spec fn spec_onboard_mode(value: u8) -> OnboardMode {
    if value == 0 {
        OnboardMode::NoChange
    } else if value == 1 {
        OnboardMode::Onboard
    } else if value == 2 {
        OnboardMode::Host
    } else {
        OnboardMode::Unknown(value)
    }
}

pub fn onboard_mode_from_byte(value: u8) -> (mode: OnboardMode)
    ensures
        mode == spec_onboard_mode(value),
{
    match value {
        0 => OnboardMode::NoChange,
        1 => OnboardMode::Onboard,
        2 => OnboardMode::Host,
        value => OnboardMode::Unknown(value),
    }
}

impl From<u8> for OnboardMode {
    fn from(value: u8) -> (mode: Self) {
        onboard_mode_from_byte(value)
    }
}

impl vstd::std_specs::convert::FromSpecImpl<u8> for OnboardMode {
    open spec fn obeys_from_spec() -> bool {
        true
    }

    open spec fn from_spec(value: u8) -> Self {
        spec_onboard_mode(value)
    }
}

#[derive(Debug, Clone, PartialEq, Eq, Structural)]
pub struct OnboardProfilesInfo {
    pub memory_model_id: u8,
    pub profile_format_id: u8,
    pub macro_format_id: u8,
    pub profile_count: u8,
    pub rom_profile_count: u8,
    pub button_count: u8,
    pub sector_count: u8,
    pub sector_size: u16,
    pub mechanical_layout: u8,
    pub various_info: u8,
    pub mode: OnboardMode,
    pub current_profile: u8,
}

#[derive(Debug, Clone, PartialEq, Eq)]
pub struct OnboardProfileSnapshot {
    pub address: u16,
    pub enabled: bool,
    pub report_rate_hz: u16,
    pub default_dpi_index: u8,
    pub shifted_dpi_index: u8,
    pub dpi_slots: Vec<u16>,
    pub buttons: Vec<OnboardButtonAction>,
}

#[derive(Debug, Clone, Copy, PartialEq, Eq)]
pub enum OnboardButtonAction {
    Macro { page: u8, offset: u8 },
    Mouse { button: Option<u8>, mask: u16 },
    Keyboard { modifiers: u8, key: u8 },
    ConsumerControl { usage: u16 },
    Special { code: u8, profile: u8 },
    Disabled,
    Unknown([u8; 4]),
}

#[derive(Debug, Clone, PartialEq, Eq, Structural)]
pub struct DpiWriteResult {
    pub sensor_index: u8,
    pub before: u16,
    pub requested: u16,
    pub after: u16,
    pub changed: bool,
}

#[derive(Debug, Clone, PartialEq, Eq)]
pub struct OnboardWriteResult {
    pub profile_sector: u16,
    pub changed_buttons: Vec<usize>,
    pub dpi_changed: bool,
    pub verified: bool,
}

#[derive(Debug, Clone, PartialEq, Eq, Structural)]
pub struct OnboardModeWriteResult {
    pub before: OnboardMode,
    pub after: OnboardMode,
}

/// How a profile write treats the onboard DPI slots.
#[derive(Debug, Clone, Copy, PartialEq, Eq)]
pub enum ProfileDpiSettings {
    /// Overwrite only the slot the profile marks as default.
    Single(u16),
    /// Rotate the four cycle levels so that `dpi` sits in slot zero.
    Levels { dpi: u16, levels: [u16; 4] },
}

#[derive(Debug, Clone, PartialEq, Eq)]
pub enum HidppError {
    PlatformUnsupported,
    InterfaceNotFound,
    Backend(String),
    Timeout,
    InvalidDpi { requested: u16, minimum: u16, maximum: u16, step: Option<u16> },
    InvalidResponse(String),
    Device { code: u8, description: &'static str },
}

// ---------------------------------------------------------------------------
// Byte helpers
// ---------------------------------------------------------------------------

pub open spec fn be16(high: u8, low: u8) -> u16 {
    (high as int * 256 + low as int) as u16
}

pub open spec fn le16(low: u8, high: u8) -> u16 {
    be16(high, low)
}

pub open spec fn high_byte(value: u16) -> u8 {
    (value / 256) as u8
}

pub open spec fn low_byte(value: u16) -> u8 {
    (value % 256) as u8
}

pub fn u16_from_be(high: u8, low: u8) -> (value: u16)
    ensures
        value == be16(high, low),
        high_byte(value) == high,
        low_byte(value) == low,
{
    (high as u16) * 256 + (low as u16)
}

pub fn u16_to_be(value: u16) -> (bytes: [u8; 2])
    ensures
        bytes@ == seq![high_byte(value), low_byte(value)],
        be16(bytes[0], bytes[1]) == value,
{
    let bytes = [(value / 256) as u8, (value % 256) as u8];
    assert(bytes@ =~= seq![high_byte(value), low_byte(value)]);
    bytes
}

// ---------------------------------------------------------------------------
// CRC-CCITT (poly 0x1021, init 0xffff, no reflection)
// ---------------------------------------------------------------------------

/// One table-free CRC-CCITT byte step.
pub open spec fn crc_step(crc: u16, byte: u8) -> u16 {
    let temp: u16 = (crc >> 8u16) ^ (byte as u16);
    let shifted: u16 = crc << 8u16;
    let quick1: u16 = temp ^ (temp >> 4u16);
    let quick2: u16 = quick1 << 5u16;
    let quick3: u16 = quick2 << 7u16;
    shifted ^ quick1 ^ quick2 ^ quick3
}

/// CRC-CCITT (`0xffff` initial value) of a byte sequence.
pub open spec fn spec_crc(data: Seq<u8>) -> u16
    decreases data.len(),
{
    if data.len() == 0 {
        0xffff
    } else {
        crc_step(spec_crc(data.drop_last()), data.last())
    }
}

fn crc_step_exec(crc: u16, byte: u8) -> (next: u16)
    ensures
        next == crc_step(crc, byte),
{
    let temp: u16 = (crc >> 8u16) ^ (byte as u16);
    let shifted: u16 = crc << 8u16;
    let quick1: u16 = temp ^ (temp >> 4u16);
    let quick2: u16 = quick1 << 5u16;
    let quick3: u16 = quick2 << 7u16;
    shifted ^ quick1 ^ quick2 ^ quick3
}

/// CRC-CCITT over the first `length` bytes of `data`.
pub fn crc_ccitt_prefix(data: &[u8], length: usize) -> (crc: u16)
    requires
        length <= data@.len(),
    ensures
        crc == spec_crc(data@.subrange(0, length as int)),
{
    let mut crc: u16 = 0xffff;
    let mut i: usize = 0;
    while i < length
        invariant
            length <= data@.len(),
            i <= length,
            crc == spec_crc(data@.subrange(0, i as int)),
        decreases length - i,
    {
        assert(data@.subrange(0, (i + 1) as int).drop_last() =~= data@.subrange(0, i as int));
        crc = crc_step_exec(crc, data[i]);
        i = i + 1;
    }
    crc
}

/// CRC-CCITT over all of `data`.
pub fn crc_ccitt(data: &[u8]) -> (crc: u16)
    ensures
        crc == spec_crc(data@),
{
    let crc = crc_ccitt_prefix(data, data.len());
    assert(data@.subrange(0, data@.len() as int) =~= data@);
    crc
}


// ---------------------------------------------------------------------------
// Errors and their messages
// ---------------------------------------------------------------------------

/// The mathematical content of a `HidppError`, with texts as character sequences.
pub enum HidppErrorView {
    PlatformUnsupported,
    InterfaceNotFound,
    Backend(Seq<char>),
    Timeout,
    InvalidDpi { requested: u16, minimum: u16, maximum: u16, step: Option<u16> },
    InvalidResponse(Seq<char>),
    Device { code: u8, description: Seq<char> },
}

impl View for HidppError {
    type V = HidppErrorView;

    open spec fn view(&self) -> HidppErrorView {
        match self {
            HidppError::PlatformUnsupported => HidppErrorView::PlatformUnsupported,
            HidppError::InterfaceNotFound => HidppErrorView::InterfaceNotFound,
            HidppError::Backend(message) => HidppErrorView::Backend(message@),
            HidppError::Timeout => HidppErrorView::Timeout,
            HidppError::InvalidDpi { requested, minimum, maximum, step } => HidppErrorView::InvalidDpi {
                requested: *requested,
                minimum: *minimum,
                maximum: *maximum,
                step: *step,
            },
            HidppError::InvalidResponse(message) => HidppErrorView::InvalidResponse(message@),
            HidppError::Device { code, description } => HidppErrorView::Device {
                code: *code,
                description: description@,
            },
        }
    }
}

pub open spec fn dec(n: int) -> Seq<char> {
    spec_decimal(n as nat)
}

pub open spec fn hex2(n: int) -> Seq<char> {
    zero_pad(spec_hex(n as nat), 2)
}

pub open spec fn hex4(n: int) -> Seq<char> {
    zero_pad(spec_hex(n as nat), 4)
}

/// The user-facing text of an error (its `Display` rendering).
pub open spec fn spec_error_message(e: HidppErrorView) -> Seq<char> {
    match e {
        HidppErrorView::PlatformUnsupported => "HID++ 探测当前仅支持 Windows"@,
        HidppErrorView::InterfaceNotFound => "未找到匹配的 G102 HID++ 短/长报告接口"@,
        HidppErrorView::Backend(message) => "HID 后端错误："@ + message,
        HidppErrorView::Timeout => "等待 HID++ 响应超时"@,
        HidppErrorView::InvalidDpi { requested, minimum, maximum, step } => match step {
            Some(step) => "DPI "@ + dec(requested as int) + " 不受支持；有效范围为 "@ + dec(minimum as int) + "–"@
                + dec(maximum as int) + "，步进 "@ + dec(step as int),
            None => "DPI "@ + dec(requested as int) + " 不在设备公布的离散值范围 "@ + dec(minimum as int)
                + "–"@ + dec(maximum as int) + " 内"@,
        },
        HidppErrorView::InvalidResponse(message) => "无效 HID++ 响应："@ + message,
        HidppErrorView::Device { code, description } => "设备返回 HID++ 错误 0x"@ + hex2(code as int) + "（"@
            + description + "）"@,
    }
}

pub(crate) fn text(s: &str) -> (r: String)
    ensures
        r@ == s@,
{
    String::from_str(s)
}

fn invalid(message: &str) -> (e: HidppError)
    ensures
        e@ == HidppErrorView::InvalidResponse(message@),
{
    HidppError::InvalidResponse(text(message))
}

fn dec_text(n: u64) -> (s: String)
    ensures
        s@ == dec(n as int),
{
    decimal_text(n)
}

fn hex2_text(n: u8) -> (s: String)
    ensures
        s@ == hex2(n as int),
{
    hex_text(n as u64, 2)
}

fn hex4_text(n: u16) -> (s: String)
    ensures
        s@ == hex4(n as int),
{
    hex_text(n as u64, 4)
}

impl HidppError {
    /// The user-facing rendering of the error.
    pub fn message(&self) -> (m: String)
        ensures
            m@ == spec_error_message(self@),
    {
        match self {
            HidppError::PlatformUnsupported => text("HID++ 探测当前仅支持 Windows"),
            HidppError::InterfaceNotFound => text("未找到匹配的 G102 HID++ 短/长报告接口"),
            HidppError::Backend(message) => {
                let mut m = text("HID 后端错误：");
                m.append(message.as_str());
                m
            },
            HidppError::Timeout => text("等待 HID++ 响应超时"),
            HidppError::InvalidDpi { requested, minimum, maximum, step } => {
                let mut m = text("DPI ");
                m.append(dec_text(*requested as u64).as_str());
                match step {
                    Some(step) => {
                        m.append(" 不受支持；有效范围为 ");
                        m.append(dec_text(*minimum as u64).as_str());
                        m.append("–");
                        m.append(dec_text(*maximum as u64).as_str());
                        m.append("，步进 ");
                        m.append(dec_text(*step as u64).as_str());
                    },
                    None => {
                        m.append(" 不在设备公布的离散值范围 ");
                        m.append(dec_text(*minimum as u64).as_str());
                        m.append("–");
                        m.append(dec_text(*maximum as u64).as_str());
                        m.append(" 内");
                    },
                }
                m
            },
            HidppError::InvalidResponse(message) => {
                let mut m = text("无效 HID++ 响应：");
                m.append(message.as_str());
                m
            },
            HidppError::Device { code, description } => {
                let mut m = text("设备返回 HID++ 错误 0x");
                m.append(hex2_text(*code).as_str());
                m.append("（");
                m.append(description);
                m.append("）");
                m
            },
        }
    }
}

// ---------------------------------------------------------------------------
// Sector CRC validation
// ---------------------------------------------------------------------------

/// Why a CRC-protected sector is rejected, if it is.
pub open spec fn sector_crc_error(sector: Seq<u8>) -> Option<Seq<char>> {
    if sector.len() < 2 {
        Some("板载扇区过短"@)
    } else {
        let payload = (sector.len() - 2) as int;
        let expected = be16(sector[payload], sector[payload + 1]);
        let actual = spec_crc(sector.subrange(0, payload));
        if actual != expected {
            Some("板载扇区 CRC 不匹配：设备 0x"@ + hex4(expected as int) + "，计算 0x"@ + hex4(actual as int))
        } else {
            None
        }
    }
}

/// A sector whose trailing big-endian CRC matches its payload.
pub open spec fn sector_crc_ok(sector: Seq<u8>) -> bool {
    sector_crc_error(sector) is None
}

pub fn validate_sector_crc(sector: &[u8]) -> (r: Result<(), HidppError>)
    ensures
        match sector_crc_error(sector@) {
            None => r is Ok,
            Some(message) => r is Err && r->Err_0@ == HidppErrorView::InvalidResponse(message),
        },
{
    if sector.len() < 2 {
        return Err(invalid("板载扇区过短"));
    }
    let payload_length = sector.len() - 2;
    let expected = u16_from_be(sector[payload_length], sector[payload_length + 1]);
    let actual = crc_ccitt_prefix(sector, payload_length);
    if actual != expected {
        let mut m = text("板载扇区 CRC 不匹配：设备 0x");
        m.append(hex4_text(expected).as_str());
        m.append("，计算 0x");
        m.append(hex4_text(actual).as_str());
        return Err(HidppError::InvalidResponse(m));
    }
    Ok(())
}

// ---------------------------------------------------------------------------
// Onboard button bindings (profile format 0x04)
// ---------------------------------------------------------------------------

/// The mouse button number a one-hot button mask denotes (lowest set bit, 1-based).
pub open spec fn mouse_button_of_mask(mask: u16) -> Option<u8> {
    if mask != 0 {
        Some((vstd::std_specs::bits::u16_trailing_zeros(mask) + 1) as u8)
    } else {
        None
    }
}

/// Decodes one four-byte button binding.
pub open spec fn spec_parse_button(raw: [u8; 4]) -> OnboardButtonAction {
    if raw[0] == 0x00 {
        OnboardButtonAction::Macro { page: raw[1], offset: raw[3] }
    } else if raw[0] == 0x80 && raw[1] == 0x01 {
        let mask = be16(raw[2], raw[3]);
        OnboardButtonAction::Mouse { button: mouse_button_of_mask(mask), mask }
    } else if raw[0] == 0x80 && raw[1] == 0x02 {
        OnboardButtonAction::Keyboard { modifiers: raw[2], key: raw[3] }
    } else if raw[0] == 0x80 && raw[1] == 0x03 {
        OnboardButtonAction::ConsumerControl { usage: be16(raw[2], raw[3]) }
    } else if raw[0] == 0x90 {
        OnboardButtonAction::Special { code: raw[1], profile: raw[3] }
    } else if raw[0] == 0xff {
        OnboardButtonAction::Disabled
    } else {
        OnboardButtonAction::Unknown(raw)
    }
}

pub fn parse_onboard_button(raw: [u8; 4]) -> (action: OnboardButtonAction)
    ensures
        action == spec_parse_button(raw),
{
    if raw[0] == 0x00 {
        OnboardButtonAction::Macro { page: raw[1], offset: raw[3] }
    } else if raw[0] == 0x80 && raw[1] == 0x01 {
        let mask = u16_from_be(raw[2], raw[3]);
        let button = if mask != 0 {
            let zeros = mask.trailing_zeros();
            proof {
                vstd::std_specs::bits::axiom_u16_trailing_zeros(mask);
            }
            Some((zeros + 1) as u8)
        } else {
            None
        };
        OnboardButtonAction::Mouse { button, mask }
    } else if raw[0] == 0x80 && raw[1] == 0x02 {
        OnboardButtonAction::Keyboard { modifiers: raw[2], key: raw[3] }
    } else if raw[0] == 0x80 && raw[1] == 0x03 {
        OnboardButtonAction::ConsumerControl { usage: u16_from_be(raw[2], raw[3]) }
    } else if raw[0] == 0x90 {
        OnboardButtonAction::Special { code: raw[1], profile: raw[3] }
    } else if raw[0] == 0xff {
        OnboardButtonAction::Disabled
    } else {
        OnboardButtonAction::Unknown(raw)
    }
}

/// The four-byte binding of an action; macros and unknown bindings have none.
pub open spec fn spec_encode_button(action: OnboardButtonAction) -> Option<Seq<u8>> {
    match action {
        OnboardButtonAction::Mouse { mask, .. } => Some(seq![0x80u8, 0x01u8, high_byte(mask), low_byte(mask)]),
        OnboardButtonAction::Keyboard { modifiers, key } => Some(seq![0x80u8, 0x02u8, modifiers, key]),
        OnboardButtonAction::ConsumerControl { usage } => Some(
            seq![0x80u8, 0x03u8, high_byte(usage), low_byte(usage)],
        ),
        OnboardButtonAction::Special { code, profile } => Some(seq![0x90u8, code, 0u8, profile]),
        OnboardButtonAction::Disabled => Some(seq![0xffu8, 0xffu8, 0xffu8, 0xffu8]),
        OnboardButtonAction::Macro { .. } => None,
        OnboardButtonAction::Unknown(_) => None,
    }
}

/// Why an action cannot be encoded, if it cannot.
pub open spec fn encode_button_error(action: OnboardButtonAction) -> Seq<char> {
    match action {
        OnboardButtonAction::Macro { .. } => "安全策略禁止编码宏动作"@,
        _ => "不能编码未知按键动作"@,
    }
}

/// Encodes one action as a profile format 0x04 binding; refuses macros and unknown bindings.
pub fn encode_onboard_button(action: &OnboardButtonAction) -> (r: Result<[u8; 4], HidppError>)
    ensures
        match spec_encode_button(*action) {
            Some(bytes) => r is Ok && r->Ok_0@ == bytes,
            None => r is Err && r->Err_0@ == HidppErrorView::InvalidResponse(
                encode_button_error(*action),
            ),
        },
{
    let r = match action {
        OnboardButtonAction::Mouse { mask, .. } => {
            let b = u16_to_be(*mask);
            Ok([0x80, 0x01, b[0], b[1]])
        },
        OnboardButtonAction::Keyboard { modifiers, key } => Ok([0x80, 0x02, *modifiers, *key]),
        OnboardButtonAction::ConsumerControl { usage } => {
            let b = u16_to_be(*usage);
            Ok([0x80, 0x03, b[0], b[1]])
        },
        OnboardButtonAction::Special { code, profile } => Ok([0x90, *code, 0, *profile]),
        OnboardButtonAction::Disabled => Ok([0xff; 4]),
        OnboardButtonAction::Macro { .. } => Err(invalid("安全策略禁止编码宏动作")),
        OnboardButtonAction::Unknown(_) => Err(invalid("不能编码未知按键动作")),
    };
    proof {
        if let Ok(bytes) = r {
            assert(bytes@ =~= spec_encode_button(*action).unwrap());
        }
    }
    r
}

/// An action in the form the device reports it back: a mouse action's button
/// number is the one its mask denotes.
pub open spec fn canonical_action(action: OnboardButtonAction) -> bool {
    match action {
        OnboardButtonAction::Mouse { button, mask } => button == mouse_button_of_mask(mask),
        OnboardButtonAction::Macro { .. } => false,
        OnboardButtonAction::Unknown(_) => false,
        _ => true,
    }
}

/// Encoding a canonical action and decoding the binding gives the action back.
pub proof fn lemma_button_encoding_round_trips(action: OnboardButtonAction, raw: [u8; 4])
    requires
        canonical_action(action),
        spec_encode_button(action) == Some(raw@),
    ensures
        spec_parse_button(raw) == action,
{
    let bytes = raw@;
    assert(raw[0] == bytes[0] && raw[1] == bytes[1] && raw[2] == bytes[2] && raw[3] == bytes[3]);
    match action {
        OnboardButtonAction::Mouse { mask, .. } => {
            assert(be16(high_byte(mask), low_byte(mask)) == mask);
        },
        OnboardButtonAction::ConsumerControl { usage } => {
            assert(be16(high_byte(usage), low_byte(usage)) == usage);
        },
        _ => {},
    }
}

/// Decoding a binding of a known kind and encoding the action gives the binding back,
/// for every binding the device can hold in canonical form.
pub proof fn lemma_button_decoding_round_trips(raw: [u8; 4])
    requires
        (raw[0] == 0x80 && 0x01 <= raw[1] <= 0x03) || (raw[0] == 0x90 && raw[2] == 0) || raw@ == seq![
            0xffu8,
            0xffu8,
            0xffu8,
            0xffu8,
        ],
    ensures
        spec_encode_button(spec_parse_button(raw)) == Some(raw@),
{
    let e = spec_encode_button(spec_parse_button(raw)).unwrap();
    assert(high_byte(be16(raw[2], raw[3])) == raw[2]);
    assert(low_byte(be16(raw[2], raw[3])) == raw[3]);
    assert(e =~= raw@);
}

/// The binding that the confirmed Office mapping assigns to the six G102 slots:
/// left, right, Backspace, Ctrl+V, Ctrl+C, Ctrl+A.
pub open spec fn spec_office_button_actions() -> Seq<OnboardButtonAction> {
    seq![
        OnboardButtonAction::Mouse { button: Some(1), mask: 0x0001 },
        OnboardButtonAction::Mouse { button: Some(2), mask: 0x0002 },
        OnboardButtonAction::Keyboard { modifiers: 0x00, key: 0x2a },
        OnboardButtonAction::Keyboard { modifiers: 0x01, key: 0x19 },
        OnboardButtonAction::Keyboard { modifiers: 0x01, key: 0x06 },
        OnboardButtonAction::Keyboard { modifiers: 0x01, key: 0x04 },
    ]
}

/// The confirmed Office target mapping; builds the model only, no device I/O.
pub fn g102_office_button_actions() -> (actions: [OnboardButtonAction; 6])
    ensures
        actions@ == spec_office_button_actions(),
{
    let actions = [
        OnboardButtonAction::Mouse { button: Some(1), mask: 0x0001 },
        OnboardButtonAction::Mouse { button: Some(2), mask: 0x0002 },
        OnboardButtonAction::Keyboard { modifiers: 0x00, key: 0x2a },
        OnboardButtonAction::Keyboard { modifiers: 0x01, key: 0x19 },
        OnboardButtonAction::Keyboard { modifiers: 0x01, key: 0x06 },
        OnboardButtonAction::Keyboard { modifiers: 0x01, key: 0x04 },
    ];
    assert(actions@ =~= spec_office_button_actions());
    actions
}


// ---------------------------------------------------------------------------
// Onboard profile descriptions and sectors
// ---------------------------------------------------------------------------

/// The onboard-profiles capability record described by the three query responses.
pub open spec fn spec_onboard_profiles(description: Seq<u8>, mode: u8, current: Seq<u8>) -> OnboardProfilesInfo {
    OnboardProfilesInfo {
        memory_model_id: description[0],
        profile_format_id: description[1],
        macro_format_id: description[2],
        profile_count: description[3],
        rom_profile_count: description[4],
        button_count: description[5],
        sector_count: description[6],
        sector_size: be16(description[7], description[8]),
        mechanical_layout: description[9],
        various_info: description[10],
        mode: spec_onboard_mode(mode),
        current_profile: current[1],
    }
}

pub fn parse_onboard_profiles(description: &[u8], mode: u8, current: &[u8]) -> (r: Result<
    OnboardProfilesInfo,
    HidppError,
>)
    ensures
        if description@.len() < 16 || current@.len() < 2 {
            r is Err && r->Err_0@ == HidppErrorView::InvalidResponse("板载配置响应长度不足"@)
        } else {
            r == Ok::<OnboardProfilesInfo, HidppError>(
                spec_onboard_profiles(description@, mode, current@),
            )
        },
{
    if description.len() < 16 || current.len() < 2 {
        return Err(invalid("板载配置响应长度不足"));
    }
    Ok(OnboardProfilesInfo {
        memory_model_id: description[0],
        profile_format_id: description[1],
        macro_format_id: description[2],
        profile_count: description[3],
        rom_profile_count: description[4],
        button_count: description[5],
        sector_count: description[6],
        sector_size: u16_from_be(description[7], description[8]),
        mechanical_layout: description[9],
        various_info: description[10],
        mode: onboard_mode_from_byte(mode),
        current_profile: current[1],
    })
}

/// The little-endian DPI value stored in slot `i` (of five) of a profile sector.
pub open spec fn raw_dpi_slot(sector: Seq<u8>, i: int) -> u16 {
    le16(sector[3 + 2 * i], sector[4 + 2 * i])
}

/// The first `n` DPI slots without the empty markers `0` and `0xffff`.
pub open spec fn kept_dpi_slots(sector: Seq<u8>, n: int) -> Seq<u16>
    decreases n,
{
    if n <= 0 {
        seq![]
    } else {
        let previous = kept_dpi_slots(sector, n - 1);
        let value = raw_dpi_slot(sector, n - 1);
        if value == 0 || value == 0xffff {
            previous
        } else {
            previous.push(value)
        }
    }
}

/// The binding stored at button slot `i` of a profile sector.
pub open spec fn sector_button(sector: Seq<u8>, i: int) -> [u8; 4] {
    [sector[32 + 4 * i], sector[33 + 4 * i], sector[34 + 4 * i], sector[35 + 4 * i]]
}

/// Whether a profile sector is long enough for `button_count` bindings and its CRC.
pub open spec fn profile_layout_ok(sector: Seq<u8>, button_count: u8) -> bool {
    button_count <= 16 && sector.len() >= 32 + button_count * 4 + 2
}

pub open spec fn report_rate_of_divisor(divisor: u8) -> u16 {
    if divisor == 0 {
        1000
    } else {
        (1000int / (divisor as int)) as u16
    }
}

/// Law: the report rate of a stored divisor `d` (1 to 255) is 1000 Hz divided by
/// `d`, rounded down: `rate * d <= 1000 < (rate + 1) * d`; so 1, 2, 4 and 8 give
/// 1000, 500, 250 and 125 Hz, and a divisor that divides 1000 gives
/// `rate * d == 1000`. A stored 0 counts as 1.
pub proof fn lemma_report_rate_divides_1000(d: u8)
    ensures
        d >= 1 ==> report_rate_of_divisor(d) * d <= 1000 < (report_rate_of_divisor(d) + 1) * d,
        d >= 1 && 1000int % (d as int) == 0 ==> report_rate_of_divisor(d) * d == 1000,
        d == 0 ==> report_rate_of_divisor(d) == 1000,
{
    if d >= 1 {
        let q = 1000int / (d as int);
        assert(0 <= q <= 1000 && q * d <= 1000 < (q + 1) * d && (1000int % (d as int) == 0 ==> q * d == 1000))
            by (nonlinear_arith)
            requires
                d >= 1,
                q == 1000int / (d as int),
        ;
        assert(report_rate_of_divisor(d) == q);
    }
}

pub fn parse_onboard_profile(address: u16, enabled: bool, sector: &[u8], button_count: u8) -> (r: Result<
    Option<OnboardProfileSnapshot>,
    HidppError,
>)
    ensures
        !profile_layout_ok(sector@, button_count) ==> r is Err && r->Err_0@
            == HidppErrorView::InvalidResponse("板载配置的按键区域超出已知格式"@),
        profile_layout_ok(sector@, button_count) ==> (r matches Ok(Some(snapshot)) && {
            &&& snapshot.address == address
            &&& snapshot.enabled == enabled
            &&& snapshot.report_rate_hz == report_rate_of_divisor(sector@[0])
            &&& sector@[0] >= 1 ==> snapshot.report_rate_hz * sector@[0] <= 1000 < (snapshot.report_rate_hz + 1)
                * sector@[0]
            &&& sector@[0] == 0 ==> snapshot.report_rate_hz == 1000
            &&& snapshot.default_dpi_index == sector@[1]
            &&& snapshot.shifted_dpi_index == sector@[2]
            &&& snapshot.dpi_slots@ == kept_dpi_slots(sector@, 5)
            &&& snapshot.buttons@.len() == button_count
            &&& forall|i: int|
                0 <= i < button_count ==> #[trigger] snapshot.buttons@[i] == spec_parse_button(
                    sector_button(sector@, i),
                )
        }),
{
    let count = button_count as usize;
    if count > 16 || sector.len() < 32 + count * 4 + 2 {
        return Err(invalid("板载配置的按键区域超出已知格式"));
    }
    let divisor: u16 = if sector[0] == 0 {
        1
    } else {
        sector[0] as u16
    };
    let mut dpi_slots: Vec<u16> = Vec::new();
    let mut slot: usize = 0;
    while slot < 5
        invariant
            sector@.len() >= 34,
            slot <= 5,
            dpi_slots@ == kept_dpi_slots(sector@, slot as int),
        decreases 5 - slot,
    {
        let value = u16_from_be(sector[4 + 2 * slot], sector[3 + 2 * slot]);
        if value != 0 && value != 0xffff {
            dpi_slots.push(value);
        }
        slot = slot + 1;
    }
    let mut buttons: Vec<OnboardButtonAction> = Vec::new();
    let mut index: usize = 0;
    while index < count
        invariant
            count <= 16,
            sector@.len() >= 32 + count * 4 + 2,
            index <= count,
            buttons@.len() == index,
            forall|i: int|
                0 <= i < index ==> #[trigger] buttons@[i] == spec_parse_button(sector_button(sector@, i)),
        decreases count - index,
    {
        let start = 32 + index * 4;
        let raw = [sector[start], sector[start + 1], sector[start + 2], sector[start + 3]];
        assert(raw == sector_button(sector@, index as int));
        buttons.push(parse_onboard_button(raw));
        index = index + 1;
    }
    proof {
        lemma_report_rate_divides_1000(sector@[0]);
    }
    Ok(
        Some(
            OnboardProfileSnapshot {
                address,
                enabled,
                report_rate_hz: 1000 / divisor,
                default_dpi_index: sector[1],
                shifted_dpi_index: sector[2],
                dpi_slots,
                buttons,
            },
        ),
    )
}

// ---------------------------------------------------------------------------
// DPI capability lists
// ---------------------------------------------------------------------------

/// The big-endian value of pair `k` of a DPI list response.
pub open spec fn dpi_pair(bytes: Seq<u8>, k: int) -> u16 {
    be16(bytes[2 * k], bytes[2 * k + 1])
}

/// Scans the first `k` pairs of a DPI list: a zero pair ends the list, a value above
/// `0xe000` announces a step of `value - 0xe000`, any other value is a listed DPI.
/// Returns the step, the listed values, and whether the terminator was seen.
pub open spec fn dpi_list_scan(bytes: Seq<u8>, k: int) -> (Option<u16>, Seq<u16>, bool)
    decreases k,
{
    if k <= 0 {
        (None, seq![], false)
    } else {
        let (step, values, stopped) = dpi_list_scan(bytes, k - 1);
        if stopped {
            (step, values, true)
        } else {
            let value = dpi_pair(bytes, k - 1);
            if value == 0 {
                (step, values, true)
            } else if value > 0xe000 {
                (Some((value - 0xe000) as u16), values, false)
            } else {
                (step, values.push(value), false)
            }
        }
    }
}

pub open spec fn dpi_list(bytes: Seq<u8>) -> (Option<u16>, Seq<u16>, bool) {
    dpi_list_scan(bytes, (bytes.len() / 2) as int)
}

proof fn lemma_dpi_scan_stays_stopped(bytes: Seq<u8>, k: int, j: int)
    requires
        0 <= k <= j,
        dpi_list_scan(bytes, k).2,
    ensures
        dpi_list_scan(bytes, j) == dpi_list_scan(bytes, k),
    decreases j - k,
{
    if j > k {
        lemma_dpi_scan_stays_stopped(bytes, k, j - 1);
    }
}

/// Decodes a DPI list into (minimum, maximum, step, listed values).
pub fn parse_dpi_list(bytes: &[u8]) -> (r: Result<(u16, u16, Option<u16>, Vec<u16>), HidppError>)
    ensures
        dpi_list(bytes@).1.len() == 0 ==> r is Err && r->Err_0@ == HidppErrorView::InvalidResponse(
            "DPI 列表没有包含任何范围或离散值"@,
        ),
        dpi_list(bytes@).1.len() > 0 ==> (r matches Ok((minimum, maximum, step, values)) && {
            &&& step == dpi_list(bytes@).0
            &&& values@ == dpi_list(bytes@).1
            &&& values@.contains(minimum)
            &&& values@.contains(maximum)
            &&& forall|i: int| 0 <= i < values@.len() ==> minimum <= #[trigger] values@[i] <= maximum
        }),
{
    let pairs = bytes.len() / 2;
    let mut values: Vec<u16> = Vec::new();
    let mut step: Option<u16> = None;
    let mut stopped = false;
    let mut k: usize = 0;
    while k < pairs && !stopped
        invariant
            pairs == bytes@.len() / 2,
            k <= pairs,
            dpi_list_scan(bytes@, k as int) == (step, values@, stopped),
        decreases pairs - k,
    {
        assert(k + k + 1 < bytes.len());
        let value = u16_from_be(bytes[k + k], bytes[k + k + 1]);
        if value == 0 {
            stopped = true;
        } else if value > 0xe000 {
            step = Some(value - 0xe000);
        } else {
            values.push(value);
        }
        k = k + 1;
    }
    proof {
        if stopped {
            lemma_dpi_scan_stays_stopped(bytes@, k as int, pairs as int);
        }
    }
    assert(dpi_list(bytes@).0 == step && dpi_list(bytes@).1 == values@);
    if values.len() == 0 {
        return Err(invalid("DPI 列表没有包含任何范围或离散值"));
    }
    let mut minimum = values[0];
    let mut maximum = values[0];
    assert(values@.subrange(0, 1)[0] == values@[0]);
    let mut i: usize = 1;
    while i < values.len()
        invariant
            1 <= i <= values@.len(),
            values@.subrange(0, i as int).contains(minimum),
            values@.subrange(0, i as int).contains(maximum),
            forall|j: int| 0 <= j < i ==> minimum <= #[trigger] values@[j] <= maximum,
        decreases values.len() - i,
    {
        proof {
            assert(values@.subrange(0, i as int) =~= values@.subrange(0, (i + 1) as int).drop_last());
            assert(values@.subrange(0, (i + 1) as int)[i as int] == values@[i as int]);
        }
        if values[i] < minimum {
            minimum = values[i];
        }
        if values[i] > maximum {
            maximum = values[i];
        }
        i = i + 1;
    }
    assert(values@.subrange(0, values@.len() as int) =~= values@);
    Ok((minimum, maximum, step, values))
}

/// Whether a sensor accepts `requested`: inside its range, and on its step grid,
/// or among its listed values when it announces no step.
pub open spec fn dpi_accepted(sensor: DpiSensorInfo, requested: u16) -> bool {
    &&& sensor.minimum <= requested <= sensor.maximum
    &&& match sensor.step {
        Some(step) => step > 0 && (requested - sensor.minimum) % (step as int) == 0,
        None => sensor.discrete_values@.contains(requested),
    }
}

pub fn validate_requested_dpi(sensor: &DpiSensorInfo, requested: u16) -> (r: Result<(), HidppError>)
    ensures
        dpi_accepted(*sensor, requested) ==> r is Ok,
        !dpi_accepted(*sensor, requested) ==> r is Err && r->Err_0@ == (HidppErrorView::InvalidDpi {
            requested,
            minimum: sensor.minimum,
            maximum: sensor.maximum,
            step: sensor.step,
        }),
{
    let in_range = requested >= sensor.minimum && requested <= sensor.maximum;
    let aligned = match sensor.step {
        Some(step) => step > 0 && requested >= sensor.minimum && (requested - sensor.minimum) % step
            == 0,
        None => {
            let mut found = false;
            let mut i: usize = 0;
            while i < sensor.discrete_values.len()
                invariant
                    i <= sensor.discrete_values@.len(),
                    found == sensor.discrete_values@.subrange(0, i as int).contains(requested),
                decreases sensor.discrete_values.len() - i,
            {
                proof {
                    let s = sensor.discrete_values@;
                    assert(s.subrange(0, i as int) =~= s.subrange(0, (i + 1) as int).drop_last());
                    assert(s.subrange(0, (i + 1) as int)[i as int] == s[i as int]);
                }
                if sensor.discrete_values[i] == requested {
                    found = true;
                }
                i = i + 1;
            }
            assert(sensor.discrete_values@.subrange(0, sensor.discrete_values@.len() as int)
                =~= sensor.discrete_values@);
            found
        },
    };
    if in_range && aligned {
        Ok(())
    } else {
        Err(HidppError::InvalidDpi {
            requested,
            minimum: sensor.minimum,
            maximum: sensor.maximum,
            step: sensor.step,
        })
    }
}

// ---------------------------------------------------------------------------
// Report framing and response matching
// ---------------------------------------------------------------------------

/// The HID++ error-code descriptions.
pub open spec fn spec_error_description(code: u8) -> &'static str {
    if code == 0x01 {
        "未知错误"
    } else if code == 0x02 {
        "无效参数"
    } else if code == 0x03 {
        "超出范围"
    } else if code == 0x04 {
        "硬件错误"
    } else if code == 0x05 {
        "Logitech 内部错误"
    } else if code == 0x06 {
        "无效功能索引"
    } else if code == 0x07 {
        "无效函数"
    } else if code == 0x08 {
        "设备忙"
    } else if code == 0x09 {
        "不支持"
    } else {
        "未记录错误"
    }
}

pub fn error_description(code: u8) -> (description: &'static str)
    ensures
        description == spec_error_description(code),
{
    match code {
        0x01 => "未知错误",
        0x02 => "无效参数",
        0x03 => "超出范围",
        0x04 => "硬件错误",
        0x05 => "Logitech 内部错误",
        0x06 => "无效功能索引",
        0x07 => "无效函数",
        0x08 => "设备忙",
        0x09 => "不支持",
        _ => "未记录错误",
    }
}

pub open spec fn is_report_id(b: u8) -> bool {
    b == REPORT_ID_SHORT || b == REPORT_ID_LONG
}

/// A HID++ error report (`0x8f` or `0xff`) that names the request's feature and function.
pub open spec fn is_error_for(request: Seq<u8>, response: Seq<u8>) -> bool {
    (response[2] == 0x8f || response[2] == 0xff) && response[3] == request[2] && response[4] == request[3]
}

/// Why a response is not a valid answer to the request, if it is not.
pub open spec fn response_error(request: Seq<u8>, response: Seq<u8>) -> Option<HidppErrorView> {
    if response.len() < 7 {
        Some(HidppErrorView::InvalidResponse("报告过短："@ + dec(response.len() as int) + " 字节"@))
    } else if !is_report_id(response[0]) {
        Some(HidppErrorView::InvalidResponse("未知报告 ID 0x"@ + hex2(response[0] as int)))
    } else if response[1] != request[1] {
        Some(HidppErrorView::InvalidResponse("设备索引不匹配：0x"@ + hex2(response[1] as int)))
    } else if is_error_for(request, response) {
        Some(HidppErrorView::Device { code: response[5], description: spec_error_description(response[5])@ })
    } else if response[2] != request[2] || response[3] != request[3] {
        Some(HidppErrorView::InvalidResponse("响应与请求元组不匹配"@))
    } else {
        None
    }
}

pub fn validate_response(request: &[u8], response: &[u8]) -> (r: Result<(), HidppError>)
    requires
        request@.len() >= 4,
    ensures
        match response_error(request@, response@) {
            None => r is Ok,
            Some(e) => r is Err && r->Err_0@ == e,
        },
{
    if response.len() < 7 {
        let mut m = text("报告过短：");
        m.append(dec_text(response.len() as u64).as_str());
        m.append(" 字节");
        return Err(HidppError::InvalidResponse(m));
    }
    if response[0] != REPORT_ID_SHORT && response[0] != REPORT_ID_LONG {
        let mut m = text("未知报告 ID 0x");
        m.append(hex2_text(response[0]).as_str());
        return Err(HidppError::InvalidResponse(m));
    }
    if response[1] != request[1] {
        let mut m = text("设备索引不匹配：0x");
        m.append(hex2_text(response[1]).as_str());
        return Err(HidppError::InvalidResponse(m));
    }
    if (response[2] == 0x8f || response[2] == 0xff) && response[3] == request[2] && response[4]
        == request[3] {
        let code = response[5];
        return Err(HidppError::Device { code, description: error_description(code) });
    }
    if response[2] != request[2] || response[3] != request[3] {
        return Err(invalid("响应与请求元组不匹配"));
    }
    Ok(())
}

/// Whether an incoming report answers the request (success or HID++ error).
pub open spec fn spec_response_matches(request: Seq<u8>, response: Seq<u8>) -> bool {
    &&& response.len() >= 5
    &&& is_report_id(response[0])
    &&& response[1] == request[1]
    &&& (response[2] == request[2] && response[3] == request[3]) || is_error_for(request, response)
}

pub fn response_matches(request: &[u8], response: &[u8]) -> (r: bool)
    requires
        request@.len() >= 4,
    ensures
        r == spec_response_matches(request@, response@),
{
    if response.len() < 5 || !(response[0] == REPORT_ID_SHORT || response[0] == REPORT_ID_LONG) {
        return false;
    }
    if response[1] != request[1] {
        return false;
    }
    (response[2] == request[2] && response[3] == request[3]) || ((response[2] == 0x8f || response[2]
        == 0xff) && response[3] == request[2] && response[4] == request[3])
}

/// The parameter bytes of a response, when at least `minimum` of them are present.
pub fn parameters(response: &[u8], minimum: usize) -> (r: Result<&[u8], HidppError>)
    ensures
        response@.len() < 4 ==> r is Err && r->Err_0@ == HidppErrorView::InvalidResponse(
            "响应没有参数区"@,
        ),
        response@.len() >= 4 && response@.len() - 4 < minimum ==> r is Err && r->Err_0@
            == HidppErrorView::InvalidResponse(
            "参数区过短：需要 "@ + dec(minimum as int) + " 字节，实际 "@ + dec(response@.len() - 4)
                + " 字节"@,
        ),
        response@.len() >= 4 && response@.len() - 4 >= minimum ==> r is Ok && r->Ok_0@
            == response@.subrange(4, response@.len() as int),
{
    if response.len() < 4 {
        return Err(invalid("响应没有参数区"));
    }
    let rest = &response[4..response.len()];
    if rest.len() < minimum {
        let mut m = text("参数区过短：需要 ");
        m.append(dec_text(minimum as u64).as_str());
        m.append(" 字节，实际 ");
        m.append(dec_text(rest.len() as u64).as_str());
        m.append(" 字节");
        return Err(HidppError::InvalidResponse(m));
    }
    Ok(rest)
}

/// The function byte: function number in the high nibble, software id in the low one.
pub open spec fn function_byte(function: u8) -> u8 {
    (function * 16 + SOFTWARE_ID) as u8
}

/// A seven-byte short report addressed to the wired device.
pub open spec fn spec_short_request(feature_index: u8, function: u8, parameters: Seq<u8>) -> Seq<u8> {
    seq![
        REPORT_ID_SHORT,
        WIRED_DEVICE_INDEX,
        feature_index,
        function_byte(function),
        parameters[0],
        parameters[1],
        parameters[2],
    ]
}

/// A twenty-byte long report addressed to the wired device.
pub open spec fn spec_long_request(feature_index: u8, function: u8, parameters: Seq<u8>) -> Seq<u8> {
    seq![REPORT_ID_LONG, WIRED_DEVICE_INDEX, feature_index, function_byte(function)] + parameters
}

pub fn short_request(feature_index: u8, function: u8, parameters: [u8; 3]) -> (report: [u8; 7])
    requires
        function <= 0x0f,
    ensures
        report@ == spec_short_request(feature_index, function, parameters@),
{
    let report = [
        REPORT_ID_SHORT,
        WIRED_DEVICE_INDEX,
        feature_index,
        function * 16 + SOFTWARE_ID,
        parameters[0],
        parameters[1],
        parameters[2],
    ];
    assert(report@ =~= spec_short_request(feature_index, function, parameters@));
    report
}

pub fn long_request(feature_index: u8, function: u8, parameters: [u8; 16]) -> (report: [u8; 20])
    requires
        function <= 0x0f,
    ensures
        report@ == spec_long_request(feature_index, function, parameters@),
{
    let mut report = [0u8; 20];
    report[0] = REPORT_ID_LONG;
    report[1] = WIRED_DEVICE_INDEX;
    report[2] = feature_index;
    report[3] = function * 16 + SOFTWARE_ID;
    let mut i: usize = 0;
    while i < 16
        invariant
            i <= 16,
            report@.len() == 20,
            report@[0] == REPORT_ID_LONG,
            report@[1] == WIRED_DEVICE_INDEX,
            report@[2] == feature_index,
            report@[3] == function_byte(function),
            forall|j: int| 0 <= j < i ==> report@[4 + j] == parameters@[j],
        decreases 16 - i,
    {
        report[4 + i] = parameters[i];
        i = i + 1;
    }
    assert(report@ =~= spec_long_request(feature_index, function, parameters@));
    report
}


// ---------------------------------------------------------------------------
// Profile sector patching (profile format 0x04, 255-byte sectors)
// ---------------------------------------------------------------------------

pub const PROFILE_SECTOR_SIZE: usize = 255;

/// The first cycle level, from position `i` on, that equals `dpi`.
pub open spec fn level_position(levels: Seq<u16>, dpi: u16, i: int) -> Option<int>
    decreases 4 - i,
{
    if i < 0 || i >= 4 {
        None
    } else if levels[i] == dpi {
        Some(i)
    } else {
        level_position(levels, dpi, i + 1)
    }
}

/// Slot `j` (of five) after rotating the four levels to start at `start`; slot four is cleared.
pub open spec fn rotated_slot(levels: Seq<u16>, start: int, j: int) -> u16 {
    if j < 4 {
        levels[(start + j) % 4]
    } else {
        0
    }
}

/// Byte `offset` (0 = low, 1 = high) of a little-endian 16-bit slot.
pub open spec fn slot_byte(value: u16, offset: int) -> u8 {
    if offset % 2 == 0 {
        low_byte(value)
    } else {
        high_byte(value)
    }
}

/// Where the DPI patch starts: the level rotation for `Levels`, the default slot for `Single`.
pub open spec fn dpi_patch_start(original: Seq<u8>, settings: ProfileDpiSettings) -> Result<int, HidppErrorView> {
    match settings {
        ProfileDpiSettings::Levels { dpi, levels } => match level_position(levels@, dpi, 0) {
            Some(p) => Ok(p),
            None => Err(
                HidppErrorView::InvalidResponse(
                    "当前 DPI "@ + dec(dpi as int) + " 不在四个切换档位中，请先调整当前 DPI 或档位"@,
                ),
            ),
        },
        ProfileDpiSettings::Single(_) => if original[1] < 5 {
            Ok(original[1] as int)
        } else {
            Err(
                HidppErrorView::InvalidResponse(
                    "板载默认 DPI 索引 "@ + dec(original[1] as int) + " 超出已验证范围"@,
                ),
            )
        },
    }
}

/// The byte at position `k` after the DPI patch.
pub open spec fn dpi_target(original: Seq<u8>, settings: ProfileDpiSettings, start: int, k: int) -> u8 {
    match settings {
        ProfileDpiSettings::Levels { levels, .. } => if k == 1 {
            0
        } else if 3 <= k < 13 {
            slot_byte(rotated_slot(levels@, start, (k - 3) / 2), k - 3)
        } else {
            original[k]
        },
        ProfileDpiSettings::Single(value) => if 3 + 2 * start <= k < 5 + 2 * start {
            slot_byte(value, k - 3 - 2 * start)
        } else {
            original[k]
        },
    }
}

/// The sector after the DPI step, and whether the step changed it.
pub open spec fn spec_patch_dpi(original: Seq<u8>, dpi: Option<ProfileDpiSettings>) -> Result<
    (Seq<u8>, bool),
    HidppErrorView,
> {
    match dpi {
        None => Ok((original, false)),
        Some(settings) => match dpi_patch_start(original, settings) {
            Err(e) => Err(e),
            Ok(start) => {
                let patched = Seq::new(original.len(), |k: int| dpi_target(original, settings, start, k));
                Ok((patched, patched != original))
            },
        },
    }
}

/// The first action, from index `i` on, that has no binding.
pub open spec fn first_unencodable(actions: Seq<OnboardButtonAction>, i: int) -> Option<int>
    decreases 6 - i,
{
    if i < 0 || i >= 6 {
        None
    } else if spec_encode_button(actions[i]) is None {
        Some(i)
    } else {
        first_unencodable(actions, i + 1)
    }
}

/// The byte at position `k` after writing the six bindings over `base`.
pub open spec fn button_target(base: Seq<u8>, actions: Seq<OnboardButtonAction>, k: int) -> u8 {
    if 32 <= k < 56 {
        spec_encode_button(actions[(k - 32) / 4]).unwrap()[(k - 32) % 4]
    } else {
        base[k]
    }
}

pub open spec fn button_bytes(sector: Seq<u8>, b: int) -> Seq<u8> {
    sector.subrange(32 + 4 * b, 36 + 4 * b)
}

/// The slots among the first `n` whose stored binding differs from the target binding.
pub open spec fn changed_buttons(base: Seq<u8>, actions: Seq<OnboardButtonAction>, n: int) -> Seq<usize>
    decreases n,
{
    if n <= 0 {
        seq![]
    } else if button_bytes(base, n - 1) != spec_encode_button(actions[n - 1]).unwrap() {
        changed_buttons(base, actions, n - 1).push((n - 1) as usize)
    } else {
        changed_buttons(base, actions, n - 1)
    }
}

/// A sector with its last two bytes replaced by the big-endian CRC of the rest.
pub open spec fn with_crc(sector: Seq<u8>) -> Seq<u8> {
    let payload = sector.subrange(0, sector.len() - 2);
    let crc = spec_crc(payload);
    payload + seq![high_byte(crc), low_byte(crc)]
}

pub open spec fn size_error_message() -> Seq<char> {
    "办公映射只支持 6 按键、255 字节的已验证配置格式"@
}

/// The patched profile sector, the changed button slots, and whether the DPI slots changed.
pub open spec fn spec_build_profile_sector(
    original: Seq<u8>,
    button_count: u8,
    actions: Seq<OnboardButtonAction>,
    dpi: Option<ProfileDpiSettings>,
) -> Result<(Seq<u8>, Seq<usize>, bool), HidppErrorView> {
    match sector_crc_error(original) {
        Some(message) => Err(HidppErrorView::InvalidResponse(message)),
        None => if button_count != 6 || original.len() != 255 {
            Err(HidppErrorView::InvalidResponse(size_error_message()))
        } else {
            match spec_patch_dpi(original, dpi) {
                Err(e) => Err(e),
                Ok((patched, dpi_changed)) => match first_unencodable(actions, 0) {
                    Some(k) => Err(HidppErrorView::InvalidResponse(encode_button_error(actions[k]))),
                    None => {
                        let buttons = Seq::new(patched.len(), |k: int| button_target(patched, actions, k));
                        Ok((with_crc(buttons), changed_buttons(original, actions, 6), dpi_changed))
                    },
                },
            }
        },
    }
}

fn copy_bytes(source: &[u8]) -> (copy: Vec<u8>)
    ensures
        copy@ == source@,
{
    let mut copy: Vec<u8> = Vec::new();
    let mut i: usize = 0;
    while i < source.len()
        invariant
            i <= source@.len(),
            copy@ == source@.subrange(0, i as int),
        decreases source.len() - i,
    {
        copy.push(source[i]);
        i = i + 1;
        assert(copy@ =~= source@.subrange(0, i as int));
    }
    assert(source@.subrange(0, source@.len() as int) =~= source@);
    copy
}

fn slot_byte_exec(value: u16, offset: usize) -> (b: u8)
    ensures
        b == slot_byte(value, offset as int),
{
    if offset % 2 == 0 {
        (value % 256) as u8
    } else {
        (value / 256) as u8
    }
}

fn dpi_target_exec(original: &[u8], settings: &ProfileDpiSettings, start: usize, k: usize) -> (b: u8)
    requires
        original@.len() == 255,
        k < 255,
        start < 5,
        settings is Levels ==> start < 4,
    ensures
        b == dpi_target(original@, *settings, start as int, k as int),
{
    match settings {
        ProfileDpiSettings::Levels { levels, .. } => {
            if k == 1 {
                0
            } else if k >= 3 && k < 13 {
                let j = (k - 3) / 2;
                let value = if j < 4 {
                    levels[(start + j) % 4]
                } else {
                    0
                };
                slot_byte_exec(value, k - 3)
            } else {
                original[k]
            }
        },
        ProfileDpiSettings::Single(value) => {
            if 3 + 2 * start <= k && k < 5 + 2 * start {
                slot_byte_exec(*value, k - 3 - 2 * start)
            } else {
                original[k]
            }
        },
    }
}

/// Applies the DPI step of a profile write to a 255-byte sector.
fn patch_profile_dpi(original: &[u8], dpi: Option<ProfileDpiSettings>) -> (r: Result<(Vec<u8>, bool), HidppError>)
    requires
        original@.len() == 255,
    ensures
        match spec_patch_dpi(original@, dpi) {
            Ok((patched, changed)) => r matches Ok((v, c)) && v@ == patched && c == changed,
            Err(e) => r is Err && r->Err_0@ == e,
        },
{
    let settings = match dpi {
        None => {
            return Ok((copy_bytes(original), false));
        },
        Some(settings) => settings,
    };
    let start: usize = match settings {
        ProfileDpiSettings::Levels { dpi, levels } => {
            let mut position: usize = 0;
            while position < 4 && levels[position] != dpi
                invariant
                    position <= 4,
                    level_position(levels@, dpi, 0) == level_position(levels@, dpi, position as int),
                decreases 4 - position,
            {
                position = position + 1;
            }
            if position == 4 {
                let mut m = text("当前 DPI ");
                m.append(dec_text(dpi as u64).as_str());
                m.append(" 不在四个切换档位中，请先调整当前 DPI 或档位");
                return Err(HidppError::InvalidResponse(m));
            }
            position
        },
        ProfileDpiSettings::Single(_) => {
            let index = original[1];
            if index >= 5 {
                let mut m = text("板载默认 DPI 索引 ");
                m.append(dec_text(index as u64).as_str());
                m.append(" 超出已验证范围");
                return Err(HidppError::InvalidResponse(m));
            }
            index as usize
        },
    };
    assert(dpi_patch_start(original@, settings) == Ok::<int, HidppErrorView>(start as int));
    let ghost target = Seq::new(255, |k: int| dpi_target(original@, settings, start as int, k));
    let mut desired = copy_bytes(original);
    let mut changed = false;
    let mut k: usize = 0;
    while k < 255
        invariant
            original@.len() == 255,
            desired@.len() == 255,
            start < 5,
            settings is Levels ==> start < 4,
            target == Seq::new(255, |k: int| dpi_target(original@, settings, start as int, k)),
            k <= 255,
            forall|j: int| 0 <= j < k ==> desired@[j] == target[j],
            forall|j: int| k <= j < 255 ==> desired@[j] == original@[j],
            changed == exists|j: int| 0 <= j < 255 && desired@[j] != original@[j],
        decreases 255 - k,
    {
        let b = dpi_target_exec(original, &settings, start, k);
        if desired[k] != b {
            desired.set(k, b);
            assert(desired@[k as int] != original@[k as int]);
            changed = true;
        }
        k = k + 1;
    }
    assert(desired@ =~= target);
    proof {
        if !changed {
            assert(desired@ =~= original@);
        }
    }
    Ok((desired, changed))
}

fn bytes_differ4(sector: &Vec<u8>, start: usize, encoded: &[u8; 4]) -> (r: bool)
    requires
        start + 4 <= sector.len(),
    ensures
        r == (sector@.subrange(start as int, start + 4) != encoded@),
{
    let r = sector[start] != encoded[0] || sector[start + 1] != encoded[1] || sector[start + 2]
        != encoded[2] || sector[start + 3] != encoded[3];
    proof {
        let s = sector@.subrange(start as int, start + 4);
        if !r {
            assert(s =~= encoded@);
        } else {
            assert(s[0] != encoded@[0] || s[1] != encoded@[1] || s[2] != encoded@[2] || s[3] != encoded@[3]);
        }
    }
    r
}

/// Writes the six bindings into the sector; reports the slots whose binding changed.
fn patch_profile_buttons(desired: &mut Vec<u8>, actions: &[OnboardButtonAction; 6]) -> (r: Result<Vec<usize>, HidppError>)
    requires
        old(desired)@.len() == 255,
    ensures
        match first_unencodable(actions@, 0) {
            Some(k) => r is Err && r->Err_0@ == HidppErrorView::InvalidResponse(
                encode_button_error(actions@[k]),
            ),
            None => r matches Ok(changed) && changed@ == changed_buttons(old(desired)@, actions@, 6)
                && final(desired)@ == Seq::new(255, |k: int| button_target(old(desired)@, actions@, k)),
        },
{
    let ghost base = desired@;
    let mut changed: Vec<usize> = Vec::new();
    let mut b: usize = 0;
    while b < 6
        invariant
            base.len() == 255,
            desired@.len() == 255,
            b <= 6,
            first_unencodable(actions@, 0) == first_unencodable(actions@, b as int),
            forall|j: int| 0 <= j < b ==> spec_encode_button(#[trigger] actions@[j]) is Some,
            forall|k: int| 0 <= k < 255 && !(32 <= k < 32 + 4 * b) ==> desired@[k] == base[k],
            forall|k: int| 32 <= k < 32 + 4 * b ==> desired@[k] == button_target(base, actions@, k),
            changed@ == changed_buttons(base, actions@, b as int),
        decreases 6 - b,
    {
        let encoded = match encode_onboard_button(&actions[b]) {
            Ok(encoded) => encoded,
            Err(e) => {
                return Err(e);
            },
        };
        let start = 32 + b * 4;
        assert(desired@.subrange(start as int, start + 4) =~= button_bytes(base, b as int));
        if bytes_differ4(desired, start, &encoded) {
            let mut i: usize = 0;
            while i < 4
                invariant
                    start == 32 + 4 * b,
                    b < 6,
                    desired@.len() == 255,
                    i <= 4,
                    encoded@ == spec_encode_button(actions@[b as int]).unwrap(),
                    forall|k: int| 0 <= k < 255 && !(32 <= k < start + i) ==> desired@[k] == base[k],
                    forall|k: int| 32 <= k < start ==> desired@[k] == button_target(base, actions@, k),
                    forall|k: int| start <= k < start + i ==> desired@[k] == encoded@[k - start],
                decreases 4 - i,
            {
                desired.set(start + i, encoded[i]);
                i = i + 1;
            }
            changed.push(b);
        }
        proof {
            assert forall|k: int| start <= k < start + 4 implies desired@[k] == button_target(base, actions@, k) by {
                assert((k - 32) / 4 == b as int);
                assert((k - 32) % 4 == k - start);
                if !(desired@[k] == encoded@[k - start]) {
                    assert(button_bytes(base, b as int)[k - start] == base[k]);
                }
            }
        }
        b = b + 1;
    }
    assert(desired@ =~= Seq::new(255, |k: int| button_target(base, actions@, k)));
    Ok(changed)
}

/// Rewrites the trailing big-endian CRC of a 255-byte sector.
fn write_sector_crc(desired: &mut Vec<u8>)
    requires
        old(desired)@.len() == 255,
    ensures
        final(desired)@ == with_crc(old(desired)@),
{
    let crc = crc_ccitt_prefix(desired.as_slice(), 253);
    let bytes = u16_to_be(crc);
    desired.set(253, bytes[0]);
    desired.set(254, bytes[1]);
    assert(final(desired)@ =~= with_crc(old(desired)@)) by {
        assert(old(desired)@.subrange(0, 253) =~= desired@.subrange(0, 253));
    }
}

/// Patches the onboard profile sector: DPI slots (if requested) and the six button
/// bindings, then recomputes the CRC. Fails before changing anything when the sector's
/// CRC is invalid, the layout is not the verified 6-button 255-byte one, the DPI
/// request cannot be placed, or an action has no binding.
pub fn build_profile_sector(
    original: &[u8],
    button_count: u8,
    actions: &[OnboardButtonAction; 6],
    dpi: Option<ProfileDpiSettings>,
) -> (r: Result<(Vec<u8>, Vec<usize>, bool), HidppError>)
    ensures
        match spec_build_profile_sector(original@, button_count, actions@, dpi) {
            Ok((sector, changed, dpi_changed)) => r matches Ok((v, c, d)) && v@ == sector && c@
                == changed && d == dpi_changed,
            Err(e) => r is Err && r->Err_0@ == e,
        },
{
    validate_sector_crc(original)?;
    if button_count != 6 || original.len() != 255 {
        return Err(invalid("办公映射只支持 6 按键、255 字节的已验证配置格式"));
    }
    let (mut desired, dpi_changed) = patch_profile_dpi(original, dpi)?;
    let ghost patched = desired@;
    let changed = patch_profile_buttons(&mut desired, actions)?;
    proof {
        assert forall|b: int| 0 <= b < 6 implies button_bytes(patched, b) == button_bytes(original@, b) by {
            assert(button_bytes(patched, b) =~= button_bytes(original@, b));
        }
        lemma_changed_buttons_same_region(patched, original@, actions@, 6);
    }
    write_sector_crc(&mut desired);
    Ok((desired, changed, dpi_changed))
}

proof fn lemma_changed_buttons_same_region(a: Seq<u8>, b: Seq<u8>, actions: Seq<OnboardButtonAction>, n: int)
    requires
        n <= 6,
        forall|i: int| 0 <= i < n ==> button_bytes(a, i) == button_bytes(b, i),
    ensures
        changed_buttons(a, actions, n) == changed_buttons(b, actions, n),
    decreases n,
{
    if n > 0 {
        lemma_changed_buttons_same_region(a, b, actions, n - 1);
    }
}

/// The Office mapping patched into a sector without touching its DPI slots.
pub fn build_office_profile_sector(original: &[u8], button_count: u8) -> (r: Result<(Vec<u8>, Vec<usize>), HidppError>)
    ensures
        match spec_build_profile_sector(original@, button_count, spec_office_button_actions(), None) {
            Ok((sector, changed, _)) => r matches Ok((v, c)) && v@ == sector && c@ == changed,
            Err(e) => r is Err && r->Err_0@ == e,
        },
{
    let actions = g102_office_button_actions();
    let (sector, buttons, _) = build_profile_sector(original, button_count, &actions, None)?;
    Ok((sector, buttons))
}


proof fn lemma_be16_bytes(value: u16)
    ensures
        be16(high_byte(value), low_byte(value)) == value,
{
}

proof fn lemma_be16_split(high: u8, low: u8)
    ensures
        high_byte(be16(high, low)) == high,
        low_byte(be16(high, low)) == low,
{
}

proof fn lemma_with_crc_valid(sector: Seq<u8>)
    requires
        sector.len() >= 2,
    ensures
        with_crc(sector).len() == sector.len(),
        sector_crc_ok(with_crc(sector)),
        forall|k: int| 0 <= k < sector.len() - 2 ==> with_crc(sector)[k] == sector[k],
{
    let w = with_crc(sector);
    let payload = sector.subrange(0, sector.len() - 2);
    assert(w.subrange(0, w.len() - 2) =~= payload);
    lemma_be16_bytes(spec_crc(payload));
}

proof fn lemma_with_crc_fixed_point(sector: Seq<u8>)
    requires
        sector.len() >= 2,
        sector_crc_ok(sector),
    ensures
        with_crc(sector) == sector,
{
    let n = sector.len() as int;
    lemma_be16_split(sector[n - 2], sector[n - 1]);
    assert(with_crc(sector) =~= sector);
}

/// A successful patch yields a 255-byte sector with a valid CRC that agrees with the
/// original everywhere except the default-slot byte, the five DPI slots, the six button
/// bindings and the CRC itself.
pub proof fn lemma_build_profile_sector_frame(
    original: Seq<u8>,
    button_count: u8,
    actions: Seq<OnboardButtonAction>,
    dpi: Option<ProfileDpiSettings>,
)
    requires
        spec_build_profile_sector(original, button_count, actions, dpi) is Ok,
    ensures
        ({
            let sector = spec_build_profile_sector(original, button_count, actions, dpi)->Ok_0.0;
            &&& sector.len() == 255
            &&& sector_crc_ok(sector)
            &&& forall|k: int|
                0 <= k < 253 && k != 1 && !(3 <= k < 13) && !(32 <= k < 56) ==> sector[k] == original[k]
        }),
{
    let patched = spec_patch_dpi(original, dpi)->Ok_0.0;
    let buttons = Seq::new(patched.len(), |k: int| button_target(patched, actions, k));
    lemma_with_crc_valid(buttons);
}

/// Patching the sector that a patch produced, with the same actions and DPI settings,
/// leaves it unchanged and reports no changed slot: a profile that is already on the
/// device is never rewritten.
pub proof fn lemma_build_profile_sector_idempotent(
    original: Seq<u8>,
    actions: Seq<OnboardButtonAction>,
    dpi: Option<ProfileDpiSettings>,
)
    requires
        spec_build_profile_sector(original, 6, actions, dpi) is Ok,
    ensures
        ({
            let sector = spec_build_profile_sector(original, 6, actions, dpi)->Ok_0.0;
            spec_build_profile_sector(sector, 6, actions, dpi) == Ok::<
                (Seq<u8>, Seq<usize>, bool),
                HidppErrorView,
            >((sector, seq![], false))
        }),
{
    let patched = spec_patch_dpi(original, dpi)->Ok_0.0;
    let buttons = Seq::new(patched.len(), |k: int| button_target(patched, actions, k));
    let sector = with_crc(buttons);
    lemma_build_profile_sector_frame(original, 6, actions, dpi);
    lemma_with_crc_valid(buttons);
    assert(sector == spec_build_profile_sector(original, 6, actions, dpi)->Ok_0.0);
    // The DPI step reproduces the sector.
    match dpi {
        None => {},
        Some(settings) => {
            let start = dpi_patch_start(original, settings)->Ok_0;
            assert forall|k: int| 0 <= k < 13 implies sector[k] == dpi_target(original, settings, start, k) by {
                assert(sector[k] == buttons[k]);
            }
            lemma_dpi_step_fixed(original, sector, settings);
        },
    }
    assert(spec_patch_dpi(sector, dpi) == Ok::<(Seq<u8>, bool), HidppErrorView>((sector, false)));
    // The button step reproduces the sector.
    lemma_buttons_step_fixed(patched, actions);
    lemma_no_changed_buttons(sector, actions, 6);
    lemma_with_crc_fixed_point(sector);
}

proof fn lemma_dpi_step_fixed(original: Seq<u8>, sector: Seq<u8>, settings: ProfileDpiSettings)
    requires
        original.len() == 255,
        sector.len() == 255,
        dpi_patch_start(original, settings) is Ok,
        forall|k: int|
            0 <= k < 13 ==> sector[k] == dpi_target(
                original,
                settings,
                dpi_patch_start(original, settings)->Ok_0,
                k,
            ),
    ensures
        spec_patch_dpi(sector, Some(settings)) == Ok::<(Seq<u8>, bool), HidppErrorView>((sector, false)),
{
    let start = dpi_patch_start(original, settings)->Ok_0;
    assert(dpi_patch_start(sector, settings) == dpi_patch_start(original, settings));
    let again = Seq::new(sector.len(), |k: int| dpi_target(sector, settings, start, k));
    assert forall|k: int| 0 <= k < 255 implies again[k] == sector[k] by {
        if k < 13 {
            assert(sector[k] == dpi_target(original, settings, start, k));
        }
    }
    assert(again =~= sector);
}

proof fn lemma_buttons_step_fixed(patched: Seq<u8>, actions: Seq<OnboardButtonAction>)
    requires
        patched.len() == 255,
        first_unencodable(actions, 0) is None,
    ensures
        ({
            let buttons = Seq::new(patched.len(), |k: int| button_target(patched, actions, k));
            let sector = with_crc(buttons);
            &&& Seq::new(sector.len(), |k: int| button_target(sector, actions, k)) == sector
            &&& forall|b: int|
                0 <= b < 6 ==> button_bytes(sector, b) == spec_encode_button(actions[b]).unwrap()
        }),
{
    let buttons = Seq::new(patched.len(), |k: int| button_target(patched, actions, k));
    let sector = with_crc(buttons);
    lemma_with_crc_valid(buttons);
    lemma_all_encodable(actions, 0);
    lemma_button_region_fixed(buttons, sector, patched, actions);
    assert forall|b: int| 0 <= b < 6 implies button_bytes(sector, b) == spec_encode_button(
        actions[b],
    ).unwrap() by {
        lemma_button_bytes_of(buttons, sector, patched, actions, b);
    }
}

proof fn lemma_button_region_fixed(
    buttons: Seq<u8>,
    sector: Seq<u8>,
    patched: Seq<u8>,
    actions: Seq<OnboardButtonAction>,
)
    requires
        buttons == Seq::new(patched.len(), |k: int| button_target(patched, actions, k)),
        sector.len() == buttons.len(),
        buttons.len() == 255,
        forall|k: int| 0 <= k < 253 ==> sector[k] == buttons[k],
    ensures
        Seq::new(sector.len(), |k: int| button_target(sector, actions, k)) == sector,
{
    let again = Seq::new(sector.len(), |k: int| button_target(sector, actions, k));
    assert forall|k: int| 0 <= k < 255 implies #[trigger] again[k] == sector[k] by {
        if 32 <= k < 56 {
            assert(sector[k] == buttons[k]);
            assert(buttons[k] == button_target(patched, actions, k));
        }
    }
    assert(again =~= sector);
}

proof fn lemma_button_bytes_of(
    buttons: Seq<u8>,
    sector: Seq<u8>,
    patched: Seq<u8>,
    actions: Seq<OnboardButtonAction>,
    b: int,
)
    requires
        0 <= b < 6,
        spec_encode_button(actions[b]) is Some,
        buttons == Seq::new(patched.len(), |k: int| button_target(patched, actions, k)),
        sector.len() == buttons.len(),
        buttons.len() == 255,
        forall|k: int| 0 <= k < 253 ==> sector[k] == buttons[k],
    ensures
        button_bytes(sector, b) == spec_encode_button(actions[b]).unwrap(),
{
    let e = spec_encode_button(actions[b]).unwrap();
    assert forall|j: int| 0 <= j < 4 implies #[trigger] button_bytes(sector, b)[j] == e[j] by {
        let k = 32 + 4 * b + j;
        assert((k - 32) / 4 == b);
        assert((k - 32) % 4 == j);
        assert(sector[k] == buttons[k]);
    }
    assert(button_bytes(sector, b) =~= e);
}

proof fn lemma_all_encodable(actions: Seq<OnboardButtonAction>, i: int)
    requires
        0 <= i,
        first_unencodable(actions, i) is None,
    ensures
        forall|j: int| i <= j < 6 ==> spec_encode_button(#[trigger] actions[j]) is Some,
    decreases 6 - i,
{
    if i < 6 {
        lemma_all_encodable(actions, i + 1);
    }
}

proof fn lemma_no_changed_buttons(sector: Seq<u8>, actions: Seq<OnboardButtonAction>, n: int)
    requires
        n <= 6,
        forall|b: int| 0 <= b < n ==> button_bytes(sector, b) == spec_encode_button(actions[b]).unwrap(),
    ensures
        changed_buttons(sector, actions, n) == Seq::<usize>::empty(),
    decreases n,
{
    if n > 0 {
        lemma_no_changed_buttons(sector, actions, n - 1);
    }
}

} // verus!
