//! The probe tool: its command line, and the report it prints about the HID
//! collections it found and the HID++ capabilities of the first G102.

use vstd::prelude::*;

use crate::discovery::{display_optional, display_serial, HidCollectionInfo, LOGITECH_VENDOR_ID, spec_is_g102_product};
use crate::fmt::{decimal_text, hex_text, spec_decimal, spec_hex, zero_pad};
use crate::gui::{i32_text, int_text, parse_unsigned, spec_parse_unsigned};
use crate::hidpp::{text, DpiSensorInfo, HidppFeature, HidppProbeResult};
use crate::text::str_equal;

verus! {

// ---------------------------------------------------------------------------
// Command line
// ---------------------------------------------------------------------------

/// What the probe's command line asks for.
#[derive(Debug, Clone, Copy, PartialEq, Eq, Structural)]
pub enum ProbeInvocation {
    Help,
    Run { include_all: bool, protocol_trace: bool, requested_dpi: Option<u16> },
}

/// The switches read so far: all collections, protocol trace, requested DPI,
/// write confirmed.
pub type ProbeSwitches = (bool, bool, Option<u16>, bool);

/// Reads the words from `i` on, left to right: `Ok(None)` when a help switch
/// comes before any problem.
pub open spec fn probe_scan(words: Seq<Seq<char>>, i: int, s: ProbeSwitches) -> Result<Option<ProbeSwitches>, Seq<char>>
    decreases words.len() - i,
{
    if i < 0 || i >= words.len() {
        Ok(Some(s))
    } else {
        let word = words[i];
        if word == "--all"@ {
            probe_scan(words, i + 1, (true, s.1, s.2, s.3))
        } else if word == "--protocol-trace"@ {
            probe_scan(words, i + 1, (s.0, true, s.2, s.3))
        } else if word == "--confirm-device-write"@ {
            probe_scan(words, i + 1, (s.0, s.1, s.2, true))
        } else if word == "--set-dpi"@ {
            if i + 1 >= words.len() {
                Err("--set-dpi 后必须提供 DPI 数值"@)
            } else {
                match spec_parse_unsigned(words[i + 1], 0xffff) {
                    None => Err("无效 DPI 数值："@ + words[i + 1]),
                    Some(dpi) => probe_scan(words, i + 2, (s.0, s.1, Some(dpi as u16), s.3)),
                }
            }
        } else if word == "-h"@ || word == "--help"@ {
            Ok(None)
        } else {
            Err("未知参数："@ + word)
        }
    }
}

/// The invocation the words after the program name stand for, or why they are
/// refused: a DPI is written only when the write is confirmed, and a
/// confirmation without a DPI is refused too.
pub open spec fn spec_parse_probe_arguments(words: Seq<Seq<char>>) -> Result<ProbeInvocation, Seq<char>> {
    match probe_scan(words, 0, (false, false, None, false)) {
        Err(message) => Err(message),
        Ok(None) => Ok(ProbeInvocation::Help),
        Ok(Some((include_all, protocol_trace, requested_dpi, confirmed))) => if requested_dpi is Some && !confirmed {
            Err("拒绝写入：--set-dpi 必须同时提供 --confirm-device-write"@)
        } else if requested_dpi is None && confirmed {
            Err("--confirm-device-write 只能与 --set-dpi 一起使用"@)
        } else {
            Ok(ProbeInvocation::Run { include_all, protocol_trace, requested_dpi })
        },
    }
}

pub fn parse_probe_arguments(words: &Vec<String>) -> (r: Result<ProbeInvocation, String>)
    ensures
        match spec_parse_probe_arguments(words@.map_values(|w: String| w@)) {
            Ok(invocation) => r == Ok::<ProbeInvocation, String>(invocation),
            Err(message) => r is Err && r->Err_0@ == message,
        },
{
    let ghost all = words@.map_values(|w: String| w@);
    let mut include_all = false;
    let mut protocol_trace = false;
    let mut requested_dpi: Option<u16> = None;
    let mut confirmed = false;
    let mut i: usize = 0;
    while i < words.len()
        invariant
            all == words@.map_values(|w: String| w@),
            i <= words@.len(),
            probe_scan(all, 0, (false, false, None, false)) == probe_scan(
                all,
                i as int,
                (include_all, protocol_trace, requested_dpi, confirmed),
            ),
        decreases words.len() - i,
    {
        let word = words[i].as_str();
        assert(all[i as int] == word@);
        if str_equal(word, "--all") {
            include_all = true;
            i = i + 1;
        } else if str_equal(word, "--protocol-trace") {
            protocol_trace = true;
            i = i + 1;
        } else if str_equal(word, "--confirm-device-write") {
            confirmed = true;
            i = i + 1;
        } else if str_equal(word, "--set-dpi") {
            if i + 1 >= words.len() {
                return Err(text("--set-dpi 后必须提供 DPI 数值"));
            }
            let value = words[i + 1].as_str();
            assert(all[i + 1] == value@);
            match parse_unsigned(value, 0xffff) {
                Some(dpi) => {
                    requested_dpi = Some(dpi as u16);
                },
                None => {
                    let mut m = text("无效 DPI 数值：");
                    m.append(value);
                    return Err(m);
                },
            }
            i = i + 2;
        } else if str_equal(word, "-h") || str_equal(word, "--help") {
            return Ok(ProbeInvocation::Help);
        } else {
            let mut m = text("未知参数：");
            m.append(word);
            return Err(m);
        }
    }
    if requested_dpi.is_some() && !confirmed {
        return Err(text("拒绝写入：--set-dpi 必须同时提供 --confirm-device-write"));
    }
    if requested_dpi.is_none() && confirmed {
        return Err(text("--confirm-device-write 只能与 --set-dpi 一起使用"));
    }
    Ok(ProbeInvocation::Run { include_all, protocol_trace, requested_dpi })
}

// ---------------------------------------------------------------------------
// Collections
// ---------------------------------------------------------------------------

pub open spec fn known_g102(c: HidCollectionInfo) -> bool {
    c.vendor_id == LOGITECH_VENDOR_ID && spec_is_g102_product(c.product_id)
}

/// How a collection is described in the report.
pub open spec fn spec_collection_model(c: HidCollectionInfo) -> &'static str {
    if known_g102(c) {
        "G102/G203 候选"
    } else if c.vendor_id == LOGITECH_VENDOR_ID {
        "其他 Logitech 设备"
    } else {
        "其他 HID 设备"
    }
}

pub fn collection_model(collection: &HidCollectionInfo) -> (model: &'static str)
    ensures
        model == spec_collection_model(*collection),
{
    if collection.is_known_g102() {
        "G102/G203 候选"
    } else if collection.is_logitech() {
        "其他 Logitech 设备"
    } else {
        "其他 HID 设备"
    }
}

/// How many of the first `n` collections are known G102/G203 collections, and
/// how many of those are vendor-defined interfaces.
pub open spec fn g102_counts_upto(cs: Seq<HidCollectionInfo>, n: int) -> (int, int)
    decreases n,
{
    if n <= 0 {
        (0, 0)
    } else {
        let (known, vendor) = g102_counts_upto(cs, n - 1);
        let c = cs[n - 1];
        (
            known + if known_g102(c) {
                1int
            } else {
                0
            },
            vendor + if known_g102(c) && 0xff00 <= c.usage_page {
                1int
            } else {
                0
            },
        )
    }
}

proof fn lemma_counts_bounded(cs: Seq<HidCollectionInfo>, n: int)
    requires
        0 <= n,
    ensures
        0 <= g102_counts_upto(cs, n).1 <= g102_counts_upto(cs, n).0 <= n,
    decreases n,
{
    if n > 0 {
        lemma_counts_bounded(cs, n - 1);
    }
}

/// The known G102/G203 collections, and those of them that are vendor-defined
/// interfaces (the HID++ candidates).
pub fn g102_counts(collections: &Vec<HidCollectionInfo>) -> (counts: (usize, usize))
    ensures
        (counts.0 as int, counts.1 as int) == g102_counts_upto(collections@, collections@.len() as int),
{
    let mut known: usize = 0;
    let mut vendor: usize = 0;
    let mut i: usize = 0;
    while i < collections.len()
        invariant
            i <= collections@.len(),
            (known as int, vendor as int) == g102_counts_upto(collections@, i as int),
        decreases collections.len() - i,
    {
        proof {
            lemma_counts_bounded(collections@, i as int);
        }
        let c = &collections[i];
        if c.is_known_g102() {
            known = known + 1;
            if c.is_vendor_defined() {
                vendor = vendor + 1;
            }
        }
        i = i + 1;
    }
    (known, vendor)
}

/// The summary line after the collections.
pub open spec fn spec_summary_line(total: usize, known: usize, vendor: usize) -> Seq<char> {
    "汇总："@ + spec_decimal(total as nat) + " 个 collection，"@ + spec_decimal(known as nat) + " 个已知 G102/G203 collection，"@
        + spec_decimal(vendor as nat) + " 个厂商自定义候选接口。"@
}

pub fn summary_line(total: usize, known: usize, vendor: usize) -> (line: String)
    ensures
        line@ == spec_summary_line(total, known, vendor),
{
    let mut line = text("汇总：");
    line.append(decimal_text(total as u64).as_str());
    line.append(" 个 collection，");
    line.append(decimal_text(known as u64).as_str());
    line.append(" 个已知 G102/G203 collection，");
    line.append(decimal_text(vendor as u64).as_str());
    line.append(" 个厂商自定义候选接口。");
    line
}

pub open spec fn hex4(n: u16) -> Seq<char> {
    zero_pad(spec_hex(n as nat), 4)
}

pub open spec fn shown_optional(value: Option<String>) -> Seq<char> {
    match value {
        Some(t) => if t@.len() > 0 {
            t@
        } else {
            "<无>"@
        },
        None => "<无>"@,
    }
}

pub open spec fn shown_serial(value: Option<String>) -> Seq<char> {
    if value matches Some(t) && t@.len() > 0 {
        "<已隐藏>"@
    } else {
        "<无>"@
    }
}

/// The report lines for the collection numbered `index` (the last is empty).
pub open spec fn spec_collection_lines(index: usize, c: HidCollectionInfo) -> Seq<Seq<char>> {
    let head = seq![
        "["@ + spec_decimal(index as nat) + "] "@ + spec_collection_model(c)@,
        "  USB: "@ + hex4(c.vendor_id) + ":"@ + hex4(c.product_id) + " release="@ + hex4(c.release_number)
            + " bus="@ + c.bus_type@,
        "  名称: manufacturer="@ + shown_optional(c.manufacturer) + " product="@ + shown_optional(c.product)
            + " serial="@ + shown_serial(c.serial_number),
        "  Collection: interface="@ + int_text(c.interface_number as int) + " usage_page=0x"@ + hex4(c.usage_page)
            + " usage=0x"@ + hex4(c.usage),
        match (c.report_descriptor_length, c.report_lengths) {
            (Some(descriptor), Some(reports)) => "  报告: descriptor="@ + spec_decimal(descriptor as nat) + "B input="@
                + spec_decimal(reports.input as nat) + "B output="@ + spec_decimal(reports.output as nat)
                + "B feature="@ + spec_decimal(reports.feature as nat) + "B"@,
            _ => "  报告: 无法读取"@,
        },
    ];
    match c.open_error {
        Some(error) => head.push("  读取警告: "@ + error@).push(Seq::empty()),
        None => head.push(Seq::empty()),
    }
}

fn optional_text(value: &Option<String>) -> (shown: &str)
    ensures
        shown@ == shown_optional(*value),
{
    let borrowed = match value {
        Some(t) => Some(t.as_str()),
        None => None,
    };
    display_optional(borrowed)
}

fn serial_text(value: &Option<String>) -> (shown: &'static str)
    ensures
        shown@ == shown_serial(*value),
{
    let borrowed = match value {
        Some(t) => Some(t.as_str()),
        None => None,
    };
    display_serial(borrowed)
}

pub fn collection_lines(index: usize, collection: &HidCollectionInfo) -> (lines: Vec<String>)
    ensures
        lines@.map_values(|l: String| l@) == spec_collection_lines(index, *collection),
{
    let c = collection;
    let mut first = text("[");
    first.append(decimal_text(index as u64).as_str());
    first.append("] ");
    first.append(collection_model(c));
    let mut usb = text("  USB: ");
    usb.append(hex_text(c.vendor_id as u64, 4).as_str());
    usb.append(":");
    usb.append(hex_text(c.product_id as u64, 4).as_str());
    usb.append(" release=");
    usb.append(hex_text(c.release_number as u64, 4).as_str());
    usb.append(" bus=");
    usb.append(c.bus_type.as_str());
    let mut names = text("  名称: manufacturer=");
    names.append(optional_text(&c.manufacturer));
    names.append(" product=");
    names.append(optional_text(&c.product));
    names.append(" serial=");
    names.append(serial_text(&c.serial_number));
    let mut usage = text("  Collection: interface=");
    usage.append(i32_text(c.interface_number).as_str());
    usage.append(" usage_page=0x");
    usage.append(hex_text(c.usage_page as u64, 4).as_str());
    usage.append(" usage=0x");
    usage.append(hex_text(c.usage as u64, 4).as_str());
    let reports = match (c.report_descriptor_length, c.report_lengths) {
        (Some(descriptor), Some(lengths)) => {
            let mut line = text("  报告: descriptor=");
            line.append(decimal_text(descriptor as u64).as_str());
            line.append("B input=");
            line.append(decimal_text(lengths.input as u64).as_str());
            line.append("B output=");
            line.append(decimal_text(lengths.output as u64).as_str());
            line.append("B feature=");
            line.append(decimal_text(lengths.feature as u64).as_str());
            line.append("B");
            line
        },
        _ => text("  报告: 无法读取"),
    };
    let mut lines: Vec<String> = Vec::new();
    lines.push(first);
    lines.push(usb);
    lines.push(names);
    lines.push(usage);
    lines.push(reports);
    match &c.open_error {
        Some(error) => {
            let mut warning = text("  读取警告: ");
            warning.append(error.as_str());
            lines.push(warning);
        },
        None => {},
    }
    lines.push(text(""));
    proof {
        reveal_strlit("");
        let expected = spec_collection_lines(index, *collection);
        let shown = lines@.map_values(|l: String| l@);
        assert(shown[0] == expected[0]);
        assert(shown[1] == expected[1]);
        assert(shown[2] == expected[2]);
        assert(shown[3] == expected[3]);
        assert(shown[4] == expected[4]);
        if collection.open_error is Some {
            assert(shown[5] == expected[5]);
            assert(shown[6] =~= expected[6]);
        } else {
            assert(shown[5] =~= expected[5]);
        }
        assert(shown.len() == expected.len());
        assert(shown =~= expected);
    }
    lines
}

// ---------------------------------------------------------------------------
// HID++ capabilities
// ---------------------------------------------------------------------------

pub open spec fn hex2(n: u8) -> Seq<char> {
    zero_pad(spec_hex(n as nat), 2)
}

/// `{:?}` of a list of numbers: `[a, b, c]`.
pub open spec fn debug_list(values: Seq<u16>) -> Seq<char> {
    "["@ + list_items(values, values.len() as int) + "]"@
}

pub open spec fn list_items(values: Seq<u16>, n: int) -> Seq<char>
    decreases n,
{
    if n <= 0 {
        Seq::empty()
    } else if n == 1 {
        spec_decimal(values[0] as nat)
    } else {
        list_items(values, n - 1) + ", "@ + spec_decimal(values[n - 1] as nat)
    }
}

fn debug_list_text(values: &Vec<u16>) -> (t: String)
    ensures
        t@ == debug_list(values@),
{
    let mut items = text("");
    proof {
        reveal_strlit("");
    }
    let mut i: usize = 0;
    while i < values.len()
        invariant
            i <= values@.len(),
            items@ == list_items(values@, i as int),
        decreases values.len() - i,
    {
        if i > 0 {
            items.append(", ");
        }
        items.append(decimal_text(values[i] as u64).as_str());
        i = i + 1;
    }
    let mut t = text("[");
    t.append(items.as_str());
    t.append("]");
    t
}

pub open spec fn feature_line(f: HidppFeature) -> Seq<char> {
    "  feature index=0x"@ + hex2(f.index) + " id=0x"@ + hex4(f.id) + " type=0x"@ + hex2(f.feature_type)
        + " version="@ + spec_decimal(f.version as nat)
}

pub open spec fn sensor_line(s: DpiSensorInfo) -> Seq<char> {
    let range = match s.step {
        Some(step) => spec_decimal(s.minimum as nat) + "–"@ + spec_decimal(s.maximum as nat) + "，步进 "@
            + spec_decimal(step as nat),
        None => "离散值 "@ + debug_list(s.discrete_values@),
    };
    "DPI 传感器 "@ + spec_decimal(s.index as nat) + "："@ + range + "；当前 "@ + spec_decimal(s.current as nat)
        + "；默认 "@ + spec_decimal(s.default as nat)
}

/// The report lines for a HID++ probe: protocol and feature count, one line per
/// feature, then one per DPI sensor (or that there is none).
pub open spec fn spec_probe_lines(r: HidppProbeResult) -> Seq<Seq<char>> {
    seq![
        "HID++ 协议："@ + spec_decimal(r.protocol_major as nat) + "."@ + spec_decimal(r.protocol_minor as nat)
            + "，功能数："@ + spec_decimal(r.features@.len()),
    ] + r.features@.map_values(|f: HidppFeature| feature_line(f)) + if r.dpi_sensors@.len() == 0 {
        seq!["DPI：设备未公开 ADJUSTABLE_DPI (0x2201)"@]
    } else {
        r.dpi_sensors@.map_values(|s: DpiSensorInfo| sensor_line(s))
    }
}

pub fn probe_lines(result: &HidppProbeResult) -> (lines: Vec<String>)
    ensures
        lines@.map_values(|l: String| l@) == spec_probe_lines(*result),
{
    let ghost expected = spec_probe_lines(*result);
    let ghost nf: int = result.features@.len() as int;
    let ghost ns: int = result.dpi_sensors@.len() as int;
    assert(expected.len() == 1 + nf + if ns == 0 { 1 } else { ns });
    let mut lines: Vec<String> = Vec::new();
    let mut head = text("HID++ 协议：");
    head.append(decimal_text(result.protocol_major as u64).as_str());
    head.append(".");
    head.append(decimal_text(result.protocol_minor as u64).as_str());
    head.append("，功能数：");
    head.append(decimal_text(result.features.len() as u64).as_str());
    lines.push(head);
    assert(lines@.map_values(|l: String| l@) =~= expected.subrange(0, 1));
    let mut i: usize = 0;
    while i < result.features.len()
        invariant
            i <= nf,
            nf == result.features@.len(),
            ns == result.dpi_sensors@.len(),
            expected == spec_probe_lines(*result),
            expected.len() == 1 + nf + if ns == 0 { 1 } else { ns },
            lines@.map_values(|l: String| l@) =~= expected.subrange(0, i + 1),
        decreases result.features.len() - i,
    {
        let f = &result.features[i];
        let mut line = text("  feature index=0x");
        line.append(hex_text(f.index as u64, 2).as_str());
        line.append(" id=0x");
        line.append(hex_text(f.id as u64, 4).as_str());
        line.append(" type=0x");
        line.append(hex_text(f.feature_type as u64, 2).as_str());
        line.append(" version=");
        line.append(decimal_text(f.version as u64).as_str());
        assert(expected[i + 1] == feature_line(result.features@[i as int]));
        let ghost before = lines@;
        lines.push(line);
        assert(lines@.map_values(|l: String| l@) =~= before.map_values(|l: String| l@).push(expected[i + 1]));
        i = i + 1;
    }
    if result.dpi_sensors.len() == 0 {
        let ghost before = lines@;
        lines.push(text("DPI：设备未公开 ADJUSTABLE_DPI (0x2201)"));
        assert(lines@.map_values(|l: String| l@) =~= before.map_values(|l: String| l@).push(expected[nf + 1 as int]));
    } else {
        let mut k: usize = 0;
        while k < result.dpi_sensors.len()
            invariant
                k <= ns,
                ns > 0,
                nf == result.features@.len(),
                ns == result.dpi_sensors@.len(),
                expected == spec_probe_lines(*result),
                expected.len() == 1 + nf + ns,
                lines@.map_values(|l: String| l@) =~= expected.subrange(0, nf + 1 + k),
            decreases result.dpi_sensors.len() - k,
        {
            let s = &result.dpi_sensors[k];
            let mut line = text("DPI 传感器 ");
            line.append(decimal_text(s.index as u64).as_str());
            line.append("：");
            match s.step {
                Some(step) => {
                    line.append(decimal_text(s.minimum as u64).as_str());
                    line.append("–");
                    line.append(decimal_text(s.maximum as u64).as_str());
                    line.append("，步进 ");
                    line.append(decimal_text(step as u64).as_str());
                },
                None => {
                    line.append("离散值 ");
                    line.append(debug_list_text(&s.discrete_values).as_str());
                },
            }
            line.append("；当前 ");
            line.append(decimal_text(s.current as u64).as_str());
            line.append("；默认 ");
            line.append(decimal_text(s.default as u64).as_str());
            assert(expected[nf + 1 + k] == sensor_line(result.dpi_sensors@[k as int]));
            assert(line@ =~= sensor_line(result.dpi_sensors@[k as int]));
            let ghost before = lines@;
            lines.push(line);
            assert(lines@.map_values(|l: String| l@) =~= before.map_values(|l: String| l@).push(
                expected[nf + 1 + k],
            ));
            k = k + 1;
        }
    }
    assert(lines@.map_values(|l: String| l@) =~= expected);
    lines
}

/// A confirmation read from `i` on comes from a `--confirm-device-write` word there.
proof fn lemma_confirmation_is_given(words: Seq<Seq<char>>, i: int, s: ProbeSwitches)
    requires
        0 <= i,
        probe_scan(words, i, s) matches Ok(Some(end)) && end.3,
    ensures
        s.3 || exists|j: int| i <= j < words.len() && words[j] == "--confirm-device-write"@,
    decreases words.len() - i,
{
    if i < words.len() {
        let word = words[i];
        if word == "--all"@ {
            lemma_confirmation_is_given(words, i + 1, (true, s.1, s.2, s.3));
        } else if word == "--protocol-trace"@ {
            lemma_confirmation_is_given(words, i + 1, (s.0, true, s.2, s.3));
        } else if word == "--confirm-device-write"@ {
        } else if word == "--set-dpi"@ {
            if i + 1 < words.len() {
                match spec_parse_unsigned(words[i + 1], 0xffff) {
                    Some(dpi) => lemma_confirmation_is_given(words, i + 2, (s.0, s.1, Some(dpi as u16), s.3)),
                    None => {},
                }
            }
        }
    }
}

/// The probe writes a DPI only when its command line carries the explicit
/// `--confirm-device-write` switch.
pub proof fn lemma_probe_writes_are_confirmed(words: Seq<Seq<char>>)
    ensures
        spec_parse_probe_arguments(words) matches Ok(ProbeInvocation::Run { requested_dpi, .. })
            && requested_dpi is Some ==> exists|j: int| 0 <= j < words.len() && words[j] == "--confirm-device-write"@,
{
    if let Ok(Some(end)) = probe_scan(words, 0, (false, false, None, false)) {
        if end.3 {
            lemma_confirmation_is_given(words, 0, (false, false, None, false));
        }
    }
}

} // verus!
