//! HID collections and report descriptor analysis: the buffer length each report
//! kind needs, computed from the descriptor's global items and main items.

use std::collections::BTreeMap;
use vstd::prelude::*;

use crate::hidpp::{text, HidppError};
use crate::text::str_equal;

verus! {

broadcast use vstd::std_specs::btree::group_btree_axioms, vstd::laws_cmp::group_laws_cmp;

pub const LOGITECH_VENDOR_ID: u16 = 0x046d;

/// The product ids under which the G102 (and its LIGHTSYNC revisions) enumerate.
pub open spec fn spec_is_g102_product(product_id: u16) -> bool {
    product_id == 0xc084 || product_id == 0xc092 || product_id == 0xc09d
}

/// The G102 product ids: the original G102 and its two LIGHTSYNC revisions.
pub open spec fn g102_product_ids() -> Seq<u16> {
    seq![0xc084u16, 0xc092u16, 0xc09du16]
}

/// Law: a product is a G102 exactly when its id is one of the three G102 product
/// ids; each of them is accepted.
pub proof fn lemma_g102_products(product_id: u16)
    ensures
        spec_is_g102_product(product_id) <==> g102_product_ids().contains(product_id),
        spec_is_g102_product(0xc084),
        spec_is_g102_product(0xc092),
        spec_is_g102_product(0xc09d),
{
    let ids = g102_product_ids();
    if spec_is_g102_product(product_id) {
        if product_id == 0xc084 {
            assert(ids[0] == product_id);
        } else if product_id == 0xc092 {
            assert(ids[1] == product_id);
        } else {
            assert(ids[2] == product_id);
        }
    }
}

/// Law: a G102 of any of its product ids is found through its short and long
/// vendor-page collections: two Logitech collections of one G102 device (same
/// product, serial number and interface), on page 0xff00 with usages 1 and 2, are
/// picked as its HID++ interfaces.
pub proof fn lemma_g102_pair_is_found(short: HidCollectionInfo, long: HidCollectionInfo)
    requires
        short.vendor_id == 0x046d,
        g102_product_ids().contains(short.product_id),
        long.vendor_id == 0x046d,
        long.product_id == short.product_id,
        serial_view(long.serial_number) == serial_view(short.serial_number),
        long.interface_number == short.interface_number,
        short.usage_page == 0xff00 && short.usage == 1,
        long.usage_page == 0xff00 && long.usage == 2,
    ensures
        spec_hidpp_interfaces(seq![short, long]) == Some((0int, 1int)),
{
    lemma_g102_products(short.product_id);
    let ds = seq![short, long];
    assert(ds[0] == short);
    assert(ds[1] == long);
    assert(first_candidate(ds, 1, 0) == Some(0int));
    assert(!hidpp_candidate(ds[0], 2));
    assert(first_candidate(ds, 2, 1) == Some(1int));
    assert(first_candidate(ds, 2, 0) == Some(1int));
}

/// Maximum report lengths, each including the report id byte.
#[derive(Debug, Clone, Copy, PartialEq, Eq, Structural)]
pub struct ReportLengths {
    /// Longest input report, report id byte included.
    pub input: usize,
    /// Longest output report, report id byte included.
    pub output: usize,
    /// Longest feature report, report id byte included.
    pub feature: usize,
}

impl Default for ReportLengths {
    fn default() -> (lengths: Self)
        ensures
            lengths == (ReportLengths { input: 0, output: 0, feature: 0 }),
    {
        ReportLengths { input: 0, output: 0, feature: 0 }
    }
}

#[derive(Debug, Clone, PartialEq, Eq)]
pub struct HidCollectionInfo {
    pub vendor_id: u16,
    pub product_id: u16,
    pub release_number: u16,
    pub manufacturer: Option<String>,
    pub product: Option<String>,
    pub serial_number: Option<String>,
    pub usage_page: u16,
    pub usage: u16,
    pub interface_number: i32,
    pub bus_type: String,
    pub report_descriptor_length: Option<usize>,
    pub report_lengths: Option<ReportLengths>,
    pub open_error: Option<String>,
}

impl HidCollectionInfo {
    pub fn is_logitech(&self) -> (r: bool)
        ensures
            r == (self.vendor_id == LOGITECH_VENDOR_ID),
    {
        self.vendor_id == LOGITECH_VENDOR_ID
    }

    pub fn is_known_g102(&self) -> (r: bool)
        ensures
            r == (self.vendor_id == LOGITECH_VENDOR_ID && spec_is_g102_product(self.product_id)),
            r <==> self.vendor_id == 0x046d && g102_product_ids().contains(self.product_id),
    {
        proof {
            lemma_g102_products(self.product_id);
        }
        self.is_logitech() && (self.product_id == 0xc084 || self.product_id == 0xc092 || self.product_id
            == 0xc09d)
    }

    /// Vendor-defined usage pages are `0xff00..=0xffff`.
    pub fn is_vendor_defined(&self) -> (r: bool)
        ensures
            r == (0xff00 <= self.usage_page),
    {
        self.usage_page >= 0xff00
    }
}

#[derive(Debug, Clone, PartialEq, Eq)]
pub enum DiscoveryError {
    PlatformUnsupported,
    Backend(String),
}

impl DiscoveryError {
    /// The user-facing rendering of the error.
    pub fn message(&self) -> (m: String)
        ensures
            match self {
                DiscoveryError::PlatformUnsupported => m@ == "HID 枚举当前仅支持 Windows"@,
                DiscoveryError::Backend(message) => m@ == "HID 后端错误："@ + message@,
            },
    {
        match self {
            DiscoveryError::PlatformUnsupported => text("HID 枚举当前仅支持 Windows"),
            DiscoveryError::Backend(message) => {
                let mut m = text("HID 后端错误：");
                m.append(message.as_str());
                m
            },
        }
    }
}

// ---------------------------------------------------------------------------
// Report descriptor items
// ---------------------------------------------------------------------------

/// The global items that size a report field.
#[derive(Debug, Clone, Copy, PartialEq, Eq, Structural)]
pub struct GlobalState {
    pub report_size: u32,
    pub report_count: u32,
    pub report_id: u8,
}

impl Default for GlobalState {
    fn default() -> (state: Self)
        ensures
            state == (GlobalState { report_size: 0, report_count: 0, report_id: 0 }),
    {
        GlobalState { report_size: 0, report_count: 0, report_id: 0 }
    }
}

#[derive(Debug, Clone, Copy, PartialEq, Eq, Structural)]
pub enum ReportKind {
    Input,
    Output,
    Feature,
}

/// The `Debug` name of a report kind.
pub open spec fn kind_name(kind: ReportKind) -> Seq<char> {
    match kind {
        ReportKind::Input => "Input"@,
        ReportKind::Output => "Output"@,
        ReportKind::Feature => "Feature"@,
    }
}

/// The value of a little-endian item payload.
pub open spec fn spec_read_unsigned(bytes: Seq<u8>) -> int
    decreases bytes.len(),
{
    if bytes.len() == 0 {
        0
    } else {
        bytes[0] + 256 * spec_read_unsigned(bytes.drop_first())
    }
}

proof fn lemma_read_unsigned_bound(bytes: Seq<u8>)
    requires
        bytes.len() <= 4,
    ensures
        0 <= spec_read_unsigned(bytes),
        bytes.len() == 0 ==> spec_read_unsigned(bytes) == 0,
        bytes.len() <= 1 ==> spec_read_unsigned(bytes) <= 0xff,
        bytes.len() <= 2 ==> spec_read_unsigned(bytes) <= 0xffff,
        bytes.len() <= 3 ==> spec_read_unsigned(bytes) <= 0xff_ffff,
        spec_read_unsigned(bytes) <= 0xffff_ffff,
    decreases bytes.len(),
{
    if bytes.len() > 0 {
        lemma_read_unsigned_bound(bytes.drop_first());
    }
}

/// Reads a little-endian item payload of at most four bytes.
pub fn read_unsigned(bytes: &[u8]) -> (value: u32)
    requires
        bytes@.len() <= 4,
    ensures
        value == spec_read_unsigned(bytes@),
{
    let mut value: u32 = 0;
    let mut i: usize = bytes.len();
    proof {
        lemma_read_unsigned_bound(bytes@.subrange(i as int, bytes@.len() as int));
        assert(bytes@.subrange(i as int, bytes@.len() as int).len() == 0);
    }
    while i > 0
        invariant
            i <= bytes@.len() <= 4,
            value == spec_read_unsigned(bytes@.subrange(i as int, bytes@.len() as int)),
        decreases i,
    {
        let ghost rest = bytes@.subrange(i as int, bytes@.len() as int);
        let ghost longer = bytes@.subrange(i - 1, bytes@.len() as int);
        proof {
            assert(longer.drop_first() =~= rest);
            lemma_read_unsigned_bound(longer);
        }
        value = bytes[i - 1] as u32 + 256 * value;
        i = i - 1;
    }
    assert(bytes@.subrange(0, bytes@.len() as int) =~= bytes@);
    value
}

/// The total bits for a report id after one more main item of the given kind.
pub open spec fn spec_add_report_bits(reports: Map<u8, u64>, state: GlobalState, kind: ReportKind) -> Result<
    Map<u8, u64>,
    Seq<char>,
> {
    let bits = state.report_size as int * state.report_count as int;
    let total = if reports.contains_key(state.report_id) {
        reports[state.report_id] as int
    } else {
        0
    };
    if total + bits > u64::MAX {
        Err(kind_name(kind) + " 报告累计位数溢出"@)
    } else {
        Ok(reports.insert(state.report_id, (total + bits) as u64))
    }
}

/// The reports after a failed addition: the report id is present, its total unchanged.
pub open spec fn with_entry(reports: Map<u8, u64>, report_id: u8) -> Map<u8, u64> {
    if reports.contains_key(report_id) {
        reports
    } else {
        reports.insert(report_id, 0)
    }
}

/// Adds the bits of one main item (report size times report count) to its report's total.
pub fn add_report_bits(reports: &mut BTreeMap<u8, u64>, state: GlobalState, kind: ReportKind) -> (r: Result<
    (),
    String,
>)
    ensures
        match spec_add_report_bits(old(reports)@, state, kind) {
            Ok(updated) => r is Ok && final(reports)@ == updated,
            Err(message) => r is Err && r->Err_0@ == message && final(reports)@ == with_entry(
                old(reports)@,
                state.report_id,
            ),
        },
{
    let size = state.report_size as u64;
    let count = state.report_count as u64;
    assert(size * count <= u64::MAX) by (nonlinear_arith)
        requires
            size <= u32::MAX,
            count <= u32::MAX,
    ;
    let bits = size * count;
    let total: u64 = match reports.get(&state.report_id) {
        Some(total) => *total,
        None => {
            reports.insert(state.report_id, 0);
            0
        },
    };
    match total.checked_add(bits) {
        Some(updated) => {
            reports.insert(state.report_id, updated);
            proof {
                assert(final(reports)@ =~= old(reports)@.insert(state.report_id, updated));
            }
            Ok(())
        },
        None => {
            let mut m = match kind {
                ReportKind::Input => text("Input"),
                ReportKind::Output => text("Output"),
                ReportKind::Feature => text("Feature"),
            };
            m.append(" 报告累计位数溢出");
            Err(m)
        },
    }
}

/// The largest total among report ids below `k`.
pub open spec fn max_bits_below(reports: Map<u8, u64>, k: int) -> Option<u64>
    decreases k,
{
    if k <= 0 {
        None
    } else {
        let previous = max_bits_below(reports, k - 1);
        let key = (k - 1) as u8;
        if reports.contains_key(key) {
            match previous {
                None => Some(reports[key]),
                Some(p) => Some(
                    if reports[key] > p {
                        reports[key]
                    } else {
                        p
                    },
                ),
            }
        } else {
            previous
        }
    }
}

/// The buffer a report kind needs: its largest report in whole bytes plus the
/// report id byte, or nothing when the descriptor declares no such report.
pub open spec fn spec_max_report_bytes(reports: Map<u8, u64>) -> usize {
    match max_bits_below(reports, 256) {
        None => 0,
        Some(bits) => (1 + (bits as int + 7) / 8) as usize,
    }
}

pub fn max_report_bytes(reports: &BTreeMap<u8, u64>) -> (bytes: usize)
    ensures
        bytes == spec_max_report_bytes(reports@),
{
    let mut largest: Option<u64> = None;
    let mut key: u16 = 0;
    while key < 256
        invariant
            key <= 256,
            largest == max_bits_below(reports@, key as int),
        decreases 256 - key,
    {
        let id = key as u8;
        assert(id == ((key + 1) - 1) as u8);
        match reports.get(&id) {
            Some(bits) => {
                let bits = *bits;
                largest = match largest {
                    None => Some(bits),
                    Some(p) => Some(
                        if bits > p {
                            bits
                        } else {
                            p
                        },
                    ),
                };
            },
            None => {},
        }
        key = key + 1;
    }
    match largest {
        None => 0,
        Some(bits) => {
            let whole = bits / 8 + if bits % 8 == 0 {
                0
            } else {
                1
            };
            assert(whole == (bits as int + 7) / 8);
            (1 + whole) as usize
        },
    }
}

// ---------------------------------------------------------------------------
// The descriptor walk
// ---------------------------------------------------------------------------

/// Everything the walk keeps: the global items in force, the push/pop stack, and the
/// bits per report id for each kind.
pub struct DescriptorState {
    pub global: GlobalState,
    pub stack: Seq<GlobalState>,
    pub input: Map<u8, u64>,
    pub output: Map<u8, u64>,
    pub feature: Map<u8, u64>,
}

pub open spec fn initial_descriptor_state() -> DescriptorState {
    DescriptorState {
        global: GlobalState { report_size: 0, report_count: 0, report_id: 0 },
        stack: Seq::empty(),
        input: Map::empty(),
        output: Map::empty(),
        feature: Map::empty(),
    }
}

/// Payload length of a short item: 0, 1, 2 or 4 bytes.
pub open spec fn item_data_size(prefix: u8) -> int {
    if prefix % 4 == 3 {
        4
    } else {
        (prefix % 4) as int
    }
}

pub open spec fn with_global(st: DescriptorState, global: GlobalState) -> DescriptorState {
    DescriptorState { global, stack: st.stack, input: st.input, output: st.output, feature: st.feature }
}

pub open spec fn with_totals(st: DescriptorState, kind: ReportKind, totals: Map<u8, u64>) -> DescriptorState {
    match kind {
        ReportKind::Input => DescriptorState {
            global: st.global,
            stack: st.stack,
            input: totals,
            output: st.output,
            feature: st.feature,
        },
        ReportKind::Output => DescriptorState {
            global: st.global,
            stack: st.stack,
            input: st.input,
            output: totals,
            feature: st.feature,
        },
        ReportKind::Feature => DescriptorState {
            global: st.global,
            stack: st.stack,
            input: st.input,
            output: st.output,
            feature: totals,
        },
    }
}

pub open spec fn totals_of(st: DescriptorState, kind: ReportKind) -> Map<u8, u64> {
    match kind {
        ReportKind::Input => st.input,
        ReportKind::Output => st.output,
        ReportKind::Feature => st.feature,
    }
}

pub open spec fn add_main_item(st: DescriptorState, kind: ReportKind) -> Result<DescriptorState, Seq<char>> {
    match spec_add_report_bits(totals_of(st, kind), st.global, kind) {
        Ok(totals) => Ok(with_totals(st, kind, totals)),
        Err(message) => Err(message),
    }
}

/// The effect of one short item (type and tag from its prefix) on the walk.
pub open spec fn apply_item(st: DescriptorState, prefix: u8, value: u32) -> Result<DescriptorState, Seq<char>> {
    let item_type = (prefix / 4) % 4;
    let tag = prefix / 16;
    let g = st.global;
    if item_type == 1 && tag == 7 {
        Ok(with_global(st, GlobalState { report_size: value, report_count: g.report_count, report_id: g.report_id }))
    } else if item_type == 1 && tag == 8 {
        if value > 0xff {
            Err("HID Report ID 超出 u8 范围"@)
        } else if value == 0 {
            Err("HID 描述符包含非法的 Report ID 0"@)
        } else {
            Ok(with_global(st, GlobalState { report_size: g.report_size, report_count: g.report_count, report_id: value as u8 }))
        }
    } else if item_type == 1 && tag == 9 {
        Ok(with_global(st, GlobalState { report_size: g.report_size, report_count: value, report_id: g.report_id }))
    } else if item_type == 1 && tag == 10 {
        Ok(DescriptorState { global: g, stack: st.stack.push(g), input: st.input, output: st.output, feature: st.feature })
    } else if item_type == 1 && tag == 11 {
        if st.stack.len() == 0 {
            Err("HID 全局状态栈下溢"@)
        } else {
            Ok(DescriptorState {
                global: st.stack.last(),
                stack: st.stack.drop_last(),
                input: st.input,
                output: st.output,
                feature: st.feature,
            })
        }
    } else if item_type == 0 && tag == 8 {
        add_main_item(st, ReportKind::Input)
    } else if item_type == 0 && tag == 9 {
        add_main_item(st, ReportKind::Output)
    } else if item_type == 0 && tag == 11 {
        add_main_item(st, ReportKind::Feature)
    } else {
        Ok(st)
    }
}

/// Walks the items from `cursor` on. Long items (prefix `0xfe`) are skipped whole.
pub open spec fn parse_items(d: Seq<u8>, cursor: nat, st: DescriptorState) -> Result<DescriptorState, Seq<char>>
    decreases d.len() - cursor,
{
    if cursor >= d.len() {
        Ok(st)
    } else {
        let prefix = d[cursor as int];
        let c = cursor + 1;
        if prefix == 0xfe {
            if c + 2 > d.len() {
                Err("截断的 HID 长项头"@)
            } else {
                let size = d[c as int] as nat;
                if c + 2 + size > d.len() {
                    Err("截断的 HID 长项数据"@)
                } else {
                    parse_items(d, (c + 2 + size) as nat, st)
                }
            }
        } else {
            let n = item_data_size(prefix);
            if c + n > d.len() {
                Err("截断的 HID 短项数据"@)
            } else {
                let value = spec_read_unsigned(d.subrange(c as int, c + n)) as u32;
                match apply_item(st, prefix, value) {
                    Err(message) => Err(message),
                    Ok(next) => parse_items(d, (c + n) as nat, next),
                }
            }
        }
    }
}

/// The report lengths a descriptor declares, or why it is rejected.
pub open spec fn spec_parse_report_lengths(d: Seq<u8>) -> Result<ReportLengths, Seq<char>> {
    match parse_items(d, 0, initial_descriptor_state()) {
        Err(message) => Err(message),
        Ok(st) => if st.stack.len() > 0 {
            Err("HID 全局状态栈未闭合"@)
        } else {
            Ok(
                ReportLengths {
                    input: spec_max_report_bytes(st.input),
                    output: spec_max_report_bytes(st.output),
                    feature: spec_max_report_bytes(st.feature),
                },
            )
        },
    }
}

pub open spec fn walk_state(
    global: GlobalState,
    stack: Seq<GlobalState>,
    input: Map<u8, u64>,
    output: Map<u8, u64>,
    feature: Map<u8, u64>,
) -> DescriptorState {
    DescriptorState { global, stack, input, output, feature }
}

/// Computes the maximum buffer length of each report kind from a HID report
/// descriptor. The buffer always reserves its first byte for the report id, which is
/// 0 when the device does not number its reports.
pub fn parse_report_lengths(descriptor: &[u8]) -> (r: Result<ReportLengths, String>)
    ensures
        match spec_parse_report_lengths(descriptor@) {
            Ok(lengths) => r is Ok && r->Ok_0 == lengths,
            Err(message) => r is Err && r->Err_0@ == message,
        },
{
    let ghost d = descriptor@;
    let mut cursor: usize = 0;
    let mut state = GlobalState::default();
    let mut stack: Vec<GlobalState> = Vec::new();
    let mut input_bits: BTreeMap<u8, u64> = BTreeMap::new();
    let mut output_bits: BTreeMap<u8, u64> = BTreeMap::new();
    let mut feature_bits: BTreeMap<u8, u64> = BTreeMap::new();
    assert(walk_state(state, stack@, input_bits@, output_bits@, feature_bits@) == initial_descriptor_state());

    while cursor < descriptor.len()
        invariant
            d == descriptor@,
            cursor <= d.len(),
            parse_items(d, 0, initial_descriptor_state()) == parse_items(
                d,
                cursor as nat,
                walk_state(state, stack@, input_bits@, output_bits@, feature_bits@),
            ),
        decreases descriptor.len() - cursor,
    {
        let ghost before = walk_state(state, stack@, input_bits@, output_bits@, feature_bits@);
        let ghost at = cursor as nat;
        let prefix = descriptor[cursor];
        cursor = cursor + 1;
        if prefix == 0xfe {
            if descriptor.len() - cursor < 2 {
                return Err(text("截断的 HID 长项头"));
            }
            let size = descriptor[cursor] as usize;
            cursor = cursor + 2;
            if descriptor.len() - cursor < size {
                return Err(text("截断的 HID 长项数据"));
            }
            cursor = cursor + size;
            continue;
        }
        let data_size: usize = if prefix % 4 == 3 {
            4
        } else {
            (prefix % 4) as usize
        };
        if descriptor.len() - cursor < data_size {
            return Err(text("截断的 HID 短项数据"));
        }
        let value = read_unsigned(&descriptor[cursor..cursor + data_size]);
        cursor = cursor + data_size;
        let item_type = (prefix / 4) % 4;
        let tag = prefix / 16;
        if item_type == 1 && tag == 7 {
            state.report_size = value;
        } else if item_type == 1 && tag == 8 {
            if value > 0xff {
                return Err(text("HID Report ID 超出 u8 范围"));
            }
            state.report_id = value as u8;
            if state.report_id == 0 {
                return Err(text("HID 描述符包含非法的 Report ID 0"));
            }
        } else if item_type == 1 && tag == 9 {
            state.report_count = value;
        } else if item_type == 1 && tag == 10 {
            stack.push(state);
        } else if item_type == 1 && tag == 11 {
            match stack.pop() {
                Some(popped) => {
                    state = popped;
                },
                None => {
                    return Err(text("HID 全局状态栈下溢"));
                },
            }
        } else if item_type == 0 && tag == 8 {
            add_report_bits(&mut input_bits, state, ReportKind::Input)?;
        } else if item_type == 0 && tag == 9 {
            add_report_bits(&mut output_bits, state, ReportKind::Output)?;
        } else if item_type == 0 && tag == 11 {
            add_report_bits(&mut feature_bits, state, ReportKind::Feature)?;
        }
        proof {
            assert(apply_item(before, prefix, value) == Ok::<DescriptorState, Seq<char>>(
                walk_state(state, stack@, input_bits@, output_bits@, feature_bits@),
            ));
        }
    }
    if stack.len() > 0 {
        return Err(text("HID 全局状态栈未闭合"));
    }
    Ok(
        ReportLengths {
            input: max_report_bytes(&input_bits),
            output: max_report_bytes(&output_bits),
            feature: max_report_bytes(&feature_bits),
        },
    )
}

// ---------------------------------------------------------------------------
// Enumeration results
// ---------------------------------------------------------------------------

/// Whether enumeration lists a device: every device when asked for all, otherwise
/// only Logitech ones.
pub fn lists_device(include_all: bool, vendor_id: u16) -> (r: bool)
    ensures
        r == (include_all || vendor_id == LOGITECH_VENDOR_ID),
{
    include_all || vendor_id == LOGITECH_VENDOR_ID
}

/// The devices that enumeration lists, in the backend's order: every device when
/// asked for all, otherwise only Logitech ones.
pub open spec fn listed_devices(
    include_all: bool,
    devices: Seq<(HidCollectionInfo, Result<Vec<u8>, String>)>,
) -> Seq<(HidCollectionInfo, Result<Vec<u8>, String>)>
    decreases devices.len(),
{
    if devices.len() == 0 {
        Seq::empty()
    } else {
        let rest = listed_devices(include_all, devices.drop_last());
        if include_all || devices.last().0.vendor_id == LOGITECH_VENDOR_ID {
            rest.push(devices.last())
        } else {
            rest
        }
    }
}

/// `c` is the entry for the device the backend enumerated as `base`, whose report
/// descriptor read gave `outcome`: the device's own fields, then the descriptor's
/// length and report lengths, or the reason the descriptor was not read or was
/// rejected. Never both report lengths and a reason.
pub open spec fn describes(base: HidCollectionInfo, outcome: Result<Vec<u8>, String>, c: HidCollectionInfo) -> bool {
    &&& c.vendor_id == base.vendor_id
    &&& c.product_id == base.product_id
    &&& c.release_number == base.release_number
    &&& c.manufacturer == base.manufacturer
    &&& c.product == base.product
    &&& c.serial_number == base.serial_number
    &&& c.usage_page == base.usage_page
    &&& c.usage == base.usage
    &&& c.interface_number == base.interface_number
    &&& c.bus_type == base.bus_type
    &&& match outcome {
        Ok(descriptor) => {
            &&& c.report_descriptor_length == Some(descriptor@.len() as usize)
            &&& match spec_parse_report_lengths(descriptor@) {
                Ok(lengths) => c.report_lengths == Some(lengths) && c.open_error is None,
                Err(message) => c.report_lengths is None && (c.open_error matches Some(e) && e@ == message),
            }
        },
        Err(message) => {
            &&& c.report_descriptor_length == base.report_descriptor_length
            &&& c.report_lengths is None
            &&& c.open_error == Some(message)
        },
    }
}

/// A collection as reported: with its report lengths, or with the reason they
/// could not be read, never both.
pub open spec fn reported(include_all: bool, collection: HidCollectionInfo) -> bool {
    &&& include_all || collection.vendor_id == LOGITECH_VENDOR_ID
    &&& !(collection.report_lengths is Some && collection.open_error is Some)
}

/// The HID collection list: one entry for each listed device (Logitech ones unless
/// `include_all`), described from its report descriptor or carrying the reason the
/// descriptor could not be read, sorted by device and usage. `devices` holds each
/// device the backend enumerated with the outcome of reading its descriptor.
pub fn enumerate_collections(
    include_all: bool,
    devices: Vec<(HidCollectionInfo, Result<Vec<u8>, String>)>,
) -> (collections: Vec<HidCollectionInfo>)
    ensures
        exists|entries: Seq<HidCollectionInfo>|
            #![trigger entries.to_multiset()]
            entries.len() == listed_devices(include_all, devices@).len() && (forall|i: int|
                0 <= i < entries.len() ==> describes(
                    listed_devices(include_all, devices@)[i].0,
                    listed_devices(include_all, devices@)[i].1,
                    #[trigger] entries[i],
                )) && collections@.to_multiset() == entries.to_multiset(),
        collections@.len() == listed_devices(include_all, devices@).len(),
        forall|i: int| 0 <= i < collections@.len() ==> reported(include_all, #[trigger] collections@[i]),
        forall|i: int, j: int| 0 <= i < j < collections@.len() ==> collection_le(collections@[i], collections@[j]),
{
    let ghost all = devices@;
    let mut remaining = devices;
    let mut collected: Vec<HidCollectionInfo> = Vec::new();
    let mut k: usize = 0;
    let n = remaining.len();
    assert(all.subrange(0, 0) =~= Seq::<(HidCollectionInfo, Result<Vec<u8>, String>)>::empty());
    while remaining.len() > 0
        invariant
            n == all.len(),
            k + remaining@.len() == n,
            remaining@ == all.subrange(k as int, n as int),
            collected@.len() == listed_devices(include_all, all.subrange(0, k as int)).len(),
            forall|i: int|
                0 <= i < collected@.len() ==> describes(
                    listed_devices(include_all, all.subrange(0, k as int))[i].0,
                    listed_devices(include_all, all.subrange(0, k as int))[i].1,
                    #[trigger] collected@[i],
                ),
            forall|i: int| 0 <= i < collected@.len() ==> reported(include_all, #[trigger] collected@[i]),
        decreases remaining.len(),
    {
        let ghost before = remaining@;
        let (base, outcome) = remaining.remove(0);
        let ghost item = (base, outcome);
        proof {
            assert(item == all[k as int]);
            assert(remaining@ =~= all.subrange(k + 1, n as int));
            assert(all.subrange(0, k + 1).drop_last() =~= all.subrange(0, k as int));
            assert(all.subrange(0, k + 1).last() == all[k as int]);
        }
        let ghost prefix = listed_devices(include_all, all.subrange(0, k as int));
        if lists_device(include_all, base.vendor_id) {
            let mut collection = base;
            collection.report_lengths = None;
            collection.open_error = None;
            match outcome {
                Ok(descriptor) => describe_report_descriptor(&mut collection, &descriptor),
                Err(message) => {
                    collection.open_error = Some(message);
                },
            }
            let ghost prev = collected@;
            collected.push(collection);
            proof {
                assert(listed_devices(include_all, all.subrange(0, k + 1)) == prefix.push(item));
                assert forall|i: int| 0 <= i < collected@.len() implies describes(
                    listed_devices(include_all, all.subrange(0, k + 1))[i].0,
                    listed_devices(include_all, all.subrange(0, k + 1))[i].1,
                    #[trigger] collected@[i],
                ) by {
                    if i < prefix.len() {
                        assert(collected@[i] == prev[i]);
                    }
                }
            }
        } else {
            assert(listed_devices(include_all, all.subrange(0, k + 1)) == prefix);
        }
        k = k + 1;
    }
    assert(all.subrange(0, n as int) =~= all);
    let sorted = sort_collections(collected);
    proof {
        broadcast use vstd::seq_lib::group_to_multiset_ensures;

        assert(sorted@.len() == sorted@.to_multiset().len());
        assert(collected@.len() == collected@.to_multiset().len());
        assert forall|i: int| 0 <= i < sorted@.len() implies reported(include_all, #[trigger] sorted@[i]) by {
            assert(sorted@.to_multiset().count(sorted@[i]) > 0);
            assert(collected@.contains(sorted@[i]));
        }
        assert(sorted@.to_multiset() == collected@.to_multiset());
    }
    sorted
}

/// Records what a collection's report descriptor says: its length, and the report
/// lengths or the reason the descriptor was rejected.
pub fn describe_report_descriptor(collection: &mut HidCollectionInfo, descriptor: &[u8])
    ensures
        final(collection).report_descriptor_length == Some(descriptor@.len() as usize),
        match spec_parse_report_lengths(descriptor@) {
            Ok(lengths) => final(collection).report_lengths == Some(lengths) && final(collection).open_error
                == old(collection).open_error,
            Err(message) => final(collection).open_error matches Some(e) && e@ == message
                && final(collection).report_lengths == old(collection).report_lengths,
        },
        final(collection).vendor_id == old(collection).vendor_id,
        final(collection).product_id == old(collection).product_id,
        final(collection).release_number == old(collection).release_number,
        final(collection).manufacturer == old(collection).manufacturer,
        final(collection).product == old(collection).product,
        final(collection).serial_number == old(collection).serial_number,
        final(collection).usage_page == old(collection).usage_page,
        final(collection).usage == old(collection).usage,
        final(collection).interface_number == old(collection).interface_number,
        final(collection).bus_type == old(collection).bus_type,
{
    collection.report_descriptor_length = Some(descriptor.len());
    match parse_report_lengths(descriptor) {
        Ok(lengths) => collection.report_lengths = Some(lengths),
        Err(error) => collection.open_error = Some(error),
    }
}

/// The enumeration order: vendor, product, interface, usage page, usage.
pub open spec fn collection_le(a: HidCollectionInfo, b: HidCollectionInfo) -> bool {
    if a.vendor_id != b.vendor_id {
        a.vendor_id < b.vendor_id
    } else if a.product_id != b.product_id {
        a.product_id < b.product_id
    } else if a.interface_number != b.interface_number {
        a.interface_number < b.interface_number
    } else if a.usage_page != b.usage_page {
        a.usage_page < b.usage_page
    } else {
        a.usage <= b.usage
    }
}

fn collection_le_exec(a: &HidCollectionInfo, b: &HidCollectionInfo) -> (r: bool)
    ensures
        r == collection_le(*a, *b),
{
    if a.vendor_id != b.vendor_id {
        a.vendor_id < b.vendor_id
    } else if a.product_id != b.product_id {
        a.product_id < b.product_id
    } else if a.interface_number != b.interface_number {
        a.interface_number < b.interface_number
    } else if a.usage_page != b.usage_page {
        a.usage_page < b.usage_page
    } else {
        a.usage <= b.usage
    }
}

proof fn lemma_collection_le_total(a: HidCollectionInfo, b: HidCollectionInfo)
    ensures
        collection_le(a, b) || collection_le(b, a),
{
}

proof fn lemma_collection_le_transitive(a: HidCollectionInfo, b: HidCollectionInfo, c: HidCollectionInfo)
    requires
        collection_le(a, b),
        collection_le(b, c),
    ensures
        collection_le(a, c),
{
}

/// Puts the collections in enumeration order; collections with equal keys keep
/// their relative order.
pub fn sort_collections(collections: Vec<HidCollectionInfo>) -> (sorted: Vec<HidCollectionInfo>)
    ensures
        sorted@.to_multiset() == collections@.to_multiset(),
        forall|i: int, j: int| 0 <= i < j < sorted@.len() ==> collection_le(sorted@[i], sorted@[j]),
{
    broadcast use vstd::seq_lib::group_to_multiset_ensures;

    let ghost all = collections@;
    let total = collections.len();
    let mut rest = collections;
    let mut sorted: Vec<HidCollectionInfo> = Vec::new();
    let mut taken: usize = 0;
    assert(sorted@ =~= all.subrange(0, 0));
    assert(rest@ =~= all.subrange(0, all.len() as int));
    while rest.len() > 0
        invariant
            taken <= all.len(),
            all.len() == total,
            taken + rest@.len() == all.len(),
            rest@ == all.subrange(taken as int, all.len() as int),
            sorted@.to_multiset() == all.subrange(0, taken as int).to_multiset(),
            forall|i: int, j: int| 0 <= i < j < sorted@.len() ==> collection_le(sorted@[i], sorted@[j]),
        decreases rest.len(),
    {
        let item = rest.remove(0);
        assert(item == all[taken as int]);
        let mut p: usize = sorted.len();
        while p > 0 && !collection_le_exec(&sorted[p - 1], &item)
            invariant
                p <= sorted@.len(),
                forall|j: int| p <= j < sorted@.len() ==> !collection_le(sorted@[j], item),
            decreases p,
        {
            p = p - 1;
        }
        let ghost before = sorted@;
        sorted.insert(p, item);
        proof {
            assert(all.subrange(0, (taken + 1) as int) =~= all.subrange(0, taken as int).push(item));
            vstd::seq_lib::to_multiset_insert(before, p as int, item);
            vstd::seq_lib::to_multiset_build(all.subrange(0, taken as int), item);
            assert forall|i: int, j: int| 0 <= i < j < sorted@.len() implies collection_le(
                sorted@[i],
                sorted@[j],
            ) by {
                if j < p {
                } else if j == p {
                    if i < p - 1 {
                        lemma_collection_le_transitive(before[i], before[p - 1], item);
                    }
                } else if i < p {
                    assert(collection_le(before[i], before[j - 1]));
                } else if i == p {
                    lemma_collection_le_total(before[j - 1], item);
                } else {
                    assert(collection_le(before[i - 1], before[j - 1]));
                }
            }
        }
        taken = taken + 1;
        assert(rest@ =~= all.subrange(taken as int, all.len() as int));
    }
    assert(all.subrange(0, taken as int) =~= all);
    sorted
}

/// How the probe shows an optional descriptor string: the text, or `<无>` when it
/// is missing or empty.
pub fn display_optional<'a>(value: Option<&'a str>) -> (shown: &'a str)
    ensures
        match value {
            Some(text) => if text@.len() > 0 {
                shown@ == text@
            } else {
                shown@ == "<无>"@
            },
            None => shown@ == "<无>"@,
        },
{
    match value {
        Some(text) => if text.unicode_len() > 0 {
            text
        } else {
            "<无>"
        },
        None => "<无>",
    }
}

/// How the probe shows a serial number: never the number itself.
pub fn display_serial(value: Option<&str>) -> (shown: &'static str)
    ensures
        shown@ == if value matches Some(text) && text@.len() > 0 {
            "<已隐藏>"@
        } else {
            "<无>"@
        },
{
    match value {
        Some(text) => if text.unicode_len() > 0 {
            "<已隐藏>"
        } else {
            "<无>"
        },
        None => "<无>",
    }
}

// ---------------------------------------------------------------------------
// The HID++ interfaces of a G102
// ---------------------------------------------------------------------------

/// A G102 collection on the vendor page with the given usage: 1 carries short
/// HID++ reports, 2 long ones.
pub open spec fn hidpp_candidate(d: HidCollectionInfo, usage: u16) -> bool {
    d.vendor_id == LOGITECH_VENDOR_ID && spec_is_g102_product(d.product_id) && d.usage_page == 0xff00 && d.usage
        == usage
}

/// The first candidate with the usage from index `i` on.
pub open spec fn first_candidate(ds: Seq<HidCollectionInfo>, usage: u16, i: int) -> Option<int>
    decreases ds.len() - i,
{
    if i < 0 || i >= ds.len() {
        None
    } else if hidpp_candidate(ds[i], usage) {
        Some(i)
    } else {
        first_candidate(ds, usage, i + 1)
    }
}

pub open spec fn serial_view(serial: Option<String>) -> Option<Seq<char>> {
    match serial {
        Some(s) => Some(s@),
        None => None,
    }
}

/// The short and long HID++ collections of the first G102: the first of each
/// kind, which must belong to the same device (product, serial number and
/// interface).
pub open spec fn spec_hidpp_interfaces(ds: Seq<HidCollectionInfo>) -> Option<(int, int)> {
    match (first_candidate(ds, 1, 0), first_candidate(ds, 2, 0)) {
        (Some(short), Some(long)) => if ds[short].product_id == ds[long].product_id && serial_view(
            ds[short].serial_number,
        ) == serial_view(ds[long].serial_number) && ds[short].interface_number == ds[long].interface_number {
            Some((short, long))
        } else {
            None
        },
        _ => None,
    }
}

proof fn lemma_first_candidate_bounds(ds: Seq<HidCollectionInfo>, usage: u16, i: int)
    ensures
        first_candidate(ds, usage, i) matches Some(k) ==> 0 <= i <= k < ds.len() && hidpp_candidate(ds[k], usage),
    decreases ds.len() - i,
{
    if 0 <= i < ds.len() && !hidpp_candidate(ds[i], usage) {
        lemma_first_candidate_bounds(ds, usage, i + 1);
    }
}

fn find_candidate(devices: &Vec<HidCollectionInfo>, usage: u16) -> (r: Option<usize>)
    ensures
        match r {
            Some(k) => first_candidate(devices@, usage, 0) == Some(k as int),
            None => first_candidate(devices@, usage, 0) is None,
        },
{
    let mut i: usize = 0;
    while i < devices.len()
        invariant
            i <= devices@.len(),
            first_candidate(devices@, usage, 0) == first_candidate(devices@, usage, i as int),
        decreases devices.len() - i,
    {
        let d = &devices[i];
        if d.is_known_g102() && d.usage_page == 0xff00 && d.usage == usage {
            return Some(i);
        }
        i = i + 1;
    }
    None
}

fn same_serial(a: &Option<String>, b: &Option<String>) -> (r: bool)
    ensures
        r == (serial_view(*a) == serial_view(*b)),
{
    match (a, b) {
        (Some(x), Some(y)) => str_equal(x.as_str(), y.as_str()),
        (None, None) => true,
        _ => false,
    }
}

/// Picks the collections to open for HID++ among the enumerated ones; when the
/// pair is missing or mismatched, the device counts as not found.
pub fn hidpp_interfaces(devices: &Vec<HidCollectionInfo>) -> (r: Result<(usize, usize), HidppError>)
    ensures
        match r {
            Ok((short, long)) => spec_hidpp_interfaces(devices@) == Some((short as int, long as int)),
            Err(e) => e == HidppError::InterfaceNotFound && spec_hidpp_interfaces(devices@) is None,
        },
{
    proof {
        lemma_first_candidate_bounds(devices@, 1, 0);
        lemma_first_candidate_bounds(devices@, 2, 0);
    }
    let short = find_candidate(devices, 1);
    let long = find_candidate(devices, 2);
    match (short, long) {
        (Some(s), Some(l)) => {
            let a = &devices[s];
            let b = &devices[l];
            if a.product_id == b.product_id && same_serial(&a.serial_number, &b.serial_number) && a.interface_number
                == b.interface_number {
                Ok((s, l))
            } else {
                Err(HidppError::InterfaceNotFound)
            }
        },
        _ => Err(HidppError::InterfaceNotFound),
    }
}

} // verus!
