//! The configuration window's rules: parsing typed DPI values and action ids,
//! keyboard capture and key labels, selection-mode labels, the labels shown for
//! device status and button actions, and applying edited mappings to a draft.

use vstd::prelude::*;

use crate::config::{
    logical, logical_view, ActionView, ApplicationProfileConfig, ApplicationView, ButtonActionConfig,
    ButtonMappingConfig, ConfigDocument, DocumentView, MappingView, SelectionMode, applications_view, mappings_view,
};
use crate::fmt::{decimal_text, hex_upper_text, spec_decimal, spec_hex_upper, zero_pad};
use crate::hidpp::text;
use crate::ipc::DeviceStatus;
use crate::text::{char_is_whitespace, is_whitespace, str_equal};

verus! {

// ---------------------------------------------------------------------------
// Numbers typed by the user
// ---------------------------------------------------------------------------

pub open spec fn is_digit(c: char) -> bool {
    '0' <= c <= '9'
}

pub open spec fn all_digits(s: Seq<char>) -> bool {
    s.len() > 0 && forall|i: int| 0 <= i < s.len() ==> is_digit(#[trigger] s[i])
}

/// The decimal value of a digit string.
pub open spec fn digits_value(s: Seq<char>) -> int
    decreases s.len(),
{
    if s.len() == 0 {
        0
    } else {
        digits_value(s.drop_last()) * 10 + (s.last() as int - 48)
    }
}

/// What `str::parse` reads for an unsigned integer: an optional `+`, then digits.
pub open spec fn unsigned_value(s: Seq<char>) -> Option<int> {
    let body = if s.len() > 1 && s[0] == '+' {
        s.drop_first()
    } else {
        s
    };
    if all_digits(body) {
        Some(digits_value(body))
    } else {
        None
    }
}

/// What `str::parse::<i32>` reads: an optional sign, then digits, in range.
pub open spec fn spec_parse_i32(s: Seq<char>) -> Option<i32> {
    if s.len() > 1 && s[0] == '-' {
        if all_digits(s.drop_first()) && digits_value(s.drop_first()) <= 0x8000_0000 {
            Some((-digits_value(s.drop_first())) as i32)
        } else {
            None
        }
    } else {
        match unsigned_value(s) {
            Some(v) => if v <= i32::MAX {
                Some(v as i32)
            } else {
                None
            },
            None => None,
        }
    }
}

pub open spec fn spec_parse_unsigned(s: Seq<char>, limit: int) -> Option<int> {
    match unsigned_value(s) {
        Some(v) => if v <= limit {
            Some(v)
        } else {
            None
        },
        None => None,
    }
}

/// The value of the digits `s[from..]`, read while it stays at most `limit`
/// (`limit + 1` stands for anything larger), or `None` at a non-digit.
fn read_digits(s: &str, from: usize, limit: u64) -> (r: Option<u128>)
    requires
        from < s@.len(),
    ensures
        all_digits(s@.subrange(from as int, s@.len() as int)) ==> r == Some(
            if digits_value(s@.subrange(from as int, s@.len() as int)) <= limit {
                digits_value(s@.subrange(from as int, s@.len() as int)) as u128
            } else {
                (limit + 1) as u128
            },
        ),
        !all_digits(s@.subrange(from as int, s@.len() as int)) ==> r is None,
{
    let n = s.unicode_len();
    let ghost body = s@.subrange(from as int, n as int);
    let mut value: u128 = 0;
    let mut i: usize = from;
    while i < n
        invariant
            n == s@.len(),
            from <= i <= n,
            from < n,
            body == s@.subrange(from as int, n as int),
            forall|k: int| from <= k < i ==> is_digit(#[trigger] s@[k]),
            value == if digits_value(s@.subrange(from as int, i as int)) <= limit {
                digits_value(s@.subrange(from as int, i as int))
            } else {
                limit + 1
            },
        decreases n - i,
    {
        let c = s.get_char(i);
        if c < '0' || c > '9' {
            assert(body[i - from] == c);
            return None;
        }
        let ghost prefix = s@.subrange(from as int, i as int);
        let ghost longer = s@.subrange(from as int, i + 1);
        assert(longer.drop_last() =~= prefix);
        assert(longer.last() == c);
        let d = (c as u32 - 48) as u128;
        let next = value * 10 + d;
        value = if next > limit as u128 {
            limit as u128 + 1
        } else {
            next
        };
        proof {
            assert(digits_value(longer) == digits_value(prefix) * 10 + (c as int - 48));
            assert(digits_value(prefix) >= 0) by {
                lemma_digits_value_nonnegative(prefix);
            }
        }
        i = i + 1;
    }
    assert(s@.subrange(from as int, i as int) == body);
    Some(value)
}

proof fn lemma_digits_value_nonnegative(s: Seq<char>)
    requires
        forall|i: int| 0 <= i < s.len() ==> is_digit(#[trigger] s[i]),
    ensures
        digits_value(s) >= 0,
    decreases s.len(),
{
    if s.len() > 0 {
        lemma_digits_value_nonnegative(s.drop_last());
    }
}

/// `str::parse` for an unsigned integer type whose largest value is `limit`.
pub fn parse_unsigned(s: &str, limit: u64) -> (r: Option<u64>)
    ensures
        match spec_parse_unsigned(s@, limit as int) {
            Some(v) => 0 <= v <= limit && r == Some(v as u64),
            None => r is None,
        },
{
    let n = s.unicode_len();
    if n == 0 {
        return None;
    }
    let from: usize = if n > 1 && s.get_char(0) == '+' {
        1
    } else {
        0
    };
    let ghost body = s@.subrange(from as int, n as int);
    proof {
        if n > 1 && s@[0] == '+' {
            assert(s@.drop_first() =~= body);
        } else {
            assert(s@ =~= body);
        }
        assert(unsigned_value(s@) == if all_digits(body) {
            Some(digits_value(body))
        } else {
            None::<int>
        });
        if all_digits(body) {
            lemma_digits_value_nonnegative(body);
        }
    }
    let digits = read_digits(s, from, limit);
    match digits {
        Some(value) => if value <= limit as u128 {
            assert(all_digits(body) && digits_value(body) == value);
            Some(value as u64)
        } else {
            assert(all_digits(body) && digits_value(body) > limit);
            None
        },
        None => None,
    }
}

/// `str::parse::<i32>`.
pub fn parse_i32(s: &str) -> (r: Option<i32>)
    ensures
        r == spec_parse_i32(s@),
{
    let n = s.unicode_len();
    if n == 0 {
        return None;
    }
    if n > 1 && s.get_char(0) == '-' {
        assert(s@.drop_first() =~= s@.subrange(1, n as int));
        proof {
            if all_digits(s@.drop_first()) {
                lemma_digits_value_nonnegative(s@.drop_first());
            }
        }
        match read_digits(s, 1, 0x8000_0000) {
            Some(value) => if value <= 0x8000_0000 {
                let magnitude = value as i64;
                Some((0 - magnitude) as i32)
            } else {
                None
            },
            None => None,
        }
    } else {
        let parsed = parse_unsigned(s, 0x7fff_ffff);
        proof {
            assert(spec_parse_i32(s@) == match unsigned_value(s@) {
                Some(v) => if v <= i32::MAX {
                    Some(v as i32)
                } else {
                    None::<i32>
                },
                None => None::<i32>,
            });
        }
        match parsed {
            Some(value) => Some(value as i32),
            None => None,
        }
    }
}

/// The first index, from `i` on, that is not white space.
pub open spec fn skip_space(s: Seq<char>, i: int) -> int
    decreases s.len() - i,
{
    if i < 0 || i >= s.len() || !is_whitespace(s[i]) {
        i
    } else {
        skip_space(s, i + 1)
    }
}

/// The end of `s[lo..j]` once trailing white space is dropped.
pub open spec fn drop_trailing_space(s: Seq<char>, lo: int, j: int) -> int
    decreases j - lo,
{
    if j <= lo || !is_whitespace(s[j - 1]) {
        j
    } else {
        drop_trailing_space(s, lo, j - 1)
    }
}

/// `str::trim`: the text without leading and trailing white space.
pub open spec fn spec_trim(s: Seq<char>) -> Seq<char> {
    let start = skip_space(s, 0);
    s.subrange(start, drop_trailing_space(s, start, s.len() as int))
}

proof fn lemma_skip_space_bounds(s: Seq<char>, i: int)
    requires
        0 <= i <= s.len(),
    ensures
        i <= skip_space(s, i) <= s.len(),
    decreases s.len() - i,
{
    if i < s.len() && is_whitespace(s[i]) {
        lemma_skip_space_bounds(s, i + 1);
    }
}

proof fn lemma_drop_trailing_bounds(s: Seq<char>, lo: int, j: int)
    requires
        0 <= lo <= j <= s.len(),
    ensures
        lo <= drop_trailing_space(s, lo, j) <= j,
    decreases j - lo,
{
    if j > lo && is_whitespace(s[j - 1]) {
        lemma_drop_trailing_bounds(s, lo, j - 1);
    }
}

pub fn trim(s: &str) -> (r: &str)
    ensures
        r@ == spec_trim(s@),
{
    let n = s.unicode_len();
    let mut start: usize = 0;
    while start < n && char_is_whitespace(s.get_char(start))
        invariant
            n == s@.len(),
            start <= n,
            skip_space(s@, 0) == skip_space(s@, start as int),
        decreases n - start,
    {
        start = start + 1;
    }
    let mut end: usize = n;
    while end > start && char_is_whitespace(s.get_char(end - 1))
        invariant
            n == s@.len(),
            start <= end <= n,
            start == skip_space(s@, 0),
            drop_trailing_space(s@, start as int, n as int) == drop_trailing_space(s@, start as int, end as int),
        decreases end,
    {
        end = end - 1;
    }
    s.substring_char(start, end)
}

/// The text of a signed integer, as `Display` writes it.
pub open spec fn int_text(n: int) -> Seq<char> {
    if n < 0 {
        "-"@ + spec_decimal((-n) as nat)
    } else {
        spec_decimal(n as nat)
    }
}

pub(crate) fn i32_text(n: i32) -> (s: String)
    ensures
        s@ == int_text(n as int),
{
    if n < 0 {
        let magnitude = (0 - (n as i64)) as u64;
        let mut s = text("-");
        s.append(decimal_text(magnitude).as_str());
        s
    } else {
        decimal_text(n as u64)
    }
}

/// The value typed for a custom DPI, or why it is refused: it must be a whole
/// number within the device range and on its step grid (a step below 1 counts
/// as 1).
pub open spec fn spec_custom_dpi(typed: Seq<char>, minimum: i32, maximum: i32, step: i32) -> Result<i32, Seq<char>> {
    let grid: int = if step < 1 {
        1
    } else {
        step as int
    };
    match spec_parse_i32(spec_trim(typed)) {
        None => Err("请输入只包含数字的 DPI 值。"@),
        Some(value) => if value < minimum || value > maximum || (value - minimum) % grid != 0 {
            Err(
                "请输入 "@ + int_text(minimum as int) + "–"@ + int_text(maximum as int) + " 且符合 "@ + int_text(grid)
                    + " DPI 步进的值。"@,
            )
        } else {
            Ok(value)
        },
    }
}

pub fn validate_custom_dpi(typed: &str, minimum: i32, maximum: i32, step: i32) -> (r: Result<i32, String>)
    ensures
        match spec_custom_dpi(typed@, minimum, maximum, step) {
            Ok(value) => r == Ok::<i32, String>(value),
            Err(message) => r is Err && r->Err_0@ == message,
        },
{
    let value = match parse_i32(trim(typed)) {
        Some(value) => value,
        None => {
            return Err(text("请输入只包含数字的 DPI 值。"));
        },
    };
    let grid: i32 = if step < 1 {
        1
    } else {
        step
    };
    if value < minimum || value > maximum || ((value as i64) - (minimum as i64)) % (grid as i64) != 0 {
        let mut m = text("请输入 ");
        m.append(i32_text(minimum).as_str());
        m.append("–");
        m.append(i32_text(maximum).as_str());
        m.append(" 且符合 ");
        m.append(i32_text(grid).as_str());
        m.append(" DPI 步进的值。");
        return Err(m);
    }
    Ok(value)
}

// ---------------------------------------------------------------------------
// Action ids chosen in the mapping editor
// ---------------------------------------------------------------------------

/// The first `:` in `s` from index `i` on.
pub open spec fn colon_from(s: Seq<char>, i: int) -> Option<int>
    decreases s.len() - i,
{
    if i < 0 || i >= s.len() {
        None
    } else if s[i] == ':' {
        Some(i)
    } else {
        colon_from(s, i + 1)
    }
}

pub open spec fn keyboard_view(usage: u16, modifiers: u8) -> ActionView {
    ActionView::OnboardKeyboard { usage_page: 0x07, usage, modifiers }
}

/// The keyboard action written after `key:` as `<usage>:<modifiers>`, with a usage
/// from 1 to 0xe7.
pub open spec fn key_action(rest: Seq<char>) -> Option<ActionView> {
    match colon_from(rest, 0) {
        None => None,
        Some(c) => {
            let usage = spec_parse_unsigned(rest.subrange(0, c), 0xffff);
            let tail = rest.subrange(c + 1, rest.len() as int);
            let modifiers = spec_parse_unsigned(tail, 0xff);
            if usage is Some && 1 <= usage->Some_0 <= 0xe7 && modifiers is Some && colon_from(tail, 0) is None {
                Some(keyboard_view(usage->Some_0 as u16, modifiers->Some_0 as u8))
            } else {
                None
            }
        },
    }
}

/// The action an editor id stands for.
pub open spec fn spec_action_from_id(id: Seq<char>) -> Result<ActionView, Seq<char>> {
    if id == "left"@ {
        Ok(logical_view("mouse:left"@))
    } else if id == "right"@ {
        Ok(logical_view("mouse:right"@))
    } else if id == "middle"@ {
        Ok(logical_view("mouse:middle"@))
    } else if id == "side_back"@ {
        Ok(logical_view("mouse:back"@))
    } else if id == "side_forward"@ {
        Ok(logical_view("mouse:forward"@))
    } else if id == "dpi_cycle"@ {
        Ok(logical_view("mouse:dpi_cycle"@))
    } else if id == "disabled"@ {
        Ok(ActionView::Disabled)
    } else if id.len() >= 4 && id.subrange(0, 4) == "key:"@ {
        match key_action(id.subrange(4, id.len() as int)) {
            Some(action) => Ok(action),
            None => Err("无效的键盘动作："@ + id),
        }
    } else {
        Err("不支持的按键动作："@ + id)
    }
}

fn find_colon(s: &str, from: usize) -> (r: Option<usize>)
    requires
        from <= s@.len(),
    ensures
        match colon_from(s@, from as int) {
            Some(c) => r == Some(c as usize),
            None => r is None,
        },
        r matches Some(c) ==> from <= c < s@.len() && colon_from(s@, from as int) == Some(c as int),
{
    let n = s.unicode_len();
    let mut i = from;
    while i < n
        invariant
            n == s@.len(),
            from <= i <= n,
            colon_from(s@, from as int) == colon_from(s@, i as int),
        decreases n - i,
    {
        if s.get_char(i) == ':' {
            return Some(i);
        }
        i = i + 1;
    }
    None
}

proof fn lemma_colon_shift(s: Seq<char>, k: int, i: int)
    requires
        0 <= k <= s.len(),
        0 <= i,
    ensures
        match colon_from(s.subrange(k, s.len() as int), i) {
            Some(c) => colon_from(s, k + i) == Some(c + k),
            None => colon_from(s, k + i) is None,
        },
    decreases s.len() - k - i,
{
    let t = s.subrange(k, s.len() as int);
    if i < t.len() {
        assert(t[i] == s[k + i]);
        if s[k + i] != ':' {
            lemma_colon_shift(s, k, i + 1);
        }
    }
}

fn keyboard(usage: u16, modifiers: u8) -> (action: ButtonActionConfig)
    ensures
        action@ == keyboard_view(usage, modifiers),
{
    ButtonActionConfig::OnboardKeyboard { usage_page: 0x07, usage, modifiers }
}

fn parse_key_action(id: &str) -> (r: Option<ButtonActionConfig>)
    requires
        id@.len() >= 4,
    ensures
        match key_action(id@.subrange(4, id@.len() as int)) {
            Some(action) => r is Some && r->Some_0@ == action,
            None => r is None,
        },
{
    let n = id.unicode_len();
    let rest = id.substring_char(4, n);
    let colon = match find_colon(rest, 0) {
        Some(colon) => colon,
        None => {
            return None;
        },
    };
    let head = rest.substring_char(0, colon);
    let tail = rest.substring_char(colon + 1, rest.unicode_len());
    let ghost r = id@.subrange(4, id@.len() as int);
    assert(rest@ == r);
    assert(head@ == r.subrange(0, colon as int));
    assert(tail@ == r.subrange(colon + 1, r.len() as int));
    let usage = match parse_unsigned(head, 0xffff) {
        Some(usage) => usage,
        None => {
            return None;
        },
    };
    let modifiers = match parse_unsigned(tail, 0xff) {
        Some(modifiers) => modifiers,
        None => {
            return None;
        },
    };
    if find_colon(tail, 0).is_some() {
        return None;
    }
    if usage >= 1 && usage <= 0xe7 {
        let action = keyboard(usage as u16, modifiers as u8);
        assert(key_action(r) == Some(keyboard_view(usage as u16, modifiers as u8)));
        Some(action)
    } else {
        None
    }
}

/// The configured action for an editor id: a mouse function, `disabled`, or
/// `key:<usage>:<modifiers>` for a keyboard key.
pub fn action_from_id(id: &str) -> (r: Result<ButtonActionConfig, String>)
    ensures
        match spec_action_from_id(id@) {
            Ok(action) => r is Ok && r->Ok_0@ == action,
            Err(message) => r is Err && r->Err_0@ == message,
        },
{
    if str_equal(id, "left") {
        return Ok(logical("mouse:left"));
    }
    if str_equal(id, "right") {
        return Ok(logical("mouse:right"));
    }
    if str_equal(id, "middle") {
        return Ok(logical("mouse:middle"));
    }
    if str_equal(id, "side_back") {
        return Ok(logical("mouse:back"));
    }
    if str_equal(id, "side_forward") {
        return Ok(logical("mouse:forward"));
    }
    if str_equal(id, "dpi_cycle") {
        return Ok(logical("mouse:dpi_cycle"));
    }
    if str_equal(id, "disabled") {
        return Ok(ButtonActionConfig::Disabled);
    }
    let n = id.unicode_len();
    if n >= 4 && str_equal(id.substring_char(0, 4), "key:") {
        return match parse_key_action(id) {
            Some(action) => Ok(action),
            None => {
                let mut m = text("无效的键盘动作：");
                m.append(id);
                Err(m)
            },
        };
    }
    let mut m = text("不支持的按键动作：");
    m.append(id);
    Err(m)
}

/// Applies the editor's (control, action id) choices to a profile's mappings in
/// order; the first unknown control or action id stops with its error, the
/// earlier choices staying applied.
pub open spec fn spec_apply_selections(
    ms: Seq<MappingView>,
    selections: Seq<(Seq<char>, Seq<char>)>,
    n: int,
) -> (Seq<MappingView>, Option<Seq<char>>)
    decreases n,
{
    if n <= 0 {
        (ms, None)
    } else {
        let (before, error) = spec_apply_selections(ms, selections, n - 1);
        if error is Some {
            (before, error)
        } else {
            let (control, action_id) = selections[n - 1];
            match mapping_for_control(before, control, 0) {
                None => (before, Some("配置缺少按键 "@ + control)),
                Some(k) => match spec_action_from_id(action_id) {
                    Err(message) => (before, Some(message)),
                    Ok(action) => (
                        before.update(k, MappingView { physical_control: before[k].physical_control, action }),
                        None,
                    ),
                },
            }
        }
    }
}

/// The first mapping, from index `i` on, of the given control.
pub open spec fn mapping_for_control(ms: Seq<MappingView>, control: Seq<char>, i: int) -> Option<int>
    decreases ms.len() - i,
{
    if i < 0 || i >= ms.len() {
        None
    } else if ms[i].physical_control == control {
        Some(i)
    } else {
        mapping_for_control(ms, control, i + 1)
    }
}

pub open spec fn selections_view(selections: Seq<(String, String)>) -> Seq<(Seq<char>, Seq<char>)> {
    selections.map_values(|s: (String, String)| (s.0@, s.1@))
}

proof fn lemma_mapping_for_control_bounds(ms: Seq<MappingView>, control: Seq<char>, i: int)
    requires
        0 <= i,
    ensures
        mapping_for_control(ms, control, i) matches Some(k) ==> i <= k < ms.len()
            && ms[k].physical_control == control,
    decreases ms.len() - i,
{
    if i < ms.len() && ms[i].physical_control != control {
        lemma_mapping_for_control_bounds(ms, control, i + 1);
    }
}

proof fn lemma_apply_selections_error_persists(
    ms: Seq<MappingView>,
    selections: Seq<(Seq<char>, Seq<char>)>,
    i: int,
    n: int,
)
    requires
        0 < i <= n,
        spec_apply_selections(ms, selections, i).1 is Some,
    ensures
        spec_apply_selections(ms, selections, n) == spec_apply_selections(ms, selections, i),
    decreases n - i,
{
    if n > i {
        lemma_apply_selections_error_persists(ms, selections, i, n - 1);
    }
}

fn find_mapping(mappings: &Vec<ButtonMappingConfig>, control: &String) -> (r: Option<usize>)
    ensures
        match mapping_for_control(mappings_view(mappings@), control@, 0) {
            Some(k) => r == Some(k as usize),
            None => r is None,
        },
        r matches Some(k) ==> k < mappings@.len() && mapping_for_control(mappings_view(mappings@), control@, 0)
            == Some(k as int),
{
    let ghost ms = mappings_view(mappings@);
    let mut k: usize = 0;
    while k < mappings.len()
        invariant
            k <= mappings@.len(),
            ms == mappings_view(mappings@),
            ms.len() == mappings@.len(),
            mapping_for_control(ms, control@, 0) == mapping_for_control(ms, control@, k as int),
        decreases mappings.len() - k,
    {
        assert(ms[k as int] == mappings@[k as int]@);
        if mappings[k].physical_control == *control {
            return Some(k);
        }
        k = k + 1;
    }
    None
}

pub fn apply_mapping_selections(mappings: &mut Vec<ButtonMappingConfig>, selections: &[(String, String)]) -> (r:
    Result<(), String>)
    ensures
        mappings_view(final(mappings)@) == spec_apply_selections(
            mappings_view(old(mappings)@),
            selections_view(selections@),
            selections@.len() as int,
        ).0,
        match spec_apply_selections(
            mappings_view(old(mappings)@),
            selections_view(selections@),
            selections@.len() as int,
        ).1 {
            None => r is Ok,
            Some(message) => r is Err && r->Err_0@ == message,
        },
{
    let ghost start = mappings_view(mappings@);
    let ghost chosen = selections_view(selections@);
    let mut i: usize = 0;
    while i < selections.len()
        invariant
            i <= selections@.len(),
            start == mappings_view(old(mappings)@),
            chosen == selections_view(selections@),
            chosen.len() == selections@.len(),
            spec_apply_selections(start, chosen, i as int) == (mappings_view(mappings@), None::<Seq<char>>),
        decreases selections.len() - i,
    {
        let (control, action_id) = (&selections[i].0, &selections[i].1);
        assert(chosen[i as int] == (control@, action_id@));
        let ghost current = mappings_view(mappings@);
        let k = match find_mapping(mappings, control) {
            Some(k) => k,
            None => {
                let mut m = text("配置缺少按键 ");
                m.append(control.as_str());
                proof {
                    let (c, a) = chosen[i as int];
                    assert(c == control@);
                    assert(mapping_for_control(current, c, 0) is None);
                    assert(spec_apply_selections(start, chosen, i as int + 1) == (
                        current,
                        Some("配置缺少按键 "@ + control@),
                    ));
                    lemma_apply_selections_error_persists(start, chosen, i as int + 1, chosen.len() as int);
                }
                return Err(m);
            },
        };
        proof {
            lemma_mapping_for_control_bounds(current, control@, 0);
        }
        let action = match action_from_id(action_id.as_str()) {
            Ok(action) => action,
            Err(message) => {
                proof {
                    lemma_apply_selections_error_persists(start, chosen, i as int + 1, chosen.len() as int);
                }
                return Err(message);
            },
        };
        let updated = ButtonMappingConfig { physical_control: mappings[k].physical_control.clone(), action };
        proof {
            let (c, a) = chosen[i as int];
            assert(c == control@ && a == action_id@);
            assert(current[k as int] == mappings@[k as int]@);
            assert(spec_action_from_id(a) == Ok::<ActionView, Seq<char>>(updated.action@));
            assert(spec_apply_selections(start, chosen, i as int + 1) == (
                current.update(
                    k as int,
                    MappingView { physical_control: current[k as int].physical_control, action: updated.action@ },
                ),
                None::<Seq<char>>,
            ));
        }
        mappings.set(k, updated);
        proof {
            assert(mappings_view(mappings@) =~= current.update(
                k as int,
                MappingView { physical_control: current[k as int].physical_control, action: updated.action@ },
            ));
        }
        i = i + 1;
    }
    Ok(())
}

// ---------------------------------------------------------------------------
// Keyboard capture
// ---------------------------------------------------------------------------

/// Names the text `str::to_lowercase` returns (Unicode lower-casing).
pub uninterp spec fn lowercase(text: Seq<char>) -> Seq<char>;

/// `str::to_lowercase`; the result is named by `lowercase`.
#[verifier::external_body]
fn to_lowercase(text: &str) -> (lowered: String)
    ensures
        lowered@ == lowercase(text@),
{
    text.to_lowercase()
}

/// `char::to_string`: the one-character text.
#[verifier::external_body]
pub(crate) fn char_text(c: char) -> (s: String)
    ensures
        s@ == seq![c],
{
    c.to_string()
}

/// The HID usage of a single (lower-cased) character key.
pub open spec fn char_usage(c: char) -> Option<u8> {
    let v = c as u32;
    if 0x61 <= v <= 0x7a {
        Some((0x04 + (v - 0x61)) as u8)
    } else if 0x31 <= v <= 0x39 {
        Some((0x1e + (v - 0x31)) as u8)
    } else if v == 0x30 {
        Some(0x27)
    } else if v == 0x20 {
        Some(0x2c)
    } else if v == 0x2d {
        Some(0x2d)
    } else if v == 0x3d {
        Some(0x2e)
    } else if v == 0x5b {
        Some(0x2f)
    } else if v == 0x5d {
        Some(0x30)
    } else if v == 0x5c {
        Some(0x31)
    } else if v == 0x3b {
        Some(0x33)
    } else if v == 0x27 {
        Some(0x34)
    } else if v == 0x60 {
        Some(0x35)
    } else if v == 0x2c {
        Some(0x36)
    } else if v == 0x2e {
        Some(0x37)
    } else if v == 0x2f {
        Some(0x38)
    } else if v == 0xf700 {
        Some(0x52)
    } else if v == 0xf701 {
        Some(0x51)
    } else if v == 0xf702 {
        Some(0x50)
    } else if v == 0xf703 {
        Some(0x4f)
    } else if 0xf704 <= v <= 0xf70f {
        Some((0x3a + (v - 0xf704)) as u8)
    } else if v == 0xf727 {
        Some(0x49)
    } else if v == 0xf729 {
        Some(0x4a)
    } else if v == 0xf72b {
        Some(0x4d)
    } else if v == 0xf72c {
        Some(0x4b)
    } else if v == 0xf72d {
        Some(0x4e)
    } else {
        None
    }
}

/// The HID usage of a named key.
pub open spec fn named_key_usage(key: Seq<char>) -> Option<u8> {
    if key == "Backspace"@ {
        Some(0x2a)
    } else if key == "Tab"@ {
        Some(0x2b)
    } else if key == "Space"@ {
        Some(0x2c)
    } else if key == "Delete"@ {
        Some(0x4c)
    } else if key == "Left"@ {
        Some(0x50)
    } else if key == "Right"@ {
        Some(0x4f)
    } else if key == "Up"@ {
        Some(0x52)
    } else if key == "Down"@ {
        Some(0x51)
    } else {
        None
    }
}

/// The usage of a captured key, given its lower-cased text: a single character by
/// the character table, a longer text by the key's name.
pub open spec fn spec_key_usage(lowered: Seq<char>, key: Seq<char>) -> Option<u8> {
    if lowered.len() == 0 {
        None
    } else if lowered.len() == 1 {
        char_usage(lowered[0])
    } else {
        named_key_usage(key)
    }
}

fn char_usage_exec(c: char) -> (r: Option<u8>)
    ensures
        r == char_usage(c),
{
    let v = c as u32;
    if v >= 0x61 && v <= 0x7a {
        Some((0x04 + (v - 0x61)) as u8)
    } else if v >= 0x31 && v <= 0x39 {
        Some((0x1e + (v - 0x31)) as u8)
    } else if v == 0x30 {
        Some(0x27)
    } else if v == 0x20 {
        Some(0x2c)
    } else if v == 0x2d {
        Some(0x2d)
    } else if v == 0x3d {
        Some(0x2e)
    } else if v == 0x5b {
        Some(0x2f)
    } else if v == 0x5d {
        Some(0x30)
    } else if v == 0x5c {
        Some(0x31)
    } else if v == 0x3b {
        Some(0x33)
    } else if v == 0x27 {
        Some(0x34)
    } else if v == 0x60 {
        Some(0x35)
    } else if v == 0x2c {
        Some(0x36)
    } else if v == 0x2e {
        Some(0x37)
    } else if v == 0x2f {
        Some(0x38)
    } else if v == 0xf700 {
        Some(0x52)
    } else if v == 0xf701 {
        Some(0x51)
    } else if v == 0xf702 {
        Some(0x50)
    } else if v == 0xf703 {
        Some(0x4f)
    } else if v >= 0xf704 && v <= 0xf70f {
        Some((0x3a + (v - 0xf704)) as u8)
    } else if v == 0xf727 {
        Some(0x49)
    } else if v == 0xf729 {
        Some(0x4a)
    } else if v == 0xf72b {
        Some(0x4d)
    } else if v == 0xf72c {
        Some(0x4b)
    } else if v == 0xf72d {
        Some(0x4e)
    } else {
        None
    }
}

/// Law: a named key (captured text longer than one character) is stored under a
/// usage whose label is that key's own name, so `Left` gives LeftArrow (0x50),
/// `Right` RightArrow (0x4f) and so on for every name the capture knows.
pub proof fn lemma_named_keys_round_trip(lowered: Seq<char>, key: Seq<char>)
    requires
        lowered.len() > 1,
    ensures
        spec_key_usage(lowered, key) matches Some(u) ==> spec_usage_label(u) == key,
{
}

/// Law: a captured letter is stored under the usage labelled with that letter in
/// upper case, and a captured digit under the usage labelled with that digit.
pub proof fn lemma_letters_and_digits_round_trip(c: char)
    ensures
        'a' <= c <= 'z' ==> char_usage(c) is Some && spec_usage_label(char_usage(c)->Some_0) == seq![
            ((c as u32) - 0x20) as char,
        ],
        '0' <= c <= '9' ==> char_usage(c) is Some && spec_usage_label(char_usage(c)->Some_0) == seq![c],
{
    reveal_strlit("0");
}

/// Law: a captured punctuation character, space or function key is stored under
/// the usage labelled with that same key: punctuation by itself, space as `Space`,
/// the arrow keys as `Up`, `Down`, `Left`, `Right`, the function keys as `F1` to
/// `F12`, and `Insert`, `Home`, `End`, `PageUp`, `PageDown` by name.
pub proof fn lemma_captured_keys_round_trip(c: char)
    ensures
        c == '-' || c == '=' || c == '[' || c == ']' || c == '\\' || c == ';' || c == '\'' || c == '`' || c == ','
            || c == '.' || c == '/' ==> char_usage(c) is Some && spec_usage_label(char_usage(c)->Some_0) == seq![c],
        c == ' ' ==> char_usage(c) is Some && spec_usage_label(char_usage(c)->Some_0) == "Space"@,
        c as u32 == 0xf700 ==> char_usage(c) is Some && spec_usage_label(char_usage(c)->Some_0) == "Up"@,
        c as u32 == 0xf701 ==> char_usage(c) is Some && spec_usage_label(char_usage(c)->Some_0) == "Down"@,
        c as u32 == 0xf702 ==> char_usage(c) is Some && spec_usage_label(char_usage(c)->Some_0) == "Left"@,
        c as u32 == 0xf703 ==> char_usage(c) is Some && spec_usage_label(char_usage(c)->Some_0) == "Right"@,
        0xf704 <= c as u32 <= 0xf70f ==> char_usage(c) is Some && spec_usage_label(char_usage(c)->Some_0) == "F"@
            + spec_decimal((c as u32 - 0xf703) as nat),
        c as u32 == 0xf727 ==> char_usage(c) is Some && spec_usage_label(char_usage(c)->Some_0) == "Insert"@,
        c as u32 == 0xf729 ==> char_usage(c) is Some && spec_usage_label(char_usage(c)->Some_0) == "Home"@,
        c as u32 == 0xf72b ==> char_usage(c) is Some && spec_usage_label(char_usage(c)->Some_0) == "End"@,
        c as u32 == 0xf72c ==> char_usage(c) is Some && spec_usage_label(char_usage(c)->Some_0) == "PageUp"@,
        c as u32 == 0xf72d ==> char_usage(c) is Some && spec_usage_label(char_usage(c)->Some_0) == "PageDown"@,
{
    reveal_strlit("-");
    reveal_strlit("=");
    reveal_strlit("[");
    reveal_strlit("]");
    reveal_strlit("\\");
    reveal_strlit(";");
    reveal_strlit("'");
    reveal_strlit("`");
    reveal_strlit(",");
    reveal_strlit(".");
    reveal_strlit("/");
}

/// The usage of a captured key from its lower-cased text and its original text.
pub fn key_usage_from_lowered(lowered: &str, key: &str) -> (r: Option<u8>)
    ensures
        r == spec_key_usage(lowered@, key@),
        lowered@.len() > 1 && r is Some ==> spec_usage_label(r->Some_0) == key@,
{
    proof {
        if lowered@.len() > 1 {
            lemma_named_keys_round_trip(lowered@, key@);
        }
    }
    let n = lowered.unicode_len();
    if n == 0 {
        return None;
    }
    if n == 1 {
        return char_usage_exec(lowered.get_char(0));
    }
    if str_equal(key, "Backspace") {
        Some(0x2a)
    } else if str_equal(key, "Tab") {
        Some(0x2b)
    } else if str_equal(key, "Space") {
        Some(0x2c)
    } else if str_equal(key, "Delete") {
        Some(0x4c)
    } else if str_equal(key, "Left") {
        Some(0x50)
    } else if str_equal(key, "Right") {
        Some(0x4f)
    } else if str_equal(key, "Up") {
        Some(0x52)
    } else if str_equal(key, "Down") {
        Some(0x51)
    } else {
        None
    }
}

/// The HID usage of a key the window captured, or `None` for keys the onboard
/// format cannot store.
pub fn keyboard_usage_from_key(key: &str) -> (r: Option<u8>)
    ensures
        r == spec_key_usage(lowercase(key@), key@),
        lowercase(key@).len() > 1 && r is Some ==> spec_usage_label(r->Some_0) == key@,
{
    let lowered = to_lowercase(key);
    key_usage_from_lowered(lowered.as_str(), key)
}

/// The label of a HID keyboard usage.
pub open spec fn spec_usage_label(usage: u8) -> Seq<char> {
    if 0x04 <= usage <= 0x1d {
        seq![(0x41 + usage - 0x04) as char]
    } else if 0x1e <= usage <= 0x26 {
        seq![(0x31 + usage - 0x1e) as char]
    } else if usage == 0x27 {
        "0"@
    } else if usage == 0x2a {
        "Backspace"@
    } else if usage == 0x2b {
        "Tab"@
    } else if usage == 0x2c {
        "Space"@
    } else if usage == 0x2d {
        "-"@
    } else if usage == 0x2e {
        "="@
    } else if usage == 0x2f {
        "["@
    } else if usage == 0x30 {
        "]"@
    } else if usage == 0x31 {
        "\\"@
    } else if usage == 0x33 {
        ";"@
    } else if usage == 0x34 {
        "'"@
    } else if usage == 0x35 {
        "`"@
    } else if usage == 0x36 {
        ","@
    } else if usage == 0x37 {
        "."@
    } else if usage == 0x38 {
        "/"@
    } else if 0x3a <= usage <= 0x45 {
        "F"@ + spec_decimal((usage - 0x39) as nat)
    } else if usage == 0x49 {
        "Insert"@
    } else if usage == 0x4a {
        "Home"@
    } else if usage == 0x4b {
        "PageUp"@
    } else if usage == 0x4c {
        "Delete"@
    } else if usage == 0x4d {
        "End"@
    } else if usage == 0x4e {
        "PageDown"@
    } else if usage == 0x4f {
        "Right"@
    } else if usage == 0x50 {
        "Left"@
    } else if usage == 0x51 {
        "Down"@
    } else if usage == 0x52 {
        "Up"@
    } else {
        "HID 0x"@ + zero_pad(spec_hex_upper(usage as nat), 2)
    }
}

pub fn keyboard_usage_label(usage: u8) -> (label: String)
    ensures
        label@ == spec_usage_label(usage),
{
    if usage >= 0x04 && usage <= 0x1d {
        char_text((0x41 + usage - 0x04) as char)
    } else if usage >= 0x1e && usage <= 0x26 {
        char_text((0x31 + usage - 0x1e) as char)
    } else if usage == 0x27 {
        text("0")
    } else if usage == 0x2a {
        text("Backspace")
    } else if usage == 0x2b {
        text("Tab")
    } else if usage == 0x2c {
        text("Space")
    } else if usage == 0x2d {
        text("-")
    } else if usage == 0x2e {
        text("=")
    } else if usage == 0x2f {
        text("[")
    } else if usage == 0x30 {
        text("]")
    } else if usage == 0x31 {
        text("\\")
    } else if usage == 0x33 {
        text(";")
    } else if usage == 0x34 {
        text("'")
    } else if usage == 0x35 {
        text("`")
    } else if usage == 0x36 {
        text(",")
    } else if usage == 0x37 {
        text(".")
    } else if usage == 0x38 {
        text("/")
    } else if usage >= 0x3a && usage <= 0x45 {
        let mut label = text("F");
        label.append(decimal_text((usage - 0x39) as u64).as_str());
        label
    } else if usage == 0x49 {
        text("Insert")
    } else if usage == 0x4a {
        text("Home")
    } else if usage == 0x4b {
        text("PageUp")
    } else if usage == 0x4c {
        text("Delete")
    } else if usage == 0x4d {
        text("End")
    } else if usage == 0x4e {
        text("PageDown")
    } else if usage == 0x4f {
        text("Right")
    } else if usage == 0x50 {
        text("Left")
    } else if usage == 0x51 {
        text("Down")
    } else if usage == 0x52 {
        text("Up")
    } else {
        let mut label = text("HID 0x");
        label.append(hex_upper_text(usage as u64, 2).as_str());
        label
    }
}

/// The label of a key chord: the held modifiers, then the key, joined by ` + `.
pub open spec fn spec_action_label(usage: u8, modifiers: u8) -> Seq<char> {
    (if modifiers & 0x01 != 0 {
        "Ctrl + "@
    } else {
        ""@
    }) + (if modifiers & 0x02 != 0 {
        "Shift + "@
    } else {
        ""@
    }) + (if modifiers & 0x04 != 0 {
        "Alt + "@
    } else {
        ""@
    }) + (if modifiers & 0x08 != 0 {
        "Win + "@
    } else {
        ""@
    }) + spec_usage_label(usage)
}

pub fn keyboard_action_label(usage: u8, modifiers: u8) -> (label: String)
    ensures
        label@ == spec_action_label(usage, modifiers),
{
    let mut label = text("");
    proof {
        reveal_strlit("");
        assert(label@ =~= Seq::<char>::empty());
    }
    if modifiers & 0x01 != 0 {
        label.append("Ctrl + ");
    }
    if modifiers & 0x02 != 0 {
        label.append("Shift + ");
    }
    if modifiers & 0x04 != 0 {
        label.append("Alt + ");
    }
    if modifiers & 0x08 != 0 {
        label.append("Win + ");
    }
    label.append(keyboard_usage_label(usage).as_str());
    proof {
        let e = ""@;
        assert(e.len() == 0);
        assert(Seq::<char>::empty() + e =~= e);
        assert(label@ =~= spec_action_label(usage, modifiers));
    }
    label
}

/// The modifier byte of a chord: Ctrl, Shift, Alt and Win in bits 0 to 3.
pub open spec fn modifier_bits(control: bool, shift: bool, alt: bool, meta: bool) -> u8 {
    ((if control {
        1int
    } else {
        0int
    }) + (if shift {
        2int
    } else {
        0int
    }) + (if alt {
        4int
    } else {
        0int
    }) + (if meta {
        8int
    } else {
        0int
    })) as u8
}

/// The usage, modifier byte and label of a captured chord, or why the key
/// cannot be stored onboard.
pub fn captured_keyboard_action(key: &str, control: bool, shift: bool, alt: bool, meta: bool) -> (r: Result<
    (u8, u8, String),
    String,
>)
    ensures
        match spec_key_usage(lowercase(key@), key@) {
            None => r is Err && r->Err_0@ == "当前 G102 板载格式不支持按键“"@ + key@ + "”。请换用常规键盘按键。"@,
            Some(usage) => r is Ok && r->Ok_0.0 == usage && r->Ok_0.1 == modifier_bits(control, shift, alt, meta)
                && r->Ok_0.2@ == spec_action_label(usage, modifier_bits(control, shift, alt, meta)),
        },
{
    let usage = match keyboard_usage_from_key(key) {
        Some(usage) => usage,
        None => {
            let mut m = text("当前 G102 板载格式不支持按键“");
            m.append(key);
            m.append("”。请换用常规键盘按键。");
            return Err(m);
        },
    };
    let mut modifiers: u8 = 0;
    if control {
        modifiers = modifiers + 1;
    }
    if shift {
        modifiers = modifiers + 2;
    }
    if alt {
        modifiers = modifiers + 4;
    }
    if meta {
        modifiers = modifiers + 8;
    }
    Ok((usage, modifiers, keyboard_action_label(usage, modifiers)))
}

// ---------------------------------------------------------------------------
// Selection modes and their labels
// ---------------------------------------------------------------------------

pub open spec fn spec_mode_label(mode: SelectionMode) -> &'static str {
    match mode {
        SelectionMode::Auto => "自动模式",
        SelectionMode::Office => "固定 Office",
        SelectionMode::Cs2 => "固定 CS2",
        SelectionMode::Application => "固定应用环境",
    }
}

pub fn selection_mode_label(mode: SelectionMode) -> (label: &'static str)
    ensures
        label == spec_mode_label(mode),
{
    match mode {
        SelectionMode::Auto => "自动模式",
        SelectionMode::Office => "固定 Office",
        SelectionMode::Cs2 => "固定 CS2",
        SelectionMode::Application => "固定应用环境",
    }
}

/// The mode a built-in label (Chinese or English) names.
pub open spec fn spec_mode_from_label(label: Seq<char>) -> Result<SelectionMode, Seq<char>> {
    if label == "自动模式"@ || label == "Auto mode"@ {
        Ok(SelectionMode::Auto)
    } else if label == "固定 Office"@ || label == "Fixed Office"@ {
        Ok(SelectionMode::Office)
    } else if label == "固定 CS2"@ || label == "Fixed CS2"@ {
        Ok(SelectionMode::Cs2)
    } else {
        Err("不支持的环境选择模式："@ + label)
    }
}

pub fn selection_mode_from_label(label: &str) -> (r: Result<SelectionMode, String>)
    ensures
        match spec_mode_from_label(label@) {
            Ok(mode) => r == Ok::<SelectionMode, String>(mode),
            Err(message) => r is Err && r->Err_0@ == message,
        },
{
    if str_equal(label, "自动模式") || str_equal(label, "Auto mode") {
        Ok(SelectionMode::Auto)
    } else if str_equal(label, "固定 Office") || str_equal(label, "Fixed Office") {
        Ok(SelectionMode::Office)
    } else if str_equal(label, "固定 CS2") || str_equal(label, "Fixed CS2") {
        Ok(SelectionMode::Cs2)
    } else {
        let mut m = text("不支持的环境选择模式：");
        m.append(label);
        Err(m)
    }
}

/// Every built-in mode's label reads back as that mode.
pub proof fn lemma_mode_labels_round_trip(mode: SelectionMode)
    requires
        mode != SelectionMode::Application,
    ensures
        spec_mode_from_label(spec_mode_label(mode)@) == Ok::<SelectionMode, Seq<char>>(mode),
{
    reveal_strlit("自动模式");
    reveal_strlit("Auto mode");
    reveal_strlit("固定 Office");
    reveal_strlit("Fixed Office");
    reveal_strlit("固定 CS2");
    reveal_strlit("Fixed CS2");
    assert("自动模式"@[0] != "固定 Office"@[0]);
    assert("Auto mode"@[0] != "固定 Office"@[0]);
    assert("自动模式"@[0] != "固定 CS2"@[0]);
    assert("Auto mode"@[0] != "固定 CS2"@[0]);
    assert("固定 Office"@[3] != "固定 CS2"@[3]);
    assert("Fixed Office"@[0] != "固定 CS2"@[0]);
}

/// The first application, from index `i` on, whose fixed-mode label is `label`.
pub open spec fn app_for_label(apps: Seq<ApplicationView>, label: Seq<char>, i: int) -> Option<int>
    decreases apps.len() - i,
{
    if i < 0 || i >= apps.len() {
        None
    } else if label == "固定 "@ + apps[i].name || label == "Fixed "@ + apps[i].name {
        Some(i)
    } else {
        app_for_label(apps, label, i + 1)
    }
}

/// The selection a mode label stands for: a built-in mode, or the fixed
/// application whose name the label carries.
pub open spec fn spec_mode_from_gui(label: Seq<char>, apps: Seq<ApplicationView>) -> Result<
    (SelectionMode, Option<Seq<char>>),
    Seq<char>,
> {
    match spec_mode_from_label(label) {
        Ok(mode) => Ok((mode, None)),
        Err(_) => match app_for_label(apps, label, 0) {
            Some(k) => Ok((SelectionMode::Application, Some(apps[k].id))),
            None => Err("不支持的模式："@ + label),
        },
    }
}

pub fn selection_mode_from_gui(label: &str, applications: &[ApplicationProfileConfig]) -> (r: Result<
    (SelectionMode, Option<String>),
    String,
>)
    ensures
        match spec_mode_from_gui(label@, applications@.map_values(|a: ApplicationProfileConfig| a@)) {
            Ok((mode, None)) => r is Ok && r->Ok_0.0 == mode && r->Ok_0.1 is None,
            Ok((mode, Some(id))) => r is Ok && r->Ok_0.0 == mode && r->Ok_0.1 is Some && r->Ok_0.1->Some_0@ == id,
            Err(message) => r is Err && r->Err_0@ == message,
        },
{
    if let Ok(mode) = selection_mode_from_label(label) {
        return Ok((mode, None));
    }
    let ghost apps = applications@.map_values(|a: ApplicationProfileConfig| a@);
    let mut i: usize = 0;
    while i < applications.len()
        invariant
            i <= applications@.len(),
            apps == applications@.map_values(|a: ApplicationProfileConfig| a@),
            apps.len() == applications@.len(),
            spec_mode_from_label(label@) is Err,
            app_for_label(apps, label@, 0) == app_for_label(apps, label@, i as int),
        decreases applications.len() - i,
    {
        assert(apps[i as int] == applications@[i as int]@);
        let mut chinese = text("固定 ");
        chinese.append(applications[i].name.as_str());
        let mut english = text("Fixed ");
        english.append(applications[i].name.as_str());
        if str_equal(label, chinese.as_str()) || str_equal(label, english.as_str()) {
            return Ok((SelectionMode::Application, Some(applications[i].id.clone())));
        }
        i = i + 1;
    }
    let mut m = text("不支持的模式：");
    m.append(label);
    Err(m)
}

/// The English name of a built-in profile, or the name unchanged in Chinese.
pub open spec fn spec_localize_profile_name(name: Seq<char>, english: bool) -> Seq<char> {
    if !english {
        name
    } else if name == "办公环境"@ {
        "Office"@
    } else if name == "CS 环境"@ || name == "CS2 环境"@ {
        "CS2"@
    } else if name == "应用环境"@ {
        "App profile"@
    } else if name.len() >= " 环境"@.len() && name.subrange(name.len() - " 环境"@.len(), name.len() as int)
        == " 环境"@ {
        name.subrange(0, name.len() - " 环境"@.len())
    } else {
        name
    }
}

pub fn localize_profile_name(name: &str, english: bool) -> (r: String)
    ensures
        r@ == spec_localize_profile_name(name@, english),
{
    if !english {
        return text(name);
    }
    if str_equal(name, "办公环境") {
        return text("Office");
    }
    if str_equal(name, "CS 环境") || str_equal(name, "CS2 环境") {
        return text("CS2");
    }
    if str_equal(name, "应用环境") {
        return text("App profile");
    }
    let suffix = " 环境";
    let n = name.unicode_len();
    let k = suffix.unicode_len();
    if n >= k && str_equal(name.substring_char(n - k, n), suffix) {
        return text(name.substring_char(0, n - k));
    }
    text(name)
}

/// The label shown for the selection of a configuration.
pub open spec fn spec_mode_label_for_config(doc: DocumentView, english: bool) -> Seq<char> {
    if doc.selection.mode != SelectionMode::Application {
        if english {
            match doc.selection.mode {
                SelectionMode::Auto => "Auto mode"@,
                SelectionMode::Office => "Fixed Office"@,
                SelectionMode::Cs2 => "Fixed CS2"@,
                SelectionMode::Application => "Fixed app profile"@,
            }
        } else {
            spec_mode_label(doc.selection.mode)@
        }
    } else {
        match doc.selection.fixed_application_id {
            Some(id) => match crate::agent::first_app_by_id(doc.applications, id, 0) {
                Some(k) => if english {
                    "Fixed "@ + spec_localize_profile_name(doc.applications[k].name, true)
                } else {
                    "固定 "@ + doc.applications[k].name
                },
                None => if english {
                    "Fixed app profile"@
                } else {
                    "固定应用环境"@
                },
            },
            None => if english {
                "Fixed app profile"@
            } else {
                "固定应用环境"@
            },
        }
    }
}

pub fn selection_mode_label_for_config(config: &ConfigDocument, english: bool) -> (label: String)
    ensures
        label@ == spec_mode_label_for_config(config@, english),
{
    if config.selection.mode != SelectionMode::Application {
        return if english {
            match config.selection.mode {
                SelectionMode::Auto => text("Auto mode"),
                SelectionMode::Office => text("Fixed Office"),
                SelectionMode::Cs2 => text("Fixed CS2"),
                SelectionMode::Application => text("Fixed app profile"),
            }
        } else {
            text(selection_mode_label(config.selection.mode))
        };
    }
    let ghost apps = config@.applications;
    if let Some(id) = &config.selection.fixed_application_id {
        let mut i: usize = 0;
        while i < config.applications.len()
            invariant
                i <= config.applications@.len(),
                apps == config@.applications,
                apps.len() == config.applications@.len(),
                config.selection.mode == SelectionMode::Application,
                config@.selection.fixed_application_id == Some(id@),
                crate::agent::first_app_by_id(apps, id@, 0) == crate::agent::first_app_by_id(apps, id@, i as int),
            decreases config.applications.len() - i,
        {
            assert(apps[i as int] == config.applications@[i as int]@);
            if str_equal(config.applications[i].id.as_str(), id.as_str()) {
                let name = config.applications[i].name.as_str();
                return if english {
                    let mut label = text("Fixed ");
                    label.append(localize_profile_name(name, true).as_str());
                    label
                } else {
                    let mut label = text("固定 ");
                    label.append(name);
                    label
                };
            }
            i = i + 1;
        }
    }
    if english {
        text("Fixed app profile")
    } else {
        text("固定应用环境")
    }
}

// ---------------------------------------------------------------------------
// Labels of device state, controls and actions
// ---------------------------------------------------------------------------

pub open spec fn spec_connection_label(status: DeviceStatus, english: bool) -> &'static str {
    match status {
        DeviceStatus::Ready => if english {
            "Device connected"
        } else {
            "设备已连接"
        },
        DeviceStatus::Disconnected => if english {
            "Device disconnected"
        } else {
            "设备已断开"
        },
        DeviceStatus::Busy => if english {
            "Device busy"
        } else {
            "设备忙"
        },
        DeviceStatus::Degraded => if english {
            "Device status error"
        } else {
            "设备状态异常"
        },
        DeviceStatus::Unknown => if english {
            "Detecting device"
        } else {
            "正在检测设备"
        },
    }
}

pub fn connection_label(status: DeviceStatus, english: bool) -> (label: &'static str)
    ensures
        label == spec_connection_label(status, english),
{
    match status {
        DeviceStatus::Ready => if english {
            "Device connected"
        } else {
            "设备已连接"
        },
        DeviceStatus::Disconnected => if english {
            "Device disconnected"
        } else {
            "设备已断开"
        },
        DeviceStatus::Busy => if english {
            "Device busy"
        } else {
            "设备忙"
        },
        DeviceStatus::Degraded => if english {
            "Device status error"
        } else {
            "设备状态异常"
        },
        DeviceStatus::Unknown => if english {
            "Detecting device"
        } else {
            "正在检测设备"
        },
    }
}

/// The label of a G102 control.
pub open spec fn spec_control_label(control: Seq<char>, english: bool) -> &'static str {
    if english {
        if control == "g102:left"@ {
            "Primary button"
        } else if control == "g102:right"@ {
            "Secondary button"
        } else if control == "g102:middle"@ {
            "Wheel button (middle)"
        } else if control == "g102:side_back"@ {
            "Back button (G4)"
        } else if control == "g102:side_forward"@ {
            "Forward button (G5)"
        } else if control == "g102:dpi"@ {
            "DPI button (G6)"
        } else {
            "Other button"
        }
    } else {
        if control == "g102:left"@ {
            "左键"
        } else if control == "g102:right"@ {
            "右键"
        } else if control == "g102:middle"@ {
            "滚轮键（中键）"
        } else if control == "g102:side_back"@ {
            "侧后键（G4）"
        } else if control == "g102:side_forward"@ {
            "侧前键（G5）"
        } else if control == "g102:dpi"@ {
            "DPI 键（G6）"
        } else {
            "其他按键"
        }
    }
}

pub fn control_label(control: &str, english: bool) -> (label: &'static str)
    ensures
        label == spec_control_label(control@, english),
{
    if english {
        if str_equal(control, "g102:left") {
            "Primary button"
        } else if str_equal(control, "g102:right") {
            "Secondary button"
        } else if str_equal(control, "g102:middle") {
            "Wheel button (middle)"
        } else if str_equal(control, "g102:side_back") {
            "Back button (G4)"
        } else if str_equal(control, "g102:side_forward") {
            "Forward button (G5)"
        } else if str_equal(control, "g102:dpi") {
            "DPI button (G6)"
        } else {
            "Other button"
        }
    } else {
        if str_equal(control, "g102:left") {
            "左键"
        } else if str_equal(control, "g102:right") {
            "右键"
        } else if str_equal(control, "g102:middle") {
            "滚轮键（中键）"
        } else if str_equal(control, "g102:side_back") {
            "侧后键（G4）"
        } else if str_equal(control, "g102:side_forward") {
            "侧前键（G5）"
        } else if str_equal(control, "g102:dpi") {
            "DPI 键（G6）"
        } else {
            "其他按键"
        }
    }
}

/// The id and label of what a control does out of the box (used to restore it).
pub open spec fn spec_original_action(control: Seq<char>, english: bool) -> (&'static str, &'static str) {
    if control == "g102:middle"@ {
        if english {
            ("middle", "Middle click")
        } else {
            ("middle", "鼠标中键")
        }
    } else if control == "g102:side_back"@ {
        if english {
            ("side_back", "Mouse back")
        } else {
            ("side_back", "鼠标侧键（后）")
        }
    } else if control == "g102:side_forward"@ {
        if english {
            ("side_forward", "Mouse forward")
        } else {
            ("side_forward", "鼠标侧键（前）")
        }
    } else if control == "g102:dpi"@ {
        if english {
            ("dpi_cycle", "Native DPI cycle")
        } else {
            ("dpi_cycle", "原本 DPI 切换")
        }
    } else if english {
        ("disabled", "Disabled")
    } else {
        ("disabled", "禁用")
    }
}

pub fn original_action(control: &str, english: bool) -> (r: (&'static str, &'static str))
    ensures
        r == spec_original_action(control@, english),
{
    if str_equal(control, "g102:middle") {
        if english {
            ("middle", "Middle click")
        } else {
            ("middle", "鼠标中键")
        }
    } else if str_equal(control, "g102:side_back") {
        if english {
            ("side_back", "Mouse back")
        } else {
            ("side_back", "鼠标侧键（后）")
        }
    } else if str_equal(control, "g102:side_forward") {
        if english {
            ("side_forward", "Mouse forward")
        } else {
            ("side_forward", "鼠标侧键（前）")
        }
    } else if str_equal(control, "g102:dpi") {
        if english {
            ("dpi_cycle", "Native DPI cycle")
        } else {
            ("dpi_cycle", "原本 DPI 切换")
        }
    } else if english {
        ("disabled", "Disabled")
    } else {
        ("disabled", "禁用")
    }
}

/// The editor id, label and whether the editor offers the action, for a
/// configured action.
pub open spec fn spec_action_identity(action: ActionView, english: bool) -> (Seq<char>, Seq<char>, bool) {
    match action {
        ActionView::LogicalControl { value } => if value == "mouse:left"@ {
            ("left"@, if english { "Primary click"@ } else { "左键点击"@ }, true)
        } else if value == "mouse:right"@ {
            ("right"@, if english { "Secondary click"@ } else { "右键点击"@ }, true)
        } else if value == "mouse:middle"@ {
            ("middle"@, if english { "Middle click"@ } else { "鼠标中键"@ }, true)
        } else if value == "mouse:back"@ {
            ("side_back"@, if english { "Mouse back"@ } else { "鼠标侧键（后）"@ }, true)
        } else if value == "mouse:forward"@ {
            ("side_forward"@, if english { "Mouse forward"@ } else { "鼠标侧键（前）"@ }, true)
        } else if value == "mouse:dpi_cycle"@ {
            ("dpi_cycle"@, if english { "Native DPI cycle"@ } else { "原本 DPI 切换"@ }, true)
        } else {
            ("custom"@, if english { "Configured action"@ } else { "已配置动作"@ }, false)
        },
        ActionView::OnboardKeyboard { usage_page, usage, modifiers } => if usage_page == 7 && usage == 0x2a
            && modifiers == 0 {
            ("key:42:0"@, "Backspace"@, true)
        } else if usage_page == 7 && usage <= 0xff {
            (
                "key:"@ + spec_decimal(usage as nat) + ":"@ + spec_decimal(modifiers as nat),
                spec_action_label(usage as u8, modifiers),
                true,
            )
        } else {
            ("custom"@, if english { "Configured action"@ } else { "已配置动作"@ }, false)
        },
        ActionView::Disabled => ("disabled"@, if english { "Disabled"@ } else { "禁用"@ }, true),
        ActionView::OnboardConsumer { .. } => ("custom"@, if english { "Configured action"@ } else { "已配置动作"@ }, false),
    }
}

fn pick(english: bool, in_english: &str, in_chinese: &str) -> (s: String)
    ensures
        s@ == if english { in_english@ } else { in_chinese@ },
{
    if english {
        text(in_english)
    } else {
        text(in_chinese)
    }
}

pub fn action_identity(action: &ButtonActionConfig, english: bool) -> (r: (String, String, bool))
    ensures
        (r.0@, r.1@, r.2) == spec_action_identity(action@, english),
{
    match action {
        ButtonActionConfig::LogicalControl { value } => {
            let value = value.as_str();
            if str_equal(value, "mouse:left") {
                (text("left"), pick(english, "Primary click", "左键点击"), true)
            } else if str_equal(value, "mouse:right") {
                (text("right"), pick(english, "Secondary click", "右键点击"), true)
            } else if str_equal(value, "mouse:middle") {
                (text("middle"), pick(english, "Middle click", "鼠标中键"), true)
            } else if str_equal(value, "mouse:back") {
                (text("side_back"), pick(english, "Mouse back", "鼠标侧键（后）"), true)
            } else if str_equal(value, "mouse:forward") {
                (text("side_forward"), pick(english, "Mouse forward", "鼠标侧键（前）"), true)
            } else if str_equal(value, "mouse:dpi_cycle") {
                (text("dpi_cycle"), pick(english, "Native DPI cycle", "原本 DPI 切换"), true)
            } else {
                (text("custom"), pick(english, "Configured action", "已配置动作"), false)
            }
        },
        ButtonActionConfig::OnboardKeyboard { usage_page, usage, modifiers } => {
            if *usage_page == 7 && *usage == 0x2a && *modifiers == 0 {
                (text("key:42:0"), text("Backspace"), true)
            } else if *usage_page == 7 && *usage <= 0xff {
                let mut id = text("key:");
                id.append(decimal_text(*usage as u64).as_str());
                id.append(":");
                id.append(decimal_text(*modifiers as u64).as_str());
                (id, keyboard_action_label(*usage as u8, *modifiers), true)
            } else {
                (text("custom"), pick(english, "Configured action", "已配置动作"), false)
            }
        },
        ButtonActionConfig::Disabled => (text("disabled"), pick(english, "Disabled", "禁用"), true),
        ButtonActionConfig::OnboardConsumer { .. } => (
            text("custom"),
            pick(english, "Configured action", "已配置动作"),
            false,
        ),
    }
}

/// Whether an IPC error text reports a configuration revision conflict.
pub open spec fn spec_is_revision_conflict(error: Seq<char>) -> bool {
    exists|i: int|
        0 <= i && i + "PH-IPC-CONFLICT"@.len() <= error.len() && #[trigger] error.subrange(
            i,
            i + "PH-IPC-CONFLICT"@.len(),
        ) == "PH-IPC-CONFLICT"@
}

pub fn is_revision_conflict(error: &str) -> (r: bool)
    ensures
        r == spec_is_revision_conflict(error@),
{
    let marker = "PH-IPC-CONFLICT";
    proof {
        reveal_strlit("PH-IPC-CONFLICT");
    }
    let n = error.unicode_len();
    let m = marker.unicode_len();
    if n < m {
        proof {
            assert forall|i: int| 0 <= i && i + m <= n implies #[trigger] error@.subrange(i, i + m) != marker@ by {}
        }
        return false;
    }
    let mut i: usize = 0;
    while i <= n - m
        invariant
            n == error@.len(),
            m == marker@.len(),
            marker@ == "PH-IPC-CONFLICT"@,
            m == 15,
            m <= n,
            i <= n - m + 1,
            forall|j: int| 0 <= j < i ==> #[trigger] error@.subrange(j, j + m) != marker@,
        decreases n - m + 1 - i,
    {
        if str_equal(error.substring_char(i, i + m), marker) {
            assert(error@.subrange(i as int, i + m) == marker@);
            return true;
        }
        i = i + 1;
    }
    false
}

/// Closing the window asks for confirmation only when the draft has unsaved edits.
pub fn should_prompt_before_close(draft_dirty: bool) -> (prompt: bool)
    ensures
        prompt == draft_dirty,
{
    draft_dirty
}

} // verus!
