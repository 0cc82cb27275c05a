//! Character and byte level text predicates shared by the configuration,
//! IPC and profile-selection logic, with their mathematical meaning.

use vstd::prelude::*;
use vstd::string::*;

verus! {

/// ASCII lower-casing of one byte; other bytes are unchanged.
pub open spec fn ascii_lower(b: u8) -> u8 {
    if 0x41 <= b <= 0x5a {
        (b + 0x20) as u8
    } else {
        b
    }
}

/// Byte-wise equality after ASCII lower-casing (what `eq_ignore_ascii_case` compares).
pub open spec fn eq_ignore_ascii_case(a: Seq<u8>, b: Seq<u8>) -> bool {
    &&& a.len() == b.len()
    &&& forall|i: int| 0 <= i < a.len() ==> ascii_lower(#[trigger] a[i]) == ascii_lower(b[i])
}

/// The UTF-8 bytes of a character sequence.
pub open spec fn utf8(s: Seq<char>) -> Seq<u8> {
    vstd::utf8::encode_utf8(s)
}

/// Unicode `White_Space` characters (what `char::is_whitespace` accepts).
pub open spec fn is_whitespace(c: char) -> bool {
    let v = c as u32;
    ||| 0x09 <= v <= 0x0d
    ||| v == 0x20
    ||| v == 0x85
    ||| v == 0xa0
    ||| v == 0x1680
    ||| 0x2000 <= v <= 0x200a
    ||| v == 0x2028
    ||| v == 0x2029
    ||| v == 0x202f
    ||| v == 0x205f
    ||| v == 0x3000
}

/// Unicode general category `Cc` (what `char::is_control` accepts).
pub open spec fn is_control(c: char) -> bool {
    let v = c as u32;
    v <= 0x1f || (0x7f <= v <= 0x9f)
}

/// A text is blank when trimming whitespace leaves nothing.
pub open spec fn is_blank(s: Seq<char>) -> bool {
    forall|i: int| 0 <= i < s.len() ==> is_whitespace(#[trigger] s[i])
}

/// Whether `s` ends with `suffix` after ASCII lower-casing its bytes.
pub open spec fn ends_with_ignore_ascii_case(s: Seq<u8>, suffix: Seq<u8>) -> bool {
    &&& suffix.len() <= s.len()
    &&& eq_ignore_ascii_case(s.subrange(s.len() - suffix.len(), s.len() as int), suffix)
}

pub fn lower_byte(b: u8) -> (r: u8)
    ensures
        r == ascii_lower(b),
{
    if b >= 0x41 && b <= 0x5a {
        b + 0x20
    } else {
        b
    }
}

/// Byte-wise case-insensitive comparison of two byte slices.
pub fn bytes_eq_ignore_ascii_case(a: &[u8], b: &[u8]) -> (r: bool)
    ensures
        r == eq_ignore_ascii_case(a@, b@),
{
    if a.len() != b.len() {
        return false;
    }
    let mut i: usize = 0;
    while i < a.len()
        invariant
            a.len() == b.len(),
            i <= a.len(),
            forall|j: int| 0 <= j < i ==> ascii_lower(#[trigger] a@[j]) == ascii_lower(b@[j]),
        decreases a.len() - i,
    {
        if lower_byte(a[i]) != lower_byte(b[i]) {
            assert(!(ascii_lower(a@[i as int]) == ascii_lower(b@[i as int])));
            return false;
        }
        i = i + 1;
    }
    true
}

/// `str::eq_ignore_ascii_case`.
pub fn str_eq_ignore_ascii_case(a: &str, b: &str) -> (r: bool)
    ensures
        r == eq_ignore_ascii_case(utf8(a@), utf8(b@)),
{
    bytes_eq_ignore_ascii_case(a.as_bytes(), b.as_bytes())
}

/// Whether the UTF-8 text ends with `suffix`, ignoring ASCII case.
pub fn str_ends_with_ignore_ascii_case(s: &str, suffix: &str) -> (r: bool)
    ensures
        r == ends_with_ignore_ascii_case(utf8(s@), utf8(suffix@)),
{
    let bytes = s.as_bytes();
    let tail = suffix.as_bytes();
    if tail.len() > bytes.len() {
        return false;
    }
    let start = bytes.len() - tail.len();
    let mut i: usize = 0;
    while i < tail.len()
        invariant
            bytes@ == utf8(s@),
            tail@ == utf8(suffix@),
            start + tail.len() == bytes.len(),
            i <= tail.len(),
            forall|j: int|
                0 <= j < i ==> ascii_lower(#[trigger] bytes@[start + j]) == ascii_lower(tail@[j]),
        decreases tail.len() - i,
    {
        if lower_byte(bytes[start + i]) != lower_byte(tail[i]) {
            proof {
                let sub = bytes@.subrange(start as int, bytes.len() as int);
                assert(sub[i as int] == bytes@[start + i]);
            }
            return false;
        }
        i = i + 1;
    }
    proof {
        let sub = bytes@.subrange(start as int, bytes.len() as int);
        assert forall|j: int| 0 <= j < sub.len() implies ascii_lower(#[trigger] sub[j]) == ascii_lower(
            tail@[j],
        ) by {
            assert(sub[j] == bytes@[start + j]);
        }
    }
    true
}

/// `s.trim().is_empty()`: every character is white space.
pub fn str_is_blank(s: &str) -> (r: bool)
    ensures
        r == is_blank(s@),
{
    let n = s.unicode_len();
    let mut i: usize = 0;
    while i < n
        invariant
            n == s@.len(),
            i <= n,
            forall|j: int| 0 <= j < i ==> is_whitespace(#[trigger] s@[j]),
        decreases n - i,
    {
        let c = s.get_char(i);
        if !char_is_whitespace(c) {
            return false;
        }
        i = i + 1;
    }
    true
}

/// Whether any character of `s` is a control character.
pub fn str_has_control(s: &str) -> (r: bool)
    ensures
        r == exists|i: int| 0 <= i < s@.len() && is_control(#[trigger] s@[i]),
{
    let n = s.unicode_len();
    let mut i: usize = 0;
    while i < n
        invariant
            n == s@.len(),
            i <= n,
            forall|j: int| 0 <= j < i ==> !is_control(#[trigger] s@[j]),
        decreases n - i,
    {
        let c = s.get_char(i);
        let v = c as u32;
        if v <= 0x1f || (v >= 0x7f && v <= 0x9f) {
            assert(is_control(s@[i as int]));
            return true;
        }
        i = i + 1;
    }
    false
}

pub fn char_is_whitespace(c: char) -> (r: bool)
    ensures
        r == is_whitespace(c),
{
    let v = c as u32;
    (v >= 0x09 && v <= 0x0d) || v == 0x20 || v == 0x85 || v == 0xa0 || v == 0x1680 || (v >= 0x2000
        && v <= 0x200a) || v == 0x2028 || v == 0x2029 || v == 0x202f || v == 0x205f || v == 0x3000
}

/// Whether two texts are the same character sequence.
pub fn str_equal(a: &str, b: &str) -> (r: bool)
    ensures
        r == (a@ == b@),
{
    let n = a.unicode_len();
    if n != b.unicode_len() {
        return false;
    }
    let mut i: usize = 0;
    while i < n
        invariant
            n == a@.len(),
            n == b@.len(),
            i <= n,
            forall|j: int| 0 <= j < i ==> a@[j] == b@[j],
        decreases n - i,
    {
        if a.get_char(i) != b.get_char(i) {
            return false;
        }
        i = i + 1;
    }
    assert(a@ =~= b@);
    true
}

} // verus!
