//! Decimal and hexadecimal rendering of integers, as used in user-facing messages.

use vstd::prelude::*;
use vstd::string::*;

verus! {

/// The lower-case hexadecimal digit (or decimal digit) for `d < 16`.
pub open spec fn digit_char(d: nat) -> char {
    if d < 10 {
        (48 + d) as char
    } else {
        (87 + d) as char
    }
}

/// The upper-case hexadecimal digit for `d < 16`.
pub open spec fn upper_digit_char(d: nat) -> char {
    if d < 10 {
        (48 + d) as char
    } else {
        (55 + d) as char
    }
}

/// Decimal rendering without sign, padding or separators.
pub open spec fn spec_decimal(n: nat) -> Seq<char>
    decreases n,
{
    if n < 10 {
        seq![digit_char(n)]
    } else {
        spec_decimal(n / 10).push(digit_char(n % 10))
    }
}

/// Lower-case hexadecimal rendering without prefix.
pub open spec fn spec_hex(n: nat) -> Seq<char>
    decreases n,
{
    if n < 16 {
        seq![digit_char(n)]
    } else {
        spec_hex(n / 16).push(digit_char(n % 16))
    }
}

/// Upper-case hexadecimal rendering without prefix.
pub open spec fn spec_hex_upper(n: nat) -> Seq<char>
    decreases n,
{
    if n < 16 {
        seq![upper_digit_char(n)]
    } else {
        spec_hex_upper(n / 16).push(upper_digit_char(n % 16))
    }
}

/// Left-pads with `'0'` up to `width` characters.
pub open spec fn zero_pad(s: Seq<char>, width: nat) -> Seq<char> {
    if s.len() >= width {
        s
    } else {
        Seq::new((width - s.len()) as nat, |i: int| '0') + s
    }
}

/// A decimal rendering is a non-empty run of the digits `0` to `9`.
pub proof fn lemma_decimal_digits(n: nat)
    ensures
        spec_decimal(n).len() >= 1,
        forall|k: int| 0 <= k < spec_decimal(n).len() ==> '0' <= #[trigger] spec_decimal(n)[k] <= '9',
    decreases n,
{
    if n >= 10 {
        lemma_decimal_digits(n / 10);
        assert(n % 10 < 10);
        assert('0' <= digit_char(n % 10) <= '9');
    }
}

/// The digit `d` (below 16) in the chosen case.
pub open spec fn cased_digit(d: nat, upper: bool) -> char {
    if upper {
        upper_digit_char(d)
    } else {
        digit_char(d)
    }
}

/// Rendering of `n` in hexadecimal (`hex`) or decimal, most significant digit first.
pub open spec fn spec_digits(n: nat, hex: bool, upper: bool) -> Seq<char>
    decreases n,
{
    if hex {
        if n < 16 {
            seq![cased_digit(n, upper)]
        } else {
            spec_digits(n / 16, hex, upper).push(cased_digit(n % 16, upper))
        }
    } else {
        if n < 10 {
            seq![cased_digit(n, upper)]
        } else {
            spec_digits(n / 10, hex, upper).push(cased_digit(n % 10, upper))
        }
    }
}

proof fn lemma_digits_decimal(n: nat)
    ensures
        spec_digits(n, false, false) == spec_decimal(n),
    decreases n,
{
    if n >= 10 {
        lemma_digits_decimal(n / 10);
    }
}

proof fn lemma_digits_hex(n: nat, upper: bool)
    ensures
        spec_digits(n, true, upper) == if upper {
            spec_hex_upper(n)
        } else {
            spec_hex(n)
        },
    decreases n,
{
    if n >= 16 {
        lemma_digits_hex(n / 16, upper);
    }
}

proof fn lemma_digits_len(n: nat, hex: bool, upper: bool)
    ensures
        1 <= spec_digits(n, hex, upper).len() <= n + 1,
    decreases n,
{
    if hex && n >= 16 {
        lemma_digits_len(n / 16, hex, upper);
    } else if !hex && n >= 10 {
        lemma_digits_len(n / 10, hex, upper);
    }
}

/// The text of one digit below 16.
fn digit_text(d: u64, upper: bool) -> (s: &'static str)
    requires
        d < 16,
    ensures
        s@ == seq![cased_digit(d as nat, upper)],
{
    if d == 0 {
        proof {
            reveal_strlit("0");
        }
        return "0";
    }
    if d == 1 {
        proof {
            reveal_strlit("1");
        }
        return "1";
    }
    if d == 2 {
        proof {
            reveal_strlit("2");
        }
        return "2";
    }
    if d == 3 {
        proof {
            reveal_strlit("3");
        }
        return "3";
    }
    if d == 4 {
        proof {
            reveal_strlit("4");
        }
        return "4";
    }
    if d == 5 {
        proof {
            reveal_strlit("5");
        }
        return "5";
    }
    if d == 6 {
        proof {
            reveal_strlit("6");
        }
        return "6";
    }
    if d == 7 {
        proof {
            reveal_strlit("7");
        }
        return "7";
    }
    if d == 8 {
        proof {
            reveal_strlit("8");
        }
        return "8";
    }
    if d == 9 {
        proof {
            reveal_strlit("9");
        }
        return "9";
    }
    if d == 10 {
        if upper {
            proof {
                reveal_strlit("A");
            }
            return "A";
        }
        proof {
            reveal_strlit("a");
        }
        return "a";
    }
    if d == 11 {
        if upper {
            proof {
                reveal_strlit("B");
            }
            return "B";
        }
        proof {
            reveal_strlit("b");
        }
        return "b";
    }
    if d == 12 {
        if upper {
            proof {
                reveal_strlit("C");
            }
            return "C";
        }
        proof {
            reveal_strlit("c");
        }
        return "c";
    }
    if d == 13 {
        if upper {
            proof {
                reveal_strlit("D");
            }
            return "D";
        }
        proof {
            reveal_strlit("d");
        }
        return "d";
    }
    if d == 14 {
        if upper {
            proof {
                reveal_strlit("E");
            }
            return "E";
        }
        proof {
            reveal_strlit("e");
        }
        return "e";
    }
    if upper {
        proof {
            reveal_strlit("F");
        }
        "F"
    } else {
        proof {
            reveal_strlit("f");
        }
        "f"
    }
}

/// Appends the digits of `n`, hexadecimal or decimal, and gives how many were
/// appended.
fn append_digits(n: u64, hex: bool, upper: bool, s: &mut String) -> (count: u64)
    ensures
        final(s)@ == old(s)@ + spec_digits(n as nat, hex, upper),
        count == spec_digits(n as nat, hex, upper).len(),
    decreases n,
{
    let base: u64 = if hex {
        16
    } else {
        10
    };
    if n < base {
        s.append(digit_text(n, upper));
        return 1;
    }
    let high = n / base;
    let before = append_digits(high, hex, upper, s);
    s.append(digit_text(n % base, upper));
    proof {
        lemma_digits_len(high as nat, hex, upper);
        assert(spec_digits(n as nat, hex, upper) == spec_digits(high as nat, hex, upper).push(
            cased_digit((n % base) as nat, upper),
        ));
    }
    before + 1
}

/// The decimal rendering of `n`.
pub(crate) fn decimal_text(n: u64) -> (s: String)
    ensures
        s@ == spec_decimal(n as nat),
{
    let mut s = String::new();
    append_digits(n, false, false, &mut s);
    proof {
        lemma_digits_decimal(n as nat);
    }
    s
}

/// `n` in hexadecimal, zero-padded to `width` characters.
fn padded_hex(n: u64, width: usize, upper: bool) -> (s: String)
    ensures
        s@ == zero_pad(spec_digits(n as nat, true, upper), width as nat),
{
    let mut digits = String::new();
    let count = append_digits(n, true, upper, &mut digits);
    let wanted = width as u64;
    let missing: u64 = if count < wanted {
        wanted - count
    } else {
        0
    };
    let mut s = String::new();
    let mut pad: u64 = 0;
    proof {
        reveal_strlit("0");
        assert(s@ =~= Seq::new(0nat, |i: int| '0'));
    }
    while pad < missing
        invariant
            pad <= missing,
            s@ =~= Seq::new(pad as nat, |i: int| '0'),
        decreases missing - pad,
    {
        proof {
            reveal_strlit("0");
        }
        s.append("0");
        proof {
            assert(s@ =~= Seq::new((pad + 1) as nat, |i: int| '0'));
        }
        pad = pad + 1;
    }
    s.append(digits.as_str());
    proof {
        let d = spec_digits(n as nat, true, upper);
        if d.len() >= width {
            assert(s@ =~= d);
        }
    }
    s
}

/// Lower-case hexadecimal, zero-padded to `width`.
pub(crate) fn hex_text(n: u64, width: usize) -> (s: String)
    ensures
        s@ == zero_pad(spec_hex(n as nat), width as nat),
{
    proof {
        lemma_digits_hex(n as nat, false);
    }
    padded_hex(n, width, false)
}

/// Upper-case hexadecimal, zero-padded to `width`.
pub(crate) fn hex_upper_text(n: u64, width: usize) -> (s: String)
    ensures
        s@ == zero_pad(spec_hex_upper(n as nat), width as nat),
{
    proof {
        lemma_digits_hex(n as nat, true);
    }
    padded_hex(n, width, true)
}

} // verus!
