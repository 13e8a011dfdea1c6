use vstd::prelude::*;

verus! {

/// Whether `c` is one of the ASCII digits `0` to `9`.
pub open spec fn is_digit(c: char) -> bool {
    '0' <= c && c <= '9'
}

/// The value of the digit `c`.
pub open spec fn digit_value(c: char) -> nat {
    (c as u32 - '0' as u32) as nat
}

/// The value of a string of decimal digits, most significant first.
pub open spec fn digits_value(s: Seq<char>) -> nat
    decreases s.len(),
{
    if s.len() == 0 {
        0
    } else {
        digits_value(s.drop_last()) * 10 + digit_value(s.last())
    }
}

/// A non-empty string made of decimal digits only.
pub open spec fn all_digits(s: Seq<char>) -> bool {
    s.len() > 0 && forall|i: int| 0 <= i < s.len() ==> is_digit(#[trigger] s[i])
}

/// The digits of an unsigned integer literal: the text without one leading `+`.
pub open spec fn unsigned_digits(s: Seq<char>) -> Seq<char> {
    if s.len() > 0 && s[0] == '+' {
        s.skip(1)
    } else {
        s
    }
}

/// Strict decimal reading of an unsigned 32-bit integer: an optional `+`,
/// then one or more digits, whose value fits in 32 bits.
pub open spec fn u32_of_text(s: Seq<char>) -> Option<u32> {
    let d = unsigned_digits(s);
    if all_digits(d) && digits_value(d) <= u32::MAX {
        Some(digits_value(d) as u32)
    } else {
        None
    }
}

proof fn lemma_digits_value_grows(s: Seq<char>, n: int)
    requires
        0 <= n <= s.len(),
    ensures
        digits_value(s.take(n)) <= digits_value(s),
    decreases s.len(),
{
    if n < s.len() {
        assert(s.drop_last().take(n) =~= s.take(n));
        lemma_digits_value_grows(s.drop_last(), n);
    } else {
        assert(s.take(n) =~= s);
    }
}

/// Reads `text` as an unsigned 32-bit integer in decimal; `None` where it is not one.
pub fn parse_u32(text: &str) -> (r: Option<u32>)
    ensures
        r == u32_of_text(text@),
{
    broadcast use vstd::string::group_string_axioms;
    let ghost s = text@;
    if !text.is_ascii() {
        proof {
            let i = choose|i: int| 0 <= i < s.len() && !('\0' <= #[trigger] s[i] <= '\u{7f}');
            let d = unsigned_digits(s);
            if s.len() > 0 && s[0] == '+' {
                assert(d[i - 1] == s[i]);
            }
        }
        return None;
    }
    let bytes = text.as_bytes();
    proof {
        vstd::string::is_ascii_spec_bytes(text);
    }
    let n = bytes.len();
    let start: usize = if n > 0 && bytes[0] == 43u8 { 1 } else { 0 };
    let ghost d = unsigned_digits(s);
    assert(d =~= s.skip(start as int));
    if start == n {
        return None;
    }
    let mut value: u64 = 0;
    let mut i: usize = start;
    while i < n
        invariant
            start <= i <= n,
            n == s.len(),
            bytes@ == Seq::new(s.len(), |k: int| s[k] as u8),
            d =~= s.skip(start as int),
            d == unsigned_digits(s),
            s == text@,
            value <= u32::MAX,
            vstd::utf8::is_ascii_chars(s),
            all_digits(d.take(i - start)) || i == start,
            value == digits_value(d.take(i - start)),
        decreases n - i,
    {
        let b = bytes[i];
        proof {
            let c = s[i as int];
            assert('\0' <= c <= '\u{7f}');
            assert(d[i - start] == c);
            assert(b == c as u8);
            assert(b as u32 == c as u32);
        }
        if b < 48u8 || b > 57u8 {
            assert(!is_digit(d[i - start]));
            assert(!all_digits(d));
            return None;
        }
        let ghost p = d.take(i - start + 1);
        assert(p.drop_last() =~= d.take(i - start));
        assert(digit_value(p.last()) == (b - 48) as nat);
        value = value * 10 + (b - 48) as u64;
        i = i + 1;
        assert(digits_value(p) == value);
        assert(p =~= d.take(i - start));
        if value > 0xffff_ffffu64 {
            proof {
                lemma_digits_value_grows(d, i - start);
            }
            return None;
        }
    }
    assert(d.take(n - start) =~= d);
    Some(value as u32)
}

/// Where a left-to-right reading of a decimal number stands.
#[derive(Clone, Copy, PartialEq, Eq, Structural)]
pub enum DecimalScan {
    Start,
    Signed,
    Whole,
    LeadingPoint,
    WholePoint,
    Fraction,
    Exponent,
    ExponentSigned,
    ExponentDigits,
    Rejected,
}

pub open spec fn is_sign(c: char) -> bool {
    c == '+' || c == '-'
}

pub open spec fn is_exponent_mark(c: char) -> bool {
    c == 'e' || c == 'E'
}

/// One character of the decimal grammar
/// `[+-]? (d+ | d+ '.' d* | '.' d+) ([eE] [+-]? d+)?`.
pub open spec fn decimal_step(st: DecimalScan, c: char) -> DecimalScan {
    match st {
        DecimalScan::Start => if is_sign(c) {
            DecimalScan::Signed
        } else if is_digit(c) {
            DecimalScan::Whole
        } else if c == '.' {
            DecimalScan::LeadingPoint
        } else {
            DecimalScan::Rejected
        },
        DecimalScan::Signed => if is_digit(c) {
            DecimalScan::Whole
        } else if c == '.' {
            DecimalScan::LeadingPoint
        } else {
            DecimalScan::Rejected
        },
        DecimalScan::Whole => if is_digit(c) {
            DecimalScan::Whole
        } else if c == '.' {
            DecimalScan::WholePoint
        } else if is_exponent_mark(c) {
            DecimalScan::Exponent
        } else {
            DecimalScan::Rejected
        },
        DecimalScan::LeadingPoint => if is_digit(c) {
            DecimalScan::Fraction
        } else {
            DecimalScan::Rejected
        },
        DecimalScan::WholePoint | DecimalScan::Fraction => if is_digit(c) {
            DecimalScan::Fraction
        } else if is_exponent_mark(c) {
            DecimalScan::Exponent
        } else {
            DecimalScan::Rejected
        },
        DecimalScan::Exponent => if is_sign(c) {
            DecimalScan::ExponentSigned
        } else if is_digit(c) {
            DecimalScan::ExponentDigits
        } else {
            DecimalScan::Rejected
        },
        DecimalScan::ExponentSigned | DecimalScan::ExponentDigits => if is_digit(c) {
            DecimalScan::ExponentDigits
        } else {
            DecimalScan::Rejected
        },
        DecimalScan::Rejected => DecimalScan::Rejected,
    }
}

/// Where the reading stands after all of `s`.
pub open spec fn decimal_scan(s: Seq<char>) -> DecimalScan
    decreases s.len(),
{
    if s.len() == 0 {
        DecimalScan::Start
    } else {
        decimal_step(decimal_scan(s.drop_last()), s.last())
    }
}

pub open spec fn is_complete(st: DecimalScan) -> bool {
    st == DecimalScan::Whole || st == DecimalScan::WholePoint || st == DecimalScan::Fraction
        || st == DecimalScan::ExponentDigits
}

/// Strict decimal notation of a number: an optional sign, digits with at most
/// one decimal point and at least one digit, and an optional exponent.
/// Words such as `inf` or `NaN` are not numbers here.
pub open spec fn is_decimal_text(s: Seq<char>) -> bool {
    is_complete(decimal_scan(s))
}

proof fn lemma_outside_alphabet_rejects(s: Seq<char>, k: int)
    requires
        0 <= k < s.len(),
        !('\0' <= s[k] <= '\u{7f}'),
    ensures
        decimal_scan(s) == DecimalScan::Rejected,
    decreases s.len(),
{
    if k < s.len() - 1 {
        lemma_outside_alphabet_rejects(s.drop_last(), k);
    }
}

fn decimal_next(st: DecimalScan, b: u8, Ghost(c): Ghost<char>) -> (r: DecimalScan)
    requires
        b as u32 == c as u32,
    ensures
        r == decimal_step(st, c),
{
    let digit = 48u8 <= b && b <= 57u8;
    let sign = b == 43u8 || b == 45u8;
    let point = b == 46u8;
    let mark = b == 101u8 || b == 69u8;
    match st {
        DecimalScan::Start => if sign {
            DecimalScan::Signed
        } else if digit {
            DecimalScan::Whole
        } else if point {
            DecimalScan::LeadingPoint
        } else {
            DecimalScan::Rejected
        },
        DecimalScan::Signed => if digit {
            DecimalScan::Whole
        } else if point {
            DecimalScan::LeadingPoint
        } else {
            DecimalScan::Rejected
        },
        DecimalScan::Whole => if digit {
            DecimalScan::Whole
        } else if point {
            DecimalScan::WholePoint
        } else if mark {
            DecimalScan::Exponent
        } else {
            DecimalScan::Rejected
        },
        DecimalScan::LeadingPoint => if digit {
            DecimalScan::Fraction
        } else {
            DecimalScan::Rejected
        },
        DecimalScan::WholePoint | DecimalScan::Fraction => if digit {
            DecimalScan::Fraction
        } else if mark {
            DecimalScan::Exponent
        } else {
            DecimalScan::Rejected
        },
        DecimalScan::Exponent => if sign {
            DecimalScan::ExponentSigned
        } else if digit {
            DecimalScan::ExponentDigits
        } else {
            DecimalScan::Rejected
        },
        DecimalScan::ExponentSigned | DecimalScan::ExponentDigits => if digit {
            DecimalScan::ExponentDigits
        } else {
            DecimalScan::Rejected
        },
        DecimalScan::Rejected => DecimalScan::Rejected,
    }
}

/// Whether `text` is a number in strict decimal notation.
pub fn is_decimal(text: &str) -> (r: bool)
    ensures
        r == is_decimal_text(text@),
{
    broadcast use vstd::string::group_string_axioms;
    let ghost s = text@;
    if !text.is_ascii() {
        proof {
            let k = choose|k: int| 0 <= k < s.len() && !('\0' <= #[trigger] s[k] <= '\u{7f}');
            lemma_outside_alphabet_rejects(s, k);
        }
        return false;
    }
    let bytes = text.as_bytes();
    proof {
        vstd::string::is_ascii_spec_bytes(text);
    }
    let n = bytes.len();
    let mut st = DecimalScan::Start;
    let mut i: usize = 0;
    while i < n
        invariant
            i <= n,
            n == s.len(),
            s == text@,
            bytes@ == Seq::new(s.len(), |k: int| s[k] as u8),
            vstd::utf8::is_ascii_chars(s),
            st == decimal_scan(s.take(i as int)),
        decreases n - i,
    {
        let b = bytes[i];
        let ghost c = s[i as int];
        assert('\0' <= c <= '\u{7f}');
        assert(b as u32 == c as u32);
        st = decimal_next(st, b, Ghost(c));
        assert(s.take(i + 1).drop_last() =~= s.take(i as int));
        i = i + 1;
    }
    assert(s.take(n as int) =~= s);
    st == DecimalScan::Whole || st == DecimalScan::WholePoint || st == DecimalScan::Fraction
        || st == DecimalScan::ExponentDigits
}

} // verus!
