//! Decimal and hexadecimal numbers as text.

use vstd::prelude::*;

use crate::text;

verus! {

// ---------------------------------------------------------------------------
// Reading

/// The value of a digit in the given radix.
pub open spec fn digit_of(c: char, radix: nat) -> Option<nat> {
    let v: int = if '0' <= c <= '9' {
        c as int - '0' as int
    } else if 'a' <= c <= 'z' {
        c as int - 'a' as int + 10
    } else if 'A' <= c <= 'Z' {
        c as int - 'A' as int + 10
    } else {
        radix as int
    };
    if v < radix {
        Some(v as nat)
    } else {
        None
    }
}

/// The value of a sequence of digits, most significant first.
pub open spec fn digits_of(s: text::Text, radix: nat) -> Option<nat>
    decreases s.len(),
{
    if s.len() == 0 {
        Some(0)
    } else {
        match (digits_of(s.drop_last(), radix), digit_of(s.last(), radix)) {
            (Some(v), Some(d)) => Some(v * radix + d),
            _ => None,
        }
    }
}

/// The value of an unsigned number: digits, at least one, behind an optional
/// plus sign.
pub open spec fn unsigned(s: text::Text, radix: nat) -> Option<nat> {
    let body = if s.len() > 0 && s[0] == '+' {
        s.skip(1)
    } else {
        s
    };
    if body.len() == 0 {
        None
    } else {
        digits_of(body, radix)
    }
}

/// The unsigned number that a text holds, if it is at most `max`.
pub open spec fn bounded(s: text::Text, radix: nat, max: nat) -> Option<nat> {
    match unsigned(s, radix) {
        Some(v) => if v <= max {
            Some(v)
        } else {
            None
        },
        None => None,
    }
}

pub open spec fn u8_of(s: text::Text) -> Option<u8> {
    match bounded(s, 10, u8::MAX as nat) {
        Some(v) => Some(v as u8),
        None => None,
    }
}

pub open spec fn u16_of(s: text::Text) -> Option<u16> {
    match bounded(s, 10, u16::MAX as nat) {
        Some(v) => Some(v as u16),
        None => None,
    }
}

pub open spec fn u32_of(s: text::Text) -> Option<u32> {
    match bounded(s, 10, u32::MAX as nat) {
        Some(v) => Some(v as u32),
        None => None,
    }
}

pub open spec fn u64_of(s: text::Text) -> Option<u64> {
    match bounded(s, 10, u64::MAX as nat) {
        Some(v) => Some(v as u64),
        None => None,
    }
}

/// A number of sixteen bits with a sign: digits behind an optional plus or
/// minus sign.
pub open spec fn i16_of(s: text::Text) -> Option<i16> {
    if s.len() > 1 && s[0] == '-' {
        match digits_of(s.skip(1), 10) {
            Some(v) => if v <= 32768 {
                Some((-(v as int)) as i16)
            } else {
                None
            },
            None => None,
        }
    } else {
        match bounded(s, 10, 32767) {
            Some(v) => Some(v as i16),
            None => None,
        }
    }
}

/// A prefix of digits is worth no more than the whole, and a prefix that is no
/// number spoils the whole.
proof fn lemma_digits_prefix(s: text::Text, radix: nat, i: int)
    requires
        0 <= i <= s.len(),
        radix >= 1,
    ensures
        digits_of(s.take(i), radix) is None ==> digits_of(s, radix) is None,
        digits_of(s.take(i), radix) is Some && digits_of(s, radix) is Some ==> digits_of(
            s.take(i),
            radix,
        )->0 <= digits_of(s, radix)->0,
    decreases s.len() - i,
{
    if i == s.len() {
        assert(s.take(i) =~= s);
    } else {
        lemma_digits_prefix(s, radix, i + 1);
        let t = s.take(i + 1);
        assert(t.drop_last() =~= s.take(i));
        match (digits_of(s.take(i), radix), digit_of(t.last(), radix)) {
            (Some(v), Some(d)) => {
                assert(v <= v * radix + d) by (nonlinear_arith)
                    requires
                        radix >= 1,
                        d >= 0,
                        v >= 0,
                ;
            },
            _ => {},
        }
    }
}

/// Reads a digit; the result is `radix` or more where there is none.
fn read_digit(c: char, radix: u32) -> (r: Option<u32>)
    requires
        radix <= 36,
    ensures
        r is Some == digit_of(c, radix as nat) is Some,
        r is Some ==> r->0 == digit_of(c, radix as nat)->0,
{
    let n: u32 = c as u32;
    let v: u32 = if '0' <= c && c <= '9' {
        n - 48
    } else if 'a' <= c && c <= 'z' {
        n - 97 + 10
    } else if 'A' <= c && c <= 'Z' {
        n - 65 + 10
    } else {
        radix
    };
    if v < radix {
        Some(v)
    } else {
        None
    }
}

/// Reads the digits of `v` from index `from` on.
fn read_digits(v: &Vec<char>, from: usize, radix: u32, max: u64) -> (r: Option<u64>)
    requires
        from <= v@.len(),
        2 <= radix <= 36,
        max <= u64::MAX,
    ensures
        match digits_of(v@.skip(from as int), radix as nat) {
            Some(n) => r == (if n <= max {
                Some(n as u64)
            } else {
                None
            }),
            None => r is None,
        },
{
    let ghost s = v@.skip(from as int);
    let mut total: u128 = 0;
    let mut i: usize = from;
    assert(s.take(0) =~= Seq::empty());
    while i < v.len()
        invariant
            from <= i <= v.len(),
            s == v@.skip(from as int),
            2 <= radix <= 36,
            total <= max,
            digits_of(s.take(i - from), radix as nat) == Some(total as nat),
        decreases v.len() - i,
    {
        let ghost t = s.take(i - from + 1);
        assert(t.drop_last() =~= s.take(i - from));
        assert(t.last() == v@[i as int]);
        match read_digit(v[i], radix) {
            Some(d) => {
                assert(total * radix + d <= u128::MAX) by (nonlinear_arith)
                    requires
                        total <= 0xffff_ffff_ffff_ffff,
                        radix <= 36,
                        d <= 36,
                ;
                assert(0 <= total * radix) by (nonlinear_arith)
                    requires
                        total >= 0,
                        radix >= 0,
                ;
                let next: u128 = total * (radix as u128) + (d as u128);
                if next > max as u128 {
                    proof {
                        lemma_digits_prefix(s, radix as nat, i - from + 1);
                    }
                    return None;
                }
                total = next;
            },
            None => {
                proof {
                    lemma_digits_prefix(s, radix as nat, i - from + 1);
                }
                return None;
            },
        }
        i += 1;
    }
    assert(s.take(i - from) =~= s);
    Some(total as u64)
}

/// Reads an unsigned number that is at most `max`.
fn read_bounded(s: &str, radix: u32, max: u64) -> (r: Option<u64>)
    requires
        2 <= radix <= 36,
    ensures
        r == (match bounded(s@, radix as nat, max as nat) {
            Some(n) => Some(n as u64),
            None => None,
        }),
{
    let v = text::to_chars(s);
    let from: usize = if v.len() > 0 && v[0] == '+' {
        1
    } else {
        0
    };
    assert(s@.skip(0) =~= s@);
    if from == v.len() {
        return None;
    }
    read_digits(&v, from, radix, max)
}

/// Reads an unsigned number of eight bits.
pub fn read_u8(s: &str) -> (r: Option<u8>)
    ensures
        r == u8_of(s@),
{
    match read_bounded(s, 10, u8::MAX as u64) {
        Some(n) => Some(n as u8),
        None => None,
    }
}

/// Reads an unsigned number of sixteen bits.
pub fn read_u16(s: &str) -> (r: Option<u16>)
    ensures
        r == u16_of(s@),
{
    match read_bounded(s, 10, u16::MAX as u64) {
        Some(n) => Some(n as u16),
        None => None,
    }
}

/// Reads an unsigned number of thirty-two bits.
pub fn read_u32(s: &str) -> (r: Option<u32>)
    ensures
        r == u32_of(s@),
{
    match read_bounded(s, 10, u32::MAX as u64) {
        Some(n) => Some(n as u32),
        None => None,
    }
}

/// Reads an unsigned number of sixty-four bits.
pub fn read_u64(s: &str) -> (r: Option<u64>)
    ensures
        r == u64_of(s@),
{
    read_bounded(s, 10, u64::MAX)
}

/// Reads a number of sixteen bits with an optional sign.
pub fn read_i16(s: &str) -> (r: Option<i16>)
    ensures
        r == i16_of(s@),
{
    let v = text::to_chars(s);
    if v.len() > 1 && v[0] == '-' {
        match read_digits(&v, 1, 10, 32768) {
            Some(n) => {
                let m: i32 = -(n as i32);
                Some(m as i16)
            },
            None => None,
        }
    } else {
        match read_bounded(s, 10, 32767) {
            Some(n) => Some(n as i16),
            None => None,
        }
    }
}

/// The text behind a `0x` or `0X`, if the text begins with one.
pub open spec fn after_hex_mark(s: text::Text) -> Option<text::Text> {
    if s.len() >= 2 && s[0] == '0' && (s[1] == 'x' || s[1] == 'X') {
        Some(s.skip(2))
    } else {
        None
    }
}

/// A number of at most `max`: hexadecimal behind `0x` or `0X`, else decimal.
pub open spec fn marked(s: text::Text, max: nat) -> Option<nat> {
    match after_hex_mark(s) {
        Some(hex) => bounded(hex, 16, max),
        None => bounded(s, 10, max),
    }
}

/// Reads a number that is hexadecimal behind `0x` or `0X`, else decimal.
pub fn read_marked(s: &str, max: u32) -> (r: Option<u32>)
    ensures
        r == (match marked(s@, max as nat) {
            Some(n) => Some(n as u32),
            None => None,
        }),
{
    let v = text::to_chars(s);
    let n = if v.len() >= 2 && v[0] == '0' && (v[1] == 'x' || v[1] == 'X') {
        let hex = text::from_chars(&v, 2, v.len());
        assert(hex@ =~= s@.skip(2));
        read_bounded(hex.as_str(), 16, max as u64)
    } else {
        read_bounded(s, 10, max as u64)
    };
    match n {
        Some(n) => Some(n as u32),
        None => None,
    }
}

// ---------------------------------------------------------------------------
// Writing

/// The digit of value `d`, below sixteen, in lower case.
pub open spec fn digit_char(d: nat) -> char {
    if d < 10 {
        (48 + d) as char
    } else {
        (87 + d) as char
    }
}

/// A number written in the given radix without leading zeros.
pub open spec fn written(n: nat, radix: nat) -> text::Text
    decreases n,
{
    if radix < 2 || n < radix {
        seq![digit_char(n)]
    } else {
        proof {
            vstd::arithmetic::div_mod::lemma_div_decreases(n as int, radix as int);
        }
        written(n / radix, radix).push(digit_char(n % radix))
    }
}

/// A number written in decimal.
pub open spec fn decimal(n: nat) -> text::Text {
    written(n, 10)
}

/// The digit of value `d`.
fn write_digit(d: u8) -> (c: char)
    requires
        d < 16,
    ensures
        c == digit_char(d as nat),
{
    if d < 10 {
        (48 + d) as char
    } else {
        (87 + d) as char
    }
}

/// Writes a number in decimal.
pub fn to_decimal(n: u64) -> (r: String)
    ensures
        r@ == decimal(n as nat),
    decreases n,
{
    if n < 10 {
        let mut r = String::new();
        r.push(write_digit(n as u8));
        assert(r@ =~= seq![digit_char(n as nat)]);
        r
    } else {
        let mut r = to_decimal(n / 10);
        r.push(write_digit((n % 10) as u8));
        r
    }
}

/// Writes a number in hexadecimal, in lower case.
pub fn to_hex(n: u16) -> (r: String)
    ensures
        r@ == written(n as nat, 16),
    decreases n,
{
    if n < 16 {
        let mut r = String::new();
        r.push(write_digit(n as u8));
        assert(r@ =~= seq![digit_char(n as nat)]);
        r
    } else {
        let mut r = to_hex(n / 16);
        r.push(write_digit((n % 16) as u8));
        r
    }
}

/// Reading back a number written in decimal gives the number.
pub proof fn law_decimal_reads_back(n: nat)
    ensures
        unsigned(decimal(n), 10) == Some(n),
{
    lemma_written(n);
    lemma_written_start(n);
}

/// The digits of a written number are worth the number.
proof fn lemma_written(n: nat)
    ensures
        digits_of(decimal(n), 10) == Some(n),
        decimal(n).len() >= 1,
    decreases n,
{
    if n < 10 {
        let s = decimal(n);
        assert(s.drop_last() =~= Seq::empty());
        assert(digits_of(s.drop_last(), 10) == Some(0nat));
    } else {
        lemma_written(n / 10);
        let s = decimal(n);
        assert(s.drop_last() =~= decimal(n / 10));
    }
}

/// A written number begins with a digit.
proof fn lemma_written_start(n: nat)
    ensures
        decimal(n).len() >= 1,
        decimal(n)[0] != '+',
    decreases n,
{
    if n >= 10 {
        lemma_written_start(n / 10);
    }
}

/// A written number is made of digits.
pub proof fn lemma_decimal_digits(n: nat)
    ensures
        decimal(n).len() >= 1,
        text::all_digits(decimal(n)),
    decreases n,
{
    if n >= 10 {
        lemma_decimal_digits(n / 10);
        assert forall|i: int| 0 <= i < decimal(n).len() implies text::is_digit(
            #[trigger] decimal(n)[i],
        ) by {
            if i < decimal(n / 10).len() {
                assert(decimal(n)[i] == decimal(n / 10)[i]);
            }
        }
    }
}

} // verus!
