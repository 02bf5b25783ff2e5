//! Decimal and hexadecimal text for unsigned integers: formatting as `{}` and
//! `{:x}` do, and parsing as `str::parse` does for unsigned types.
use vstd::prelude::*;

use crate::text::chars_of;

verus! {

/// The character of decimal digit `d`.
pub open spec fn digit_char(d: nat) -> char {
    if d == 0 {
        '0'
    } else if d == 1 {
        '1'
    } else if d == 2 {
        '2'
    } else if d == 3 {
        '3'
    } else if d == 4 {
        '4'
    } else if d == 5 {
        '5'
    } else if d == 6 {
        '6'
    } else if d == 7 {
        '7'
    } else if d == 8 {
        '8'
    } else {
        '9'
    }
}

pub open spec fn is_digit(c: char) -> bool {
    48 <= (c as u32) && (c as u32) <= 57
}

pub open spec fn digit_val(c: char) -> nat {
    ((c as u32) - 48) as nat
}

/// Decimal text of `n`, without leading zeros (`format!("{}", n)`).
pub open spec fn dec(n: nat) -> Seq<char>
    decreases n,
{
    if n < 10 {
        seq![digit_char(n)]
    } else {
        dec(n / 10).push(digit_char(n % 10))
    }
}

/// Why a text is not an unsigned integer (the kinds `ParseIntError` reports).
#[derive(Debug, Clone, Copy, PartialEq, Eq, Structural)]
pub enum IntErrorKind {
    Empty,
    InvalidDigit,
    PosOverflow,
}

/// Left-to-right scan of decimal digits with upper bound `max`: the first
/// non-digit, or the first digit that takes the value above `max`, decides
/// the error.
pub open spec fn dec_scan(s: Seq<char>, max: nat) -> Result<nat, IntErrorKind>
    decreases s.len(),
{
    if s.len() == 0 {
        Ok(0)
    } else {
        match dec_scan(s.drop_last(), max) {
            Err(e) => Err(e),
            Ok(v) => if !is_digit(s.last()) {
                Err(IntErrorKind::InvalidDigit)
            } else if v * 10 + digit_val(s.last()) > max {
                Err(IntErrorKind::PosOverflow)
            } else {
                Ok(v * 10 + digit_val(s.last()))
            },
        }
    }
}

/// `str::parse` for an unsigned integer type whose largest value is `max`:
/// an optional leading `+`, then decimal digits.
pub open spec fn parse_uint(s: Seq<char>, max: nat) -> Result<nat, IntErrorKind> {
    if s.len() == 0 {
        Err(IntErrorKind::Empty)
    } else if s.len() == 1 && (s[0] == '+' || s[0] == '-') {
        Err(IntErrorKind::InvalidDigit)
    } else if s[0] == '+' {
        dec_scan(s.drop_first(), max)
    } else {
        dec_scan(s, max)
    }
}

/// The text that `ParseIntError` displays for each kind.
pub open spec fn int_error_text(e: IntErrorKind) -> Seq<char> {
    match e {
        IntErrorKind::Empty => "cannot parse integer from empty string"@,
        IntErrorKind::InvalidDigit => "invalid digit found in string"@,
        IntErrorKind::PosOverflow => "number too large to fit in target type"@,
    }
}

/// Lower-case hexadecimal digit of `d < 16`.
pub open spec fn hex_char(d: nat) -> char {
    if d < 10 {
        (d + 48) as char
    } else {
        (d + 87) as char
    }
}

/// Two lower-case hexadecimal digits per byte (`{:x}` of a digest).
pub open spec fn hex(bytes: Seq<u8>) -> Seq<char>
    decreases bytes.len(),
{
    if bytes.len() == 0 {
        Seq::empty()
    } else {
        hex(bytes.drop_last()) + seq![
            hex_char((bytes.last() / 16) as nat),
            hex_char((bytes.last() % 16) as nat),
        ]
    }
}

// ---------------------------------------------------------------------------

pub proof fn lemma_digit_char(d: nat)
    requires
        d < 10,
    ensures
        is_digit(digit_char(d)),
        digit_val(digit_char(d)) == d,
{
    assert('0' as u32 == 48);
    assert('9' as u32 == 57);
}

pub proof fn lemma_dec_digits(n: nat)
    ensures
        dec(n).len() > 0,
        forall|i: int| 0 <= i < dec(n).len() ==> is_digit(#[trigger] dec(n)[i]),
    decreases n,
{
    if n >= 10 {
        lemma_dec_digits(n / 10);
        lemma_digit_char(n % 10);
    } else {
        lemma_digit_char(n);
    }
}

/// Scanning the decimal text of `n <= max` gives `n` back.
pub proof fn lemma_dec_scan_dec(n: nat, max: nat)
    requires
        n <= max,
    ensures
        dec_scan(dec(n), max) == Ok::<nat, IntErrorKind>(n),
    decreases n,
{
    if n < 10 {
        let s = dec(n);
        lemma_digit_char(n);
        assert(s.drop_last() =~= Seq::<char>::empty());
        assert(dec_scan(s.drop_last(), max) == Ok::<nat, IntErrorKind>(0));
    } else {
        lemma_dec_scan_dec(n / 10, max);
        lemma_digit_char(n % 10);
        let s = dec(n);
        assert(s.drop_last() == dec(n / 10));
        assert(s.last() == digit_char(n % 10));
        assert((n / 10) * 10 + n % 10 == n);
    }
}

/// Parsing the decimal text of `n <= max` gives `n` back.
pub proof fn lemma_parse_dec(n: nat, max: nat)
    requires
        n <= max,
    ensures
        parse_uint(dec(n), max) == Ok::<nat, IntErrorKind>(n),
{
    lemma_dec_digits(n);
    lemma_dec_scan_dec(n, max);
    assert(is_digit(dec(n)[0]));
}

// ---------------------------------------------------------------------------

/// Decimal text of `n` (`n.to_string()`).
pub fn dec_of(n: u64) -> (r: Vec<char>)
    ensures
        r@ == dec(n as nat),
    decreases n,
{
    if n < 10 {
        let c = ((n as u8) + 48) as char;
        vec![c]
    } else {
        let mut r = dec_of(n / 10);
        let d = ((n % 10) as u8 + 48) as char;
        r.push(d);
        r
    }
}

/// `str::parse` into an unsigned integer type whose largest value is `max`.
pub fn parse_unsigned(s: &[char], max: u64) -> (r: Result<u64, IntErrorKind>)
    requires
        max >= 9,
    ensures
        r matches Ok(v) ==> parse_uint(s@, max as nat) == Ok::<nat, IntErrorKind>(v as nat),
        r matches Err(e) ==> parse_uint(s@, max as nat) == Err::<nat, IntErrorKind>(e),
{
    if s.len() == 0 {
        return Err(IntErrorKind::Empty);
    }
    if s.len() == 1 && (s[0] == '+' || s[0] == '-') {
        return Err(IntErrorKind::InvalidDigit);
    }
    let start: usize = if s[0] == '+' {
        1
    } else {
        0
    };
    let ghost digits = s@.skip(start as int);
    assert(s[0] == '+' ==> digits == s@.drop_first());
    assert(s[0] != '+' ==> digits == s@);
    let mut acc: u64 = 0;
    let mut i: usize = start;
    while i < s.len()
        invariant
            start <= i <= s.len(),
            max >= 9,
            digits == s@.skip(start as int),
            parse_uint(s@, max as nat) == dec_scan(digits, max as nat),
            acc <= max,
            dec_scan(s@.subrange(start as int, i as int), max as nat) == Ok::<nat, IntErrorKind>(
                acc as nat,
            ),
        decreases s.len() - i,
    {
        let c = s[i];
        let ghost pre = s@.subrange(start as int, i as int);
        let ghost next = s@.subrange(start as int, i + 1);
        assert(next.drop_last() == pre);
        assert(next.last() == c);
        let u = c as u32;
        if u < 48 || u > 57 {
            proof {
                assert(dec_scan(next, max as nat) == Err::<nat, IntErrorKind>(
                    IntErrorKind::InvalidDigit,
                ));
                assert(s@.skip(start as int).take(i + 1 - start) == next);
                lemma_dec_scan_err_extends(s@.skip(start as int), (i - start) as int, max as nat);
            }
            return Err(IntErrorKind::InvalidDigit);
        }
        let d = (u - 48) as u64;
        if acc > (max - d) / 10 {
            assert(acc * 10 + d > max) by (nonlinear_arith)
                requires
                    acc > (max - d) / 10,
                    d <= 9,
                    max >= 9,
            ;
            proof {
                assert(dec_scan(next, max as nat) == Err::<nat, IntErrorKind>(
                    IntErrorKind::PosOverflow,
                ));
                assert(s@.skip(start as int).take(i + 1 - start) == next);
                lemma_dec_scan_err_extends(s@.skip(start as int), (i - start) as int, max as nat);
            }
            return Err(IntErrorKind::PosOverflow);
        }
        assert(acc * 10 + d <= max) by (nonlinear_arith)
            requires
                acc <= (max - d) / 10,
                d <= 9,
                max >= 9,
        ;
        acc = acc * 10 + d;
        i = i + 1;
    }
    assert(s@.subrange(start as int, s.len() as int) == digits);
    Ok(acc)
}

/// An error in the scan of a prefix is the error of the whole scan.
pub proof fn lemma_dec_scan_err_extends(s: Seq<char>, k: int, max: nat)
    requires
        0 <= k < s.len(),
        dec_scan(s.take(k + 1), max) is Err,
    ensures
        dec_scan(s, max) == dec_scan(s.take(k + 1), max),
    decreases s.len(),
{
    if k + 1 < s.len() {
        assert(s.drop_last().take(k + 1) == s.take(k + 1));
        lemma_dec_scan_err_extends(s.drop_last(), k, max);
    } else {
        assert(s.take(k + 1) == s);
    }
}

/// The display text of a parse error kind.
pub fn int_error_message(e: IntErrorKind) -> (r: Vec<char>)
    ensures
        r@ == int_error_text(e),
{
    match e {
        IntErrorKind::Empty => chars_of("cannot parse integer from empty string"),
        IntErrorKind::InvalidDigit => chars_of("invalid digit found in string"),
        IntErrorKind::PosOverflow => chars_of("number too large to fit in target type"),
    }
}

/// Lower-case hexadecimal text of `bytes`.
pub fn hex_of(bytes: &[u8]) -> (r: Vec<char>)
    ensures
        r@ == hex(bytes@),
{
    let mut r: Vec<char> = Vec::new();
    let mut i: usize = 0;
    while i < bytes.len()
        invariant
            i <= bytes.len(),
            r@ == hex(bytes@.take(i as int)),
        decreases bytes.len() - i,
    {
        let b = bytes[i];
        let hi = b / 16;
        let lo = b % 16;
        let ch = if hi < 10 {
            (hi + 48) as char
        } else {
            (hi + 87) as char
        };
        let cl = if lo < 10 {
            (lo + 48) as char
        } else {
            (lo + 87) as char
        };
        assert(bytes@.take(i + 1).drop_last() == bytes@.take(i as int));
        r.push(ch);
        r.push(cl);
        i = i + 1;
    }
    assert(bytes@.take(bytes.len() as int) == bytes@);
    r
}

} // verus!
