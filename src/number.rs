//! Unsigned integers read from text, digit by digit, with the outcomes that
//! `from_str_radix` of the standard library gives.
use vstd::prelude::*;

verus! {

/// Why a text is not a number.
#[derive(Clone, Copy, Debug, PartialEq, Eq, Structural)]
pub enum IntError {
    /// The text is empty.
    Empty,
    /// A character is not a digit of the radix.
    InvalidDigit,
    /// The number does not fit the target type.
    Overflow,
}

/// The message shown for an error.
pub open spec fn int_error_text(e: IntError) -> Seq<char> {
    match e {
        IntError::Empty => "cannot parse integer from empty string"@,
        IntError::InvalidDigit => "invalid digit found in string"@,
        IntError::Overflow => "number too large to fit in target type"@,
    }
}

impl IntError {
    /// The message shown for the error.
    pub fn message(&self) -> (m: &'static str)
        ensures
            m@ == int_error_text(*self),
    {
        match self {
            IntError::Empty => "cannot parse integer from empty string",
            IntError::InvalidDigit => "invalid digit found in string",
            IntError::Overflow => "number too large to fit in target type",
        }
    }
}

/// The value of `c` as a digit in `radix` (letters of either case from 10 on).
pub open spec fn digit_value(c: char, radix: nat) -> Option<nat> {
    let v: int = if '0' <= c <= '9' {
        c as int - '0' as int
    } else if 'a' <= c <= 'z' {
        c as int - 'a' as int + 10
    } else if 'A' <= c <= 'Z' {
        c as int - 'A' as int + 10
    } else {
        36
    };
    if v < radix {
        Some(v as nat)
    } else {
        None
    }
}

/// Reads the digits of `s` from index `i` on, after `acc` was read from those
/// before it: the first character that is no digit, or the first digit after
/// which the value passes `max`, decides the error.
pub open spec fn scan_digits(s: Seq<char>, i: int, acc: nat, radix: nat, max: nat) -> Result<
    nat,
    IntError,
>
    decreases s.len() - i,
{
    if i < 0 || i >= s.len() {
        Ok(acc)
    } else {
        match digit_value(s[i], radix) {
            None => Err(IntError::InvalidDigit),
            Some(d) => if acc * radix + d > max {
                Err(IntError::Overflow)
            } else {
                scan_digits(s, i + 1, acc * radix + d, radix, max)
            },
        }
    }
}

/// The number that `s` writes in `radix`, at most `max`: an optional `+`
/// and then one digit or more.
pub open spec fn spec_parse_uint(s: Seq<char>, radix: nat, max: nat) -> Result<nat, IntError> {
    if s.len() == 0 {
        Err(IntError::Empty)
    } else if s[0] == '+' {
        if s.len() == 1 {
            Err(IntError::InvalidDigit)
        } else {
            scan_digits(s, 1, 0, radix, max)
        }
    } else {
        scan_digits(s, 0, 0, radix, max)
    }
}

proof fn lemma_scan_digits_bounded(s: Seq<char>, i: int, acc: nat, radix: nat, max: nat)
    requires
        acc <= max,
    ensures
        scan_digits(s, i, acc, radix, max) matches Ok(w) ==> w <= max,
    decreases s.len() - i,
{
    if 0 <= i < s.len() {
        if let Some(d) = digit_value(s[i], radix) {
            if acc * radix + d <= max {
                lemma_scan_digits_bounded(s, i + 1, acc * radix + d, radix, max);
            }
        }
    }
}

/// A number read from text is at most the bound it was read with.
pub proof fn lemma_parse_uint_bounded(s: Seq<char>, radix: nat, max: nat)
    ensures
        spec_parse_uint(s, radix, max) matches Ok(w) ==> w <= max,
{
    lemma_scan_digits_bounded(s, 0, 0, radix, max);
    lemma_scan_digits_bounded(s, 1, 0, radix, max);
}

pub fn digit(c: char, radix: u32) -> (r: Option<u32>)
    requires
        2 <= radix <= 36,
    ensures
        r matches Some(d) ==> digit_value(c, radix as nat) == Some(d as nat),
        r is None ==> digit_value(c, radix as nat) is None,
{
    let v: u32 = if '0' <= c && c <= '9' {
        (c as u32) - ('0' as u32)
    } else if 'a' <= c && c <= 'z' {
        (c as u32) - ('a' as u32) + 10
    } else if 'A' <= c && c <= 'Z' {
        (c as u32) - ('A' as u32) + 10
    } else {
        36
    };
    if v < radix {
        Some(v)
    } else {
        None
    }
}

/// Reads an unsigned number of at most `max` written in `radix` from the
/// characters of `s[start..end]`.
pub fn parse_uint(s: &Vec<char>, start: usize, end: usize, radix: u32, max: u64) -> (r: Result<
    u64,
    IntError,
>)
    requires
        start <= end <= s@.len(),
        2 <= radix <= 36,
    ensures
        r == match spec_parse_uint(s@.subrange(start as int, end as int), radix as nat, max as nat) {
            Ok(v) => Ok::<u64, IntError>(v as u64),
            Err(e) => Err::<u64, IntError>(e),
        },
        r matches Ok(v) ==> v <= max,
{
    let ghost t = s@.subrange(start as int, end as int);
    proof {
        lemma_parse_uint_bounded(t, radix as nat, max as nat);
    }
    if start == end {
        return Err(IntError::Empty);
    }
    let mut i = start;
    if s[start] == '+' {
        if end - start == 1 {
            return Err(IntError::InvalidDigit);
        }
        i = start + 1;
    }
    let mut acc: u64 = 0;
    while i < end
        invariant
            start <= i <= end <= s@.len(),
            2 <= radix <= 36,
            t == s@.subrange(start as int, end as int),
            acc <= max,
            spec_parse_uint(t, radix as nat, max as nat) == scan_digits(t, i - start, acc as nat, radix as nat, max as nat),
        decreases end - i,
    {
        let d = match digit(s[i], radix) {
            Some(d) => d,
            None => {
                return Err(IntError::InvalidDigit);
            },
        };
        assert(acc as int * radix as int <= 0xffff_ffff_ffff_ffff * 36) by (nonlinear_arith)
            requires
                acc <= 0xffff_ffff_ffff_ffffu64,
                radix <= 36,
        ;
        let next: u128 = acc as u128 * radix as u128 + d as u128;
        if next > max as u128 {
            return Err(IntError::Overflow);
        }
        acc = next as u64;
        i = i + 1;
    }
    Ok(acc)
}

} // verus!
