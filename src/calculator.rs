//! A calculator of bitwise operations on numbers written in decimal, binary
//! (`0b`) or hexadecimal (`0x`).
use vstd::prelude::*;
use vstd::slice::slice_subrange;
use crate::text::{chars_of, same_chars, string_of, trim, trimmed_of};

verus! {

#[derive(Debug, Clone, Copy, PartialEq, Eq, Structural)]
pub enum BitwiseOperator {
    And,
    Or,
    Xor,
}

/// What `str::to_lowercase` makes of a string.
pub uninterp spec fn lower_of(s: Seq<char>) -> Seq<char>;

/// Relies on `str::to_lowercase`: its result depends on the characters alone.
#[verifier::external_body]
fn lowercase(s: &str) -> (r: String)
    ensures
        r@ == lower_of(s@),
{
    s.to_lowercase()
}

/// The operator that a lower-case name or symbol stands for.
pub open spec fn spec_operator(t: Seq<char>) -> Option<BitwiseOperator> {
    if t == seq!['&'] || t == seq!['a', 'n', 'd'] {
        Some(BitwiseOperator::And)
    } else if t == seq!['|'] || t == seq!['o', 'r'] {
        Some(BitwiseOperator::Or)
    } else if t == seq!['^'] || t == seq!['x', 'o', 'r'] {
        Some(BitwiseOperator::Xor)
    } else {
        None
    }
}

/// The value of an ASCII digit of `radix`: `0`-`9`, then `a`-`z` or `A`-`Z`
/// for ten and up.
pub open spec fn digit_value(c: char, radix: nat) -> Option<nat> {
    let v: int = if '0' <= c <= '9' {
        c as int - '0' as int
    } else if 'a' <= c <= 'z' {
        c as int - 'a' as int + 10
    } else if 'A' <= c <= 'Z' {
        c as int - 'A' as int + 10
    } else {
        radix as int
    };
    if v < radix {
        Some(v as nat)
    } else {
        None
    }
}

/// The number that the digits `d` write in `radix`, if all are digits.
pub open spec fn digits_value(d: Seq<char>, radix: nat) -> Option<nat>
    decreases d.len(),
{
    if d.len() == 0 {
        Some(0)
    } else {
        match (digits_value(d.drop_last(), radix), digit_value(d.last(), radix)) {
            (Some(high), Some(low)) => Some(high * radix + low),
            _ => None,
        }
    }
}

/// The `u64` that `s` writes in `radix`: an optional `+` and at least one
/// digit, with a value that fits.
pub open spec fn spec_from_str_radix(s: Seq<char>, radix: nat) -> Option<u64> {
    let d = if s.len() > 0 && s[0] == '+' {
        s.drop_first()
    } else {
        s
    };
    if d.len() == 0 {
        None
    } else {
        match digits_value(d, radix) {
            Some(v) => if v <= u64::MAX {
                Some(v as u64)
            } else {
                None
            },
            None => None,
        }
    }
}

/// The message of the error that `u64::from_str_radix` gives on a string
/// in a radix.
pub uninterp spec fn radix_error_text(s: Seq<char>, radix: u32) -> Seq<char>;

/// Relies on `u64::from_str_radix`: an optional `+` then only digits of the
/// radix, with a value that fits, gives that value; anything else an error,
/// whose message depends on the string and the radix alone.
#[verifier::external_body]
fn from_str_radix(s: &str, radix: u32) -> (r: Result<u64, String>)
    requires
        2 <= radix <= 36,
    ensures
        match r {
            Ok(n) => spec_from_str_radix(s@, radix as nat) == Some(n),
            Err(e) => spec_from_str_radix(s@, radix as nat) is None && e@ == radix_error_text(
                s@,
                radix,
            ),
        },
{
    u64::from_str_radix(s, radix).map_err(|e| e.to_string())
}

/// The number that an already trimmed string writes: after `0x` in base 16,
/// after `0b` in base 2, else in base 10.
pub open spec fn spec_parse_trimmed(t: Seq<char>) -> Option<u64> {
    if t.len() >= 2 && t[0] == '0' && t[1] == 'x' {
        spec_from_str_radix(t.skip(2), 16)
    } else if t.len() >= 2 && t[0] == '0' && t[1] == 'b' {
        spec_from_str_radix(t.skip(2), 2)
    } else {
        spec_from_str_radix(t, 10)
    }
}

/// The error message for an already trimmed string that writes no number:
/// the one that reading its digits in their radix gives.
pub open spec fn spec_parse_error(t: Seq<char>) -> Seq<char> {
    if t.len() >= 2 && t[0] == '0' && t[1] == 'x' {
        radix_error_text(t.skip(2), 16)
    } else if t.len() >= 2 && t[0] == '0' && t[1] == 'b' {
        radix_error_text(t.skip(2), 2)
    } else {
        radix_error_text(t, 10)
    }
}

/// The number that an already trimmed string writes, or the error message.
pub open spec fn spec_parse_result(t: Seq<char>) -> Result<u64, Seq<char>> {
    match spec_parse_trimmed(t) {
        Some(n) => Ok(n),
        None => Err(spec_parse_error(t)),
    }
}

/// A result with its error message seen as characters.
pub open spec fn result_view(r: Result<u64, String>) -> Result<u64, Seq<char>> {
    match r {
        Ok(n) => Ok(n),
        Err(e) => Err(e@),
    }
}

/// The message for an operator that names no operation.
pub open spec fn invalid_operator_text() -> Seq<char> {
    "Invalid operator"@
}

/// What `calculate` gives: the first number's error, else the second's,
/// else the operator's, else the result of the operation.
pub open spec fn spec_calculate(first: Seq<char>, second: Seq<char>, operation: Seq<char>) -> Result<
    u64,
    Seq<char>,
> {
    match spec_parse_result(trimmed_of(first)) {
        Err(e) => Err(e),
        Ok(a) => match spec_parse_result(trimmed_of(second)) {
            Err(e) => Err(e),
            Ok(b) => match spec_operator(lower_of(operation)) {
                None => Err(invalid_operator_text()),
                Some(op) => Ok(spec_apply(op, a, b)),
            },
        },
    }
}

/// The result of `op` on `a` and `b`.
pub open spec fn spec_apply(op: BitwiseOperator, a: u64, b: u64) -> u64 {
    match op {
        BitwiseOperator::And => a & b,
        BitwiseOperator::Or => a | b,
        BitwiseOperator::Xor => a ^ b,
    }
}

impl BitwiseOperator {
    /// The operator named by `s`, a symbol or an English name in any case.
    pub fn from_str(s: &str) -> (r: Option<Self>)
        ensures
            r == spec_operator(lower_of(s@)),
    {
        let lowered = lowercase(s);
        Self::from_lowered(lowered.as_str())
    }

    /// The operator named by `t`, a symbol or a lower-case English name.
    pub fn from_lowered(t: &str) -> (r: Option<Self>)
        ensures
            r == spec_operator(t@),
    {
        let v = chars_of(t);
        let and_word = ['a', 'n', 'd'];
        let or_word = ['o', 'r'];
        let xor_word = ['x', 'o', 'r'];
        assert(and_word@ == seq!['a', 'n', 'd']);
        assert(or_word@ == seq!['o', 'r']);
        assert(xor_word@ == seq!['x', 'o', 'r']);
        let single = v.len() == 1;
        if single && v[0] == '&' || same_chars(v.as_slice(), and_word.as_slice()) {
            proof {
                if single && v@[0] == '&' {
                    assert(t@ =~= seq!['&']);
                }
            }
            Some(BitwiseOperator::And)
        } else if single && v[0] == '|' || same_chars(v.as_slice(), or_word.as_slice()) {
            proof {
                if single && v@[0] == '|' {
                    assert(t@ =~= seq!['|']);
                }
            }
            Some(BitwiseOperator::Or)
        } else if single && v[0] == '^' || same_chars(v.as_slice(), xor_word.as_slice()) {
            proof {
                if single && v@[0] == '^' {
                    assert(t@ =~= seq!['^']);
                }
            }
            Some(BitwiseOperator::Xor)
        } else {
            proof {
                if single {
                    assert(t@ != seq!['&'] && t@ != seq!['|'] && t@ != seq!['^']) by {
                        if t@ == seq!['&'] {
                            assert(t@[0] == '&');
                        }
                        if t@ == seq!['|'] {
                            assert(t@[0] == '|');
                        }
                        if t@ == seq!['^'] {
                            assert(t@[0] == '^');
                        }
                    }
                }
            }
            None
        }
    }

    /// The result of this operation on `a` and `b`.
    pub fn apply(self, a: u64, b: u64) -> (r: u64)
        ensures
            r == spec_apply(self, a, b),
    {
        match self {
            BitwiseOperator::And => a & b,
            BitwiseOperator::Or => a | b,
            BitwiseOperator::Xor => a ^ b,
        }
    }
}

/// The number that an already trimmed string writes: after `0x` in base 16,
/// after `0b` in base 2, else in base 10; otherwise the error message of
/// reading its digits.
pub fn parse_trimmed(t: &str) -> (r: Result<u64, String>)
    ensures
        result_view(r) == spec_parse_result(t@),
{
    let v = chars_of(t);
    if v.len() >= 2 && v[0] == '0' && (v[1] == 'x' || v[1] == 'b') {
        let radix: u32 = if v[1] == 'x' {
            16
        } else {
            2
        };
        let digits = string_of(slice_subrange(v.as_slice(), 2, v.len()));
        assert(v@.subrange(2, v@.len() as int) == t@.skip(2));
        from_str_radix(digits.as_str(), radix)
    } else {
        from_str_radix(t, 10)
    }
}

/// The number that `s` writes once trimmed of surrounding white space; an
/// error message when it writes none.
pub fn parse_number(s: &str) -> (r: Result<u64, String>)
    ensures
        result_view(r) == spec_parse_result(trimmed_of(s@)),
{
    parse_trimmed(trim(s))
}

/// The result of `operation` on the numbers `first` and `second`, or an error
/// message when either number or the operator cannot be read.
pub fn calculate(first: &str, second: &str, operation: &str) -> (r: Result<u64, String>)
    ensures
        result_view(r) == spec_calculate(first@, second@, operation@),
{
    let num1 = match parse_number(first) {
        Ok(n) => n,
        Err(e) => {
            return Err(e);
        },
    };
    let num2 = match parse_number(second) {
        Ok(n) => n,
        Err(e) => {
            return Err(e);
        },
    };
    match BitwiseOperator::from_str(operation) {
        Some(op) => Ok(op.apply(num1, num2)),
        None => Err("Invalid operator".to_owned()),
    }
}

} // verus!
