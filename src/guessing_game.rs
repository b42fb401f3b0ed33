//! The decisions of a number guessing game: the secret number, reading a
//! guess, and the hint that a guess earns.
use vstd::prelude::*;
use crate::calculator::digits_value;
use crate::text::{trim, trimmed_of};

verus! {

/// The smallest secret number.
pub const SECRET_LOW: i32 = 1;

/// The largest secret number.
pub const SECRET_HIGH: i32 = 100;

/// What a guess tells about the secret number.
#[derive(Debug, Clone, Copy, PartialEq, Eq, Structural)]
pub enum GuessHint {
    Correct,
    TooLow,
    TooHigh,
}

/// Relies on `rand::Rng::gen_range` over `rand::thread_rng()`: a number of
/// the inclusive range `low..=high`, which must not be empty.
#[verifier::external_body]
fn random_in_range(low: i32, high: i32) -> (r: i32)
    requires
        low <= high,
    ensures
        low <= r <= high,
{
    rand::Rng::gen_range(&mut rand::thread_rng(), low..=high)
}

/// A fresh secret number, drawn at random between the two bounds.
pub fn new_secret_number() -> (r: i32)
    ensures
        SECRET_LOW <= r <= SECRET_HIGH,
{
    random_in_range(SECRET_LOW, SECRET_HIGH)
}

/// The `i32` that `s` writes in decimal: an optional sign and at least one
/// digit, with a value that fits.
pub open spec fn spec_parse_i32(s: Seq<char>) -> Option<i32> {
    if s.len() == 0 {
        None
    } else {
        let negative = s[0] == '-';
        let d = if s[0] == '-' || s[0] == '+' {
            s.drop_first()
        } else {
            s
        };
        if d.len() == 0 {
            None
        } else {
            match digits_value(d, 10) {
                Some(v) => {
                    let x: int = if negative {
                        -v
                    } else {
                        v as int
                    };
                    if i32::MIN <= x <= i32::MAX {
                        Some(x as i32)
                    } else {
                        None
                    }
                },
                None => None,
            }
        }
    }
}

/// Relies on `str::parse::<i32>`: an optional sign then only decimal digits,
/// with a value that fits, gives that value; anything else nothing.
#[verifier::external_body]
fn parse_i32(s: &str) -> (r: Option<i32>)
    ensures
        r == spec_parse_i32(s@),
{
    s.parse::<i32>().ok()
}

/// The guess that a line of input writes once trimmed of surrounding white
/// space, or `None` when it writes no `i32`.
pub fn parse_guess(line: &str) -> (r: Option<i32>)
    ensures
        r == spec_parse_i32(trimmed_of(line@)),
{
    parse_i32(trim(line))
}

/// The hint that `guess` earns against `secret`.
pub open spec fn spec_hint(secret: i32, guess: i32) -> GuessHint {
    if guess == secret {
        GuessHint::Correct
    } else if guess < secret {
        GuessHint::TooLow
    } else {
        GuessHint::TooHigh
    }
}

/// Whether `guess` is the secret number, or below it, or above it.
pub fn judge_guess(secret: i32, guess: i32) -> (r: GuessHint)
    ensures
        r == spec_hint(secret, guess),
{
    if secret == guess {
        GuessHint::Correct
    } else if secret > guess {
        GuessHint::TooLow
    } else {
        GuessHint::TooHigh
    }
}

} // verus!
