//! Human-readable duration formatting, with thousands separators in the
//! numbers.

use separator::Separatable;
use vstd::prelude::*;
use vstd::string::StringExecFns;

verus! {

/// The character of one decimal digit.
pub open spec fn digit_char(d: int) -> char {
    if d == 0 {
        '0'
    } else if d == 1 {
        '1'
    } else if d == 2 {
        '2'
    } else if d == 3 {
        '3'
    } else if d == 4 {
        '4'
    } else if d == 5 {
        '5'
    } else if d == 6 {
        '6'
    } else if d == 7 {
        '7'
    } else if d == 8 {
        '8'
    } else {
        '9'
    }
}

/// The decimal digits of `n`, most significant first.
pub open spec fn dec_digits(n: int) -> Seq<char>
    recommends
        n >= 0,
    decreases n,
{
    if n < 10 {
        seq![digit_char(n)]
    } else {
        dec_digits(n / 10).push(digit_char(n % 10))
    }
}

/// Digits grouped in threes from the right, the groups joined by
/// commas.
pub open spec fn grouped(digits: Seq<char>) -> Seq<char>
    decreases digits.len(),
{
    if digits.len() <= 3 {
        digits
    } else {
        grouped(digits.take(digits.len() - 3)) + seq![','] + digits.skip(digits.len() - 3)
    }
}

/// A number written with thousands separators.
pub open spec fn separated(n: int) -> Seq<char> {
    grouped(dec_digits(n))
}

/// Relies on separator's `Separatable::separated_string` for `u64`: the
/// decimal digits of the number, grouped in threes from the right with
/// commas.
#[verifier::external_body]
fn separated_string_u64(n: u64) -> (r: String)
    ensures
        r@ == separated(n as int),
{
    n.separated_string()
}

/// A duration of `millis` milliseconds, spelt out: the whole seconds —
/// omitted at zero, singular at one — followed by the leftover
/// milliseconds, both with thousands separators.
pub open spec fn spec_format_duration(millis: int) -> Seq<char> {
    let secs = millis / 1000;
    let sub = millis % 1000;
    if secs == 0 {
        separated(sub) + " millis"@
    } else if secs == 1 {
        "1 second "@ + separated(sub) + " millis"@
    } else {
        separated(secs) + " seconds "@ + separated(sub) + " millis"@
    }
}

/// Format a duration given in milliseconds.
pub fn format_duration(millis: u64) -> (r: String)
    ensures
        r@ == spec_format_duration(millis as int),
{
    let secs = millis / 1000;
    let sub = millis % 1000;
    if secs == 0 {
        let mut s = separated_string_u64(sub);
        s.append(" millis");
        s
    } else if secs == 1 {
        let mut s = String::from_str("1 second ");
        let sub_str = separated_string_u64(sub);
        s.append(sub_str.as_str());
        s.append(" millis");
        s
    } else {
        let mut s = separated_string_u64(secs);
        s.append(" seconds ");
        let sub_str = separated_string_u64(sub);
        s.append(sub_str.as_str());
        s.append(" millis");
        s
    }
}

} // verus!
