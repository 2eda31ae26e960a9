//! Numbers as text, as the names of rules show them.

use num_format::{Locale, ToFormattedString};
use vstd::prelude::*;

verus! {

/// The character of a decimal digit.
pub open spec fn digit(d: int) -> char {
    if d == 0 {
        '0'
    } else if d == 1 {
        '1'
    } else if d == 2 {
        '2'
    } else if d == 3 {
        '3'
    } else if d == 4 {
        '4'
    } else if d == 5 {
        '5'
    } else if d == 6 {
        '6'
    } else if d == 7 {
        '7'
    } else if d == 8 {
        '8'
    } else {
        '9'
    }
}

/// A number in decimal digits, without leading zeros.
pub open spec fn decimal(n: nat) -> Seq<char>
    decreases n,
{
    if n < 10 {
        seq![digit(n as int)]
    } else {
        decimal(n / 10).push(digit((n % 10) as int))
    }
}

/// A number in decimal digits with a comma before every group of three
/// digits but the first.
pub open spec fn grouped(n: nat) -> Seq<char>
    decreases n,
{
    if n < 1000 {
        decimal(n)
    } else {
        grouped(n / 1000) + seq![
            ',',
            digit((n % 1000 / 100) as int),
            digit((n % 100 / 10) as int),
            digit((n % 10) as int),
        ]
    }
}

/// `u32::to_string`: the number in decimal digits.
#[verifier::external_body]
pub(crate) fn decimal_string(n: u32) -> (text: String)
    ensures
        text@ == decimal(n as nat),
{
    n.to_string()
}

/// `ToFormattedString::to_formatted_string` with `Locale::en`: the number
/// in decimal digits, in groups of three from the right with commas
/// between them.
#[verifier::external_body]
pub(crate) fn grouped_string(n: u32) -> (text: String)
    ensures
        text@ == grouped(n as nat),
{
    n.to_formatted_string(&Locale::en)
}

} // verus!
