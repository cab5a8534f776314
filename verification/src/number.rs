//! Numbers as the report prints them: decimal digits in groups of three.

use num_format::{Locale, ToFormattedString};
use vstd::prelude::*;

verus! {

/// The character of one decimal digit.
pub open spec fn digit(d: nat) -> char
    recommends
        d < 10,
{
    seq!['0', '1', '2', '3', '4', '5', '6', '7', '8', '9'][d as int]
}

/// A number below one thousand in decimal digits, without leading zeros.
pub open spec fn leading_group(n: nat) -> Seq<char>
    recommends
        n < 1000,
{
    if n < 10 {
        seq![digit(n)]
    } else if n < 100 {
        seq![digit(n / 10), digit(n % 10)]
    } else {
        seq![digit(n / 100), digit(n / 10 % 10), digit(n % 10)]
    }
}

/// A number below one thousand in exactly three decimal digits.
pub open spec fn full_group(n: nat) -> Seq<char>
    recommends
        n < 1000,
{
    seq![digit(n / 100), digit(n / 10 % 10), digit(n % 10)]
}

/// A number in decimal digits, with a comma before every group of three
/// digits but the first: `1234567` is written `1,234,567`.
pub open spec fn grouped_decimal(n: nat) -> Seq<char>
    decreases n,
{
    if n < 1000 {
        leading_group(n)
    } else {
        grouped_decimal(n / 1000) + seq![','] + full_group(n % 1000)
    }
}

/// Writes a number with thousands separators.
///
/// Trusted: this calls `ToFormattedString::to_formatted_string` of the
/// crate num_format with `Locale::en`, whose grouping is the standard one
/// (groups of three digits) and whose separator is the comma. The contract
/// claims that the string returned is the decimal form of `n` grouped in
/// that way.
#[verifier::external_body]
pub(crate) fn format_grouped(n: usize) -> (text: String)
    ensures
        text@ == grouped_decimal(n as nat),
{
    n.to_formatted_string(&Locale::en)
}

} // verus!
