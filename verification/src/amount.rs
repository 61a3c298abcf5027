//! Parsing of raw amount fields into fixed-point ten-thousandths.
//!
//! The decimal grammar and the rounding of raw amounts to four fractional
//! digits belong to `rust_decimal`; its result is named by the
//! uninterpreted function `dec4_of` and converted here, with proof, into an
//! `i128` count of ten-thousandths.

use core::str::FromStr;

use vstd::prelude::*;

verus! {

/// Powers of ten.
pub open spec fn pow10(e: int) -> int
    decreases e,
{
    if e <= 0 {
        1
    } else {
        10 * pow10(e - 1)
    }
}

/// What parsing an amount field yields, in ten-thousandths: `None` where
/// `rust_decimal` rejects the text, otherwise the parsed value rounded to
/// four fractional digits, half to even.
pub uninterp spec fn dec4_of(s: Seq<char>) -> Option<int>;

/// Relies on rust_decimal's `Decimal::from_str`, `Decimal::round_dp` (four
/// digits, half to even), `Decimal::mantissa` and `Decimal::scale`: the
/// parsed and rounded amount is `mantissa * 10^(4 - scale)` ten-thousandths,
/// the rounded scale is at most four, and a mantissa always fits in 96 bits.
#[verifier::external_body]
fn parse_decimal_4dp(s: &str) -> (r: Option<(i128, u32)>)
    ensures
        r is Some <==> dec4_of(s@) is Some,
        (match r {
            Some(p) => 0 <= p.1 <= 4 && -0x1000000000000000000000000 < p.0
                < 0x1000000000000000000000000 && dec4_of(s@) == Some(p.0 * pow10(4 - p.1)),
            None => true,
        }),
{
    match rust_decimal::Decimal::from_str(s) {
        Ok(d) => {
            let rounded = d.round_dp(4);
            Some((rounded.mantissa(), rounded.scale()))
        },
        Err(_) => None,
    }
}

/// Parses a non-empty amount field into ten-thousandths; `None` where the
/// text is not a decimal number.
pub fn parse_amount(s: &str) -> (r: Option<i128>)
    ensures
        match r {
            Some(v) => dec4_of(s@) == Some(v as int),
            None => dec4_of(s@) is None,
        },
{
    match parse_decimal_4dp(s) {
        None => None,
        Some((m, sc)) => {
            proof {
                assert(pow10(0) == 1);
                assert(pow10(1) == 10);
                assert(pow10(2) == 100);
                assert(pow10(3) == 1000);
                assert(pow10(4) == 10000);
            }
            let k: u32 = 4 - sc;
            let v: i128 = if k == 0 {
                m
            } else if k == 1 {
                m * 10
            } else if k == 2 {
                m * 100
            } else if k == 3 {
                m * 1000
            } else {
                m * 10000
            };
            Some(v)
        },
    }
}

/// What an amount column cell stands for: an empty cell is an absent amount,
/// a decimal number is its rounded value, anything else spoils the row.
pub open spec fn amount_field_of(s: Seq<char>) -> Option<Option<int>> {
    if s.len() == 0 {
        Some(None)
    } else {
        match dec4_of(s) {
            Some(v) => Some(Some(v)),
            None => None,
        }
    }
}

/// Parses an amount column cell as `amount_field_of` says.
pub fn parse_amount_field(s: &str) -> (r: Option<Option<i128>>)
    ensures
        match r {
            Some(None) => amount_field_of(s@) == Some(Option::<int>::None),
            Some(Some(v)) => amount_field_of(s@) == Some(Some(v as int)),
            None => amount_field_of(s@) is None,
        },
{
    if s.is_empty() {
        Some(None)
    } else {
        match parse_amount(s) {
            Some(v) => Some(Some(v)),
            None => None,
        }
    }
}

} // verus!
