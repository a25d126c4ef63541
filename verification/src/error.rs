//! Error kinds for parsing, validation and numeric conversion.

use crate::text::{spec_int_chars, push_int};
use vstd::prelude::*;

verus! {

/// What went wrong while turning an expression into a roll.
#[derive(Debug)]
pub enum DiceError {
    /// The expression does not match the dice grammar; holds the offending text.
    InvalidFormat(String),
    /// Parsed quantity below the minimum of one.
    InvalidQuantity(i32),
    /// Parsed die size below the minimum of one.
    InvalidDieSize(i32),
    /// Parsed quantity above the maximum of one thousand.
    QuantityLimitExceeded(i32),
    /// A digit run in the expression does not fit the numeric range; holds the run.
    ParseError(String),
}

/// The user-facing message of each error kind.
pub open spec fn spec_message(e: DiceError) -> Seq<char> {
    match e {
        DiceError::InvalidFormat(d) => "Invalid dice notation format: "@ + d@,
        DiceError::InvalidQuantity(v) => "Invalid quantity: "@ + spec_int_chars(v as int)
            + " (must be 1-1000)"@,
        DiceError::InvalidDieSize(v) => "Invalid die size: d"@ + spec_int_chars(v as int)
            + " (must be positive)"@,
        DiceError::QuantityLimitExceeded(v) => "Quantity limit exceeded: "@ + spec_int_chars(
            v as int,
        ) + " (maximum is 1000)"@,
        DiceError::ParseError(d) => "Parse error: "@ + d@,
    }
}

impl DiceError {
    /// Renders the error as its user-facing message.
    pub fn message(&self) -> (r: String)
        ensures
            r@ == spec_message(*self),
    {
        match self {
            DiceError::InvalidFormat(d) => {
                let mut out = String::from_str("Invalid dice notation format: ");
                out.append(d.as_str());
                out
            },
            DiceError::InvalidQuantity(v) => {
                let mut out = String::from_str("Invalid quantity: ");
                push_int(&mut out, *v as i64);
                out.append(" (must be 1-1000)");
                out
            },
            DiceError::InvalidDieSize(v) => {
                let mut out = String::from_str("Invalid die size: d");
                push_int(&mut out, *v as i64);
                out.append(" (must be positive)");
                out
            },
            DiceError::QuantityLimitExceeded(v) => {
                let mut out = String::from_str("Quantity limit exceeded: ");
                push_int(&mut out, *v as i64);
                out.append(" (maximum is 1000)");
                out
            },
            DiceError::ParseError(d) => {
                let mut out = String::from_str("Parse error: ");
                out.append(d.as_str());
                out
            },
        }
    }
}

} // verus!
