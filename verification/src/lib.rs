//! Dice-notation library: parses expressions such as `2d6+5`, validates the
//! parsed request, and evaluates it with ambient or seed-derived entropy.

pub mod error;
pub mod evaluator;
pub mod model;
pub mod parser;
pub mod text;

pub use error::DiceError;
pub use evaluator::evaluate;
pub use evaluator::evaluate_seeded;
pub use evaluator::lemma_evaluate_seeded_deterministic;
pub use evaluator::seeded_result;
pub use model::RollResult;
pub use model::seq_sum;
pub use model::spec_render;
pub use parser::DiceRequest;
pub use parser::dice_result;
pub use parser::str_to_i32;
pub use parser::str_to_i32_or_one;
pub use parser::validate;

use vstd::prelude::*;

verus! {

/// Parses, validates and evaluates an expression with ambient entropy.
///
/// Failures short-circuit: a grammar failure yields `InvalidFormat`, a digit
/// run outside the `i32` range yields `ParseError`, text after the notation
/// yields `InvalidFormat` holding that text, and a request outside the range
/// policy yields its validation error; only then are the dice rolled.
pub fn roll(expression: &str) -> (r: Result<RollResult, DiceError>)
    ensures
        ({
            let s = expression@;
            match r {
                Ok(res) => parser::parse_code(s) == 0 && parser::parsed_remaining(s).len() == 0
                    && parser::validate_code(parser::parsed_request(s)) == 0
                    && res.dice_rolls@.len() == parser::parsed_request(s).quantity && (forall|
                    i: int,
                |
                    0 <= i < res.dice_rolls@.len() ==> 1 <= #[trigger] res.dice_rolls@[i]
                        <= parser::parsed_request(s).sides) && res.modifier
                    == parser::parsed_request(s).modifier && res.total == seq_sum(res.dice_rolls@)
                    + res.modifier,
                Err(e) => match e {
                    DiceError::InvalidFormat(d) => (parser::parse_code(s) == 1 && d@ == s) || (
                    parser::parse_code(s) == 0 && parser::parsed_remaining(s).len() > 0 && d@
                        == parser::parsed_remaining(s)),
                    DiceError::ParseError(d) => parser::parse_code(s) == 2 && d@
                        == parser::offending_run(s),
                    DiceError::InvalidQuantity(v) => parser::parse_code(s) == 0
                        && parser::parsed_remaining(s).len() == 0 && parser::validate_code(
                        parser::parsed_request(s),
                    ) == 1 && v == parser::parsed_request(s).quantity,
                    DiceError::QuantityLimitExceeded(v) => parser::parse_code(s) == 0
                        && parser::parsed_remaining(s).len() == 0 && parser::validate_code(
                        parser::parsed_request(s),
                    ) == 2 && v == parser::parsed_request(s).quantity,
                    DiceError::InvalidDieSize(v) => parser::parse_code(s) == 0
                        && parser::parsed_remaining(s).len() == 0 && parser::validate_code(
                        parser::parsed_request(s),
                    ) == 3 && v == parser::parsed_request(s).sides,
                },
            }
        }),
{
    let (remaining, request) = match dice_result(expression) {
        Ok(p) => p,
        Err(e) => {
            return Err(e);
        },
    };
    if !remaining.as_str().is_empty() {
        return Err(DiceError::InvalidFormat(remaining));
    }
    match validate(&request) {
        Ok(_) => (),
        Err(e) => {
            return Err(e);
        },
    }
    Ok(evaluate(&request))
}

/// Parses, validates and evaluates an expression with entropy derived from
/// the seed alone: the rolls and the total are a function of the expression
/// and the seed.
///
/// Failures short-circuit exactly as in `roll`.
pub fn roll_with_seed(expression: &str, seed: [u8; 32]) -> (r: Result<RollResult, DiceError>)
    ensures
        ({
            let s = expression@;
            match r {
                Ok(res) => parser::parse_code(s) == 0 && parser::parsed_remaining(s).len() == 0
                    && parser::validate_code(parser::parsed_request(s)) == 0 && seeded_result(
                    parser::parsed_request(s),
                    seed@,
                    res,
                ) && res.dice_rolls@.len() == parser::parsed_request(s).quantity && (forall|i: int|
                    0 <= i < res.dice_rolls@.len() ==> 1 <= #[trigger] res.dice_rolls@[i]
                        <= parser::parsed_request(s).sides),
                Err(e) => match e {
                    DiceError::InvalidFormat(d) => (parser::parse_code(s) == 1 && d@ == s) || (
                    parser::parse_code(s) == 0 && parser::parsed_remaining(s).len() > 0 && d@
                        == parser::parsed_remaining(s)),
                    DiceError::ParseError(d) => parser::parse_code(s) == 2 && d@
                        == parser::offending_run(s),
                    DiceError::InvalidQuantity(v) => parser::parse_code(s) == 0
                        && parser::parsed_remaining(s).len() == 0 && parser::validate_code(
                        parser::parsed_request(s),
                    ) == 1 && v == parser::parsed_request(s).quantity,
                    DiceError::QuantityLimitExceeded(v) => parser::parse_code(s) == 0
                        && parser::parsed_remaining(s).len() == 0 && parser::validate_code(
                        parser::parsed_request(s),
                    ) == 2 && v == parser::parsed_request(s).quantity,
                    DiceError::InvalidDieSize(v) => parser::parse_code(s) == 0
                        && parser::parsed_remaining(s).len() == 0 && parser::validate_code(
                        parser::parsed_request(s),
                    ) == 3 && v == parser::parsed_request(s).sides,
                },
            }
        }),
{
    let (remaining, request) = match dice_result(expression) {
        Ok(p) => p,
        Err(e) => {
            return Err(e);
        },
    };
    if !remaining.as_str().is_empty() {
        return Err(DiceError::InvalidFormat(remaining));
    }
    match validate(&request) {
        Ok(_) => (),
        Err(e) => {
            return Err(e);
        },
    }
    Ok(evaluate_seeded(&request, seed))
}

} // verus!
