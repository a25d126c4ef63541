//! The notation parser: `<quantity>? ('d'|'D') <sides> <modifier>?`, with
//! whitespace tolerated around the whole expression and before the modifier
//! sign.  Parsing is purely syntactic; range policy lives in `validate`.

use crate::error::DiceError;
use crate::text::{digit_value, digits_val, is_digit, is_digit_char, is_ws, is_ws_char};
use vstd::prelude::*;

verus! {

/// A parsed, not yet validated, dice request.
#[derive(Debug, Clone, Copy)]
pub struct DiceRequest {
    pub quantity: i32,
    pub sides: i32,
    pub modifier: i32,
}

/// First index at or after `i` whose character is not whitespace.
pub open spec fn skip_ws(s: Seq<char>, i: int) -> int
    decreases s.len() - i,
{
    if 0 <= i < s.len() && is_ws_char(s[i]) {
        skip_ws(s, i + 1)
    } else {
        i
    }
}

/// First index at or after `i` whose character is not a decimal digit.
pub open spec fn skip_digits(s: Seq<char>, i: int) -> int
    decreases s.len() - i,
{
    if 0 <= i < s.len() && is_digit_char(s[i]) {
        skip_digits(s, i + 1)
    } else {
        i
    }
}

/// Everything between `i` and `skip_digits(s, i)` is a digit, and the stop
/// index is the first that is not.
pub proof fn lemma_skip_digits(s: Seq<char>, i: int)
    requires
        0 <= i <= s.len(),
    ensures
        i <= skip_digits(s, i) <= s.len(),
        forall|j: int| i <= j < skip_digits(s, i) ==> is_digit_char(s[j]),
        skip_digits(s, i) < s.len() ==> !is_digit_char(s[skip_digits(s, i)]),
    decreases s.len() - i,
{
    if i < s.len() && is_digit_char(s[i]) {
        lemma_skip_digits(s, i + 1);
    }
}

/// Index where the quantity digits begin, after leading whitespace.
pub open spec fn q_start(s: Seq<char>) -> int {
    skip_ws(s, 0)
}

/// Index one past the quantity digits.
pub open spec fn q_end(s: Seq<char>) -> int {
    skip_digits(s, q_start(s))
}

/// Whether the die marker `d` or `D` stands where the quantity digits end.
pub open spec fn has_marker(s: Seq<char>) -> bool {
    q_end(s) < s.len() && (s[q_end(s)] == 'd' || s[q_end(s)] == 'D')
}

/// Index where the sides digits begin, after the die marker.
pub open spec fn sides_start(s: Seq<char>) -> int {
    q_end(s) + 1
}

/// Index one past the sides digits.
pub open spec fn sides_end(s: Seq<char>) -> int {
    skip_digits(s, sides_start(s))
}

/// Whether at least one sides digit is present.
pub open spec fn has_sides(s: Seq<char>) -> bool {
    sides_end(s) > sides_start(s)
}

/// Index of the modifier sign, after whitespace following the sides.
pub open spec fn sign_pos(s: Seq<char>) -> int {
    skip_ws(s, sides_end(s))
}

/// Whether a `+` or `-` stands at the sign position.
pub open spec fn has_sign(s: Seq<char>) -> bool {
    sign_pos(s) < s.len() && (s[sign_pos(s)] == '+' || s[sign_pos(s)] == '-')
}

/// Index one past the modifier digits.
pub open spec fn mod_end(s: Seq<char>) -> int {
    skip_digits(s, sign_pos(s) + 1)
}

/// Whether at least one digit follows the modifier sign.
pub open spec fn has_mod_digits(s: Seq<char>) -> bool {
    mod_end(s) > sign_pos(s) + 1
}

/// Index where the unconsumed remainder of the expression begins.
pub open spec fn rem_start(s: Seq<char>) -> int {
    if has_sign(s) {
        skip_ws(s, mod_end(s))
    } else {
        sign_pos(s)
    }
}

/// The quantity digit run, possibly empty.
pub open spec fn quantity_digits(s: Seq<char>) -> Seq<char> {
    s.subrange(q_start(s), q_end(s))
}

/// The sides digit run.
pub open spec fn sides_digits(s: Seq<char>) -> Seq<char> {
    s.subrange(sides_start(s), sides_end(s))
}

/// The modifier run, sign included.
pub open spec fn modifier_run(s: Seq<char>) -> Seq<char> {
    s.subrange(sign_pos(s), mod_end(s))
}

/// The quantity: one when its digits are absent.
pub open spec fn quantity_value(s: Seq<char>) -> nat {
    if q_end(s) == q_start(s) {
        1
    } else {
        digits_val(quantity_digits(s))
    }
}

/// The number of sides, as the digits read.
pub open spec fn sides_value(s: Seq<char>) -> nat {
    digits_val(sides_digits(s))
}

/// The magnitude of the modifier digits.
pub open spec fn modifier_mag(s: Seq<char>) -> nat {
    digits_val(s.subrange(sign_pos(s) + 1, mod_end(s)))
}

/// The signed modifier: zero when absent.
pub open spec fn modifier_value(s: Seq<char>) -> int {
    if !has_sign(s) {
        0
    } else if s[sign_pos(s)] == '-' {
        -(modifier_mag(s) as int)
    } else {
        modifier_mag(s) as int
    }
}

/// Outcome of the grammar on `s`: 0 parses, 1 fails the grammar, 2 holds a
/// digit run outside the `i32` range.  The checks happen in the order the
/// parser walks the text: quantity, die marker, sides, modifier.
pub open spec fn parse_code(s: Seq<char>) -> int {
    if q_end(s) > q_start(s) && digits_val(quantity_digits(s)) > i32::MAX {
        2
    } else if !has_marker(s) {
        1
    } else if !has_sides(s) {
        1
    } else if sides_value(s) > i32::MAX {
        2
    } else if has_sign(s) && !has_mod_digits(s) {
        1
    } else if has_sign(s) && (if s[sign_pos(s)] == '-' {
        modifier_mag(s) > 0x8000_0000
    } else {
        modifier_mag(s) > i32::MAX
    }) {
        2
    } else {
        0
    }
}

/// The digit run that failed numeric conversion, when `parse_code` is 2.
pub open spec fn offending_run(s: Seq<char>) -> Seq<char> {
    if q_end(s) > q_start(s) && digits_val(quantity_digits(s)) > i32::MAX {
        quantity_digits(s)
    } else if sides_value(s) > i32::MAX {
        sides_digits(s)
    } else {
        modifier_run(s)
    }
}

/// The request that a successful parse yields.
pub open spec fn parsed_request(s: Seq<char>) -> DiceRequest {
    DiceRequest {
        quantity: quantity_value(s) as i32,
        sides: sides_value(s) as i32,
        modifier: modifier_value(s) as i32,
    }
}

/// The unconsumed remainder that a successful parse yields.
pub open spec fn parsed_remaining(s: Seq<char>) -> Seq<char> {
    s.subrange(rem_start(s), s.len() as int)
}

/// Whether every character of `s` is a decimal digit.
pub open spec fn all_digits(s: Seq<char>) -> bool {
    forall|i: int| 0 <= i < s.len() ==> is_digit_char(s[i])
}

/// Value of a decimal string with an optional sign, by the rules of `i32`
/// parsing: `None` on an empty digit run, a stray character, or overflow.
pub open spec fn spec_str_to_i32(s: Seq<char>) -> Option<i32> {
    let neg = s.len() > 0 && s[0] == '-';
    let mag = if s.len() > 0 && (s[0] == '+' || s[0] == '-') {
        s.subrange(1, s.len() as int)
    } else {
        s
    };
    if mag.len() == 0 || !all_digits(mag) {
        None
    } else if neg {
        if digits_val(mag) <= 0x8000_0000 {
            Some((-(digits_val(mag) as int)) as i32)
        } else {
            None
        }
    } else {
        if digits_val(mag) <= i32::MAX {
            Some(digits_val(mag) as i32)
        } else {
            None
        }
    }
}

/// As `spec_str_to_i32`, except that the empty string reads as one, the
/// default quantity.
pub open spec fn spec_str_to_i32_or_one(s: Seq<char>) -> Option<i32> {
    if s.len() == 0 {
        Some(1)
    } else {
        spec_str_to_i32(s)
    }
}

/// A longer digit prefix never has a smaller value.
pub proof fn lemma_digits_val_mono(s: Seq<char>, i: int, j: int)
    requires
        0 <= i <= j <= s.len(),
    ensures
        digits_val(s.subrange(0, i)) <= digits_val(s.subrange(0, j)),
    decreases j - i,
{
    if i < j {
        lemma_digits_val_mono(s, i, j - 1);
        let a = s.subrange(0, j - 1);
        let b = s.subrange(0, j);
        assert(b.drop_last() =~= a);
        assert(digits_val(b) == digits_val(a) * 10 + crate::text::digit_val(b.last()));
    }
}

/// Index of the first non-whitespace character at or after `from`.
fn scan_ws(s: &str, from: usize) -> (r: usize)
    requires
        from <= s@.len(),
    ensures
        r == skip_ws(s@, from as int),
        from <= r <= s@.len(),
{
    let n = s.unicode_len();
    let mut i: usize = from;
    while i < n
        invariant
            from <= i <= n,
            n == s@.len(),
            skip_ws(s@, from as int) == skip_ws(s@, i as int),
        ensures
            from <= i <= n,
            n == s@.len(),
            skip_ws(s@, from as int) == skip_ws(s@, i as int),
            i == n || !is_ws_char(s@[i as int]),
        decreases n - i,
    {
        let c = s.get_char(i);
        if !is_ws(c) {
            break ;
        }
        proof {
            assert(skip_ws(s@, i as int) == skip_ws(s@, i as int + 1));
        }
        i += 1;
    }
    proof {
        assert(skip_ws(s@, i as int) == i);
    }
    i
}

/// Index of the first non-digit character at or after `from`.
fn scan_digits(s: &str, from: usize) -> (r: usize)
    requires
        from <= s@.len(),
    ensures
        r == skip_digits(s@, from as int),
        from <= r <= s@.len(),
{
    let n = s.unicode_len();
    let mut i: usize = from;
    while i < n
        invariant
            from <= i <= n,
            n == s@.len(),
            skip_digits(s@, from as int) == skip_digits(s@, i as int),
        ensures
            from <= i <= n,
            n == s@.len(),
            skip_digits(s@, from as int) == skip_digits(s@, i as int),
            i == n || !is_digit_char(s@[i as int]),
        decreases n - i,
    {
        let c = s.get_char(i);
        if !is_digit(c) {
            break ;
        }
        proof {
            assert(skip_digits(s@, i as int) == skip_digits(s@, i as int + 1));
        }
        i += 1;
    }
    proof {
        assert(skip_digits(s@, i as int) == i);
    }
    i
}

/// Reads `s` as a signed decimal `i32`, as the quantity, sides and modifier
/// fields require; the error holds the string that failed.
pub fn str_to_i32(s: &str) -> (r: Result<i32, DiceError>)
    ensures
        match r {
            Ok(v) => spec_str_to_i32(s@) == Some(v),
            Err(e) => spec_str_to_i32(s@) is None && (e matches DiceError::ParseError(d) && d@
                == s@),
        },
{
    let ghost sv = s@;
    let n = s.unicode_len();
    let mut i: usize = 0;
    let mut neg = false;
    if n > 0 {
        let c0 = s.get_char(0);
        if c0 == '+' {
            i = 1;
        } else if c0 == '-' {
            neg = true;
            i = 1;
        }
    }
    let ghost mag = if sv.len() > 0 && (sv[0] == '+' || sv[0] == '-') {
        sv.subrange(1, sv.len() as int)
    } else {
        sv
    };
    proof {
        assert(mag =~= sv.subrange(i as int, n as int));
    }
    if i >= n {
        return Err(DiceError::ParseError(s.to_owned()));
    }
    let mut acc: u64 = 0;
    let mut j: usize = i;
    while j < n
        invariant
            i <= j <= n,
            i < n,
            n == sv.len(),
            sv == s@,
            mag =~= sv.subrange(i as int, n as int),
            mag == (if sv.len() > 0 && (sv[0] == '+' || sv[0] == '-') {
                sv.subrange(1, sv.len() as int)
            } else {
                sv
            }),
            neg == (sv.len() > 0 && sv[0] == '-'),
            acc == digits_val(sv.subrange(i as int, j as int)),
            acc <= 0x8000_0000,
            forall|k: int| i <= k < j ==> is_digit_char(sv[k]),
        decreases n - j,
    {
        let c = s.get_char(j);
        proof {
            let pre = sv.subrange(i as int, j as int);
            let post = sv.subrange(i as int, j as int + 1);
            assert(post.drop_last() =~= pre);
            assert(post.last() == sv[j as int]);
        }
        if !is_digit(c) {
            proof {
                assert(mag[j - i] == sv[j as int]);
                assert(!all_digits(mag));
            }
            return Err(DiceError::ParseError(s.to_owned()));
        }
        let d = digit_value(c);
        let next: u64 = acc * 10 + d;
        if next > 0x8000_0000 {
            proof {
                if all_digits(mag) {
                    lemma_digits_val_mono(mag, j + 1 - i, mag.len() as int);
                    assert(mag.subrange(0, j + 1 - i) =~= sv.subrange(i as int, j as int + 1));
                    assert(mag.subrange(0, mag.len() as int) =~= mag);
                }
            }
            return Err(DiceError::ParseError(s.to_owned()));
        }
        acc = next;
        j += 1;
    }
    proof {
        assert(sv.subrange(i as int, n as int) =~= mag);
        assert(acc == digits_val(mag));
        assert forall|k: int| 0 <= k < mag.len() implies is_digit_char(mag[k]) by {
            assert(mag[k] == sv[k + i]);
        }
        assert(all_digits(mag));
    }
    if neg {
        let v: i64 = -(acc as i64);
        Ok(v as i32)
    } else {
        if acc > 0x7fff_ffff {
            return Err(DiceError::ParseError(s.to_owned()));
        }
        Ok(acc as i32)
    }
}

/// Reads a quantity digit run: the empty run means the default quantity of
/// one.
pub fn str_to_i32_or_one(s: &str) -> (r: Result<i32, DiceError>)
    ensures
        match r {
            Ok(v) => spec_str_to_i32_or_one(s@) == Some(v),
            Err(e) => spec_str_to_i32_or_one(s@) is None && (e matches DiceError::ParseError(d)
                && d@ == s@),
        },
{
    if s.is_empty() {
        Ok(1)
    } else {
        str_to_i32(s)
    }
}

/// A subrange of digit characters is all digits.
proof fn lemma_run_all_digits(s: Seq<char>, a: int, b: int)
    requires
        0 <= a <= b <= s.len(),
        forall|j: int| a <= j < b ==> is_digit_char(s[j]),
    ensures
        all_digits(s.subrange(a, b)),
{
    assert forall|k: int| 0 <= k < s.subrange(a, b).len() implies is_digit_char(
        s.subrange(a, b)[k],
    ) by {
        assert(s.subrange(a, b)[k] == s[a + k]);
    }
}

/// On a non-empty pure digit run, signed parsing reduces to the run's value.
proof fn lemma_str_to_i32_digit_run(run: Seq<char>)
    requires
        run.len() > 0,
        all_digits(run),
    ensures
        spec_str_to_i32(run) == (if digits_val(run) <= i32::MAX {
            Some(digits_val(run) as i32)
        } else {
            None
        }),
{
    assert(is_digit_char(run[0]));
    assert(run[0] != '+' && run[0] != '-');
}

/// Parses an expression into a request and the unconsumed remainder.
///
/// A grammar failure yields `InvalidFormat` holding the whole expression; a
/// digit run that does not fit an `i32` yields `ParseError` holding that run.
/// The remainder holds whatever follows the recognized notation; `roll` and
/// `roll_with_seed` reject a non-empty remainder.
pub fn dice_result(expression: &str) -> (r: Result<(String, DiceRequest), DiceError>)
    ensures
        match r {
            Ok(p) => parse_code(expression@) == 0 && p.0@ == parsed_remaining(expression@) && p.1
                == parsed_request(expression@),
            Err(e) => match e {
                DiceError::InvalidFormat(d) => parse_code(expression@) == 1 && d@ == expression@,
                DiceError::ParseError(d) => parse_code(expression@) == 2 && d@ == offending_run(
                    expression@,
                ),
                _ => false,
            },
        },
{
    let ghost sv = expression@;
    let n = expression.unicode_len();
    let q0 = scan_ws(expression, 0);
    let q1 = scan_digits(expression, q0);
    proof {
        lemma_skip_digits(sv, q0 as int);
        assert(q0 == q_start(sv));
        assert(q1 == q_end(sv));
    }
    let qrun = expression.substring_char(q0, q1);
    proof {
        assert(qrun@ == quantity_digits(sv));
        lemma_run_all_digits(sv, q0 as int, q1 as int);
        if q1 > q0 {
            lemma_str_to_i32_digit_run(qrun@);
        }
    }
    let quantity: i32 = match str_to_i32_or_one(qrun) {
        Ok(v) => v,
        Err(e) => {
            return Err(e);
        },
    };
    if q1 >= n {
        return Err(DiceError::InvalidFormat(expression.to_owned()));
    }
    let mc = expression.get_char(q1);
    if !(mc == 'd' || mc == 'D') {
        return Err(DiceError::InvalidFormat(expression.to_owned()));
    }
    let s0 = q1 + 1;
    let s1 = scan_digits(expression, s0);
    proof {
        lemma_skip_digits(sv, s0 as int);
        assert(s1 == sides_end(sv));
    }
    if s1 == s0 {
        return Err(DiceError::InvalidFormat(expression.to_owned()));
    }
    let srun = expression.substring_char(s0, s1);
    proof {
        assert(srun@ == sides_digits(sv));
        lemma_run_all_digits(sv, s0 as int, s1 as int);
        lemma_str_to_i32_digit_run(srun@);
    }
    let sides: i32 = match str_to_i32(srun) {
        Ok(v) => v,
        Err(e) => {
            return Err(e);
        },
    };
    let m0 = scan_ws(expression, s1);
    proof {
        assert(m0 == sign_pos(sv));
    }
    let mut modifier: i32 = 0;
    let mut rstart = m0;
    if m0 < n {
        let sc = expression.get_char(m0);
        if sc == '+' || sc == '-' {
            let m1 = scan_digits(expression, m0 + 1);
            proof {
                lemma_skip_digits(sv, m0 as int + 1);
                assert(m1 == mod_end(sv));
            }
            if m1 == m0 + 1 {
                return Err(DiceError::InvalidFormat(expression.to_owned()));
            }
            let mrun = expression.substring_char(m0, m1);
            proof {
                assert(mrun@ == modifier_run(sv));
                lemma_run_all_digits(sv, m0 as int + 1, m1 as int);
                assert(mrun@.subrange(1, mrun@.len() as int) =~= sv.subrange(
                    m0 as int + 1,
                    m1 as int,
                ));
            }
            modifier = match str_to_i32(mrun) {
                Ok(v) => v,
                Err(e) => {
                    return Err(e);
                },
            };
            rstart = scan_ws(expression, m1);
            proof {
                assert(rstart == rem_start(sv));
            }
        }
    }
    let remaining = String::from_str(expression.substring_char(rstart, n));
    proof {
        assert(rstart == rem_start(sv));
        assert(parse_code(sv) == 0);
    }
    Ok((remaining, DiceRequest { quantity, sides, modifier }))
}

/// A request the evaluator accepts: quantity in `[1, 1000]`, at least one
/// side.
pub open spec fn valid_request(req: DiceRequest) -> bool {
    1 <= req.quantity <= 1000 && 1 <= req.sides
}

/// Outcome of semantic validation: 0 valid, 1 quantity below one, 2 quantity
/// above one thousand, 3 die size below one.
pub open spec fn validate_code(req: DiceRequest) -> int {
    if req.quantity < 1 {
        1
    } else if req.quantity > 1000 {
        2
    } else if req.sides < 1 {
        3
    } else {
        0
    }
}

/// Checks a parsed request against the range policy: quantity in `[1, 1000]`,
/// sides at least one.  Checks run in that order, so a request that is wrong
/// in both fields reports the quantity.
pub fn validate(request: &DiceRequest) -> (r: Result<(), DiceError>)
    ensures
        match r {
            Ok(_) => validate_code(*request) == 0 && valid_request(*request),
            Err(e) => match e {
                DiceError::InvalidQuantity(v) => validate_code(*request) == 1 && v
                    == request.quantity,
                DiceError::QuantityLimitExceeded(v) => validate_code(*request) == 2 && v
                    == request.quantity,
                DiceError::InvalidDieSize(v) => validate_code(*request) == 3 && v == request.sides,
                _ => false,
            },
        },
{
    if request.quantity < 1 {
        Err(DiceError::InvalidQuantity(request.quantity))
    } else if request.quantity > 1000 {
        Err(DiceError::QuantityLimitExceeded(request.quantity))
    } else if request.sides < 1 {
        Err(DiceError::InvalidDieSize(request.sides))
    } else {
        Ok(())
    }
}

} // verus!
