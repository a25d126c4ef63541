//! The roll evaluator: a fixed generator seeded from 32 bytes, and the
//! functions that turn a validated request into a result.
//!
//! The generator is xoshiro256**.  Its four state words are read from the
//! seed bytes little-endian; the all-zero seed, which that generator cannot
//! use, falls back to fixed nonzero constants.  A generator word maps to a
//! die by `1 + word % sides`; the slight bias of the modulo mapping toward
//! low faces (below one in two billion for any die a valid request can hold)
//! is accepted so that the mapping stays fixed and reproducible.

use crate::model::{RollResult, seq_sum};
use crate::parser::{DiceRequest, valid_request};
use vstd::prelude::*;
use vstd::wrapping::u64_specs;

verus! {

/// The four state words of the generator.
#[derive(Clone, Copy)]
pub struct GenState {
    pub s0: u64,
    pub s1: u64,
    pub s2: u64,
    pub s3: u64,
}

/// Left rotation of a word by `k` bits.
pub open spec fn spec_rotl(x: u64, k: u64) -> u64
    recommends
        0 < k < 64,
{
    (x << k) | (x >> ((64 - k) as u64))
}

/// The output word xoshiro256** derives from a state.
pub open spec fn spec_next_value(st: GenState) -> u64 {
    u64_specs::wrapping_mul(spec_rotl(u64_specs::wrapping_mul(st.s1, 5), 7), 9)
}

/// The successor state of xoshiro256**.
pub open spec fn spec_next_state(st: GenState) -> GenState {
    let t = st.s1 << 17;
    let s2a = st.s2 ^ st.s0;
    let s3a = st.s3 ^ st.s1;
    let s1a = st.s1 ^ s2a;
    let s0a = st.s0 ^ s3a;
    let s2b = s2a ^ t;
    let s3b = spec_rotl(s3a, 45);
    GenState { s0: s0a, s1: s1a, s2: s2b, s3: s3b }
}

/// Left rotation of a word by `k` bits.
fn rotl(x: u64, k: u64) -> (r: u64)
    requires
        0 < k < 64,
    ensures
        r == spec_rotl(x, k),
{
    (x << k) | (x >> (64 - k))
}

/// Advances the generator, returning the output word of the old state.
fn next_u64(state: &mut GenState) -> (r: u64)
    ensures
        *final(state) == spec_next_state(*old(state)),
        r == spec_next_value(*old(state)),
{
    let r0 = rotl(state.s1.wrapping_mul(5), 7).wrapping_mul(9);
    let t = state.s1 << 17;
    state.s2 = state.s2 ^ state.s0;
    state.s3 = state.s3 ^ state.s1;
    state.s1 = state.s1 ^ state.s2;
    state.s0 = state.s0 ^ state.s3;
    state.s2 = state.s2 ^ t;
    state.s3 = rotl(state.s3, 45);
    r0
}

/// The state word read little-endian from eight seed bytes at `off`.
pub open spec fn spec_word(seed: Seq<u8>, off: int) -> u64
    recommends
        0 <= off,
        off + 8 <= seed.len(),
{
    (seed[off] as u64) | ((seed[off + 1] as u64) << 8) | ((seed[off + 2] as u64) << 16) | ((seed[off
        + 3] as u64) << 24) | ((seed[off + 4] as u64) << 32) | ((seed[off + 5] as u64) << 40) | ((
    seed[off + 6] as u64) << 48) | ((seed[off + 7] as u64) << 56)
}

/// The generator state a seed denotes: four words read little-endian, with
/// fixed nonzero fallback constants for the all-zero seed.
pub open spec fn spec_init_state(seed: Seq<u8>) -> GenState {
    let st = GenState {
        s0: spec_word(seed, 0),
        s1: spec_word(seed, 8),
        s2: spec_word(seed, 16),
        s3: spec_word(seed, 24),
    };
    if st.s0 == 0 && st.s1 == 0 && st.s2 == 0 && st.s3 == 0 {
        GenState {
            s0: 0x9E3779B97F4A7C15,
            s1: 0xBF58476D1CE4E5B9,
            s2: 0x94D049BB133111EB,
            s3: 0x2545F4914F6CDD1D,
        }
    } else {
        st
    }
}

/// One state word, read little-endian from the seed bytes at `off`.
fn word_from(seed: &[u8; 32], off: usize) -> (r: u64)
    requires
        off + 8 <= 32,
    ensures
        r == spec_word(seed@, off as int),
{
    (seed[off] as u64) | ((seed[off + 1] as u64) << 8) | ((seed[off + 2] as u64) << 16) | ((seed[off
        + 3] as u64) << 24) | ((seed[off + 4] as u64) << 32) | ((seed[off + 5] as u64) << 40) | ((
    seed[off + 6] as u64) << 48) | ((seed[off + 7] as u64) << 56)
}

/// Builds the generator state a seed denotes.
fn init_state(seed: &[u8; 32]) -> (st: GenState)
    ensures
        st == spec_init_state(seed@),
{
    let s0 = word_from(seed, 0);
    let s1 = word_from(seed, 8);
    let s2 = word_from(seed, 16);
    let s3 = word_from(seed, 24);
    if s0 == 0 && s1 == 0 && s2 == 0 && s3 == 0 {
        GenState {
            s0: 0x9E3779B97F4A7C15,
            s1: 0xBF58476D1CE4E5B9,
            s2: 0x94D049BB133111EB,
            s3: 0x2545F4914F6CDD1D,
        }
    } else {
        GenState { s0, s1, s2, s3 }
    }
}

/// The die a state yields on a die with `sides` faces.
pub open spec fn spec_roll(st: GenState, sides: i32) -> i32
    recommends
        sides >= 1,
{
    (1 + spec_next_value(st) as int % sides as int) as i32
}

/// The dice read from `count` successive generator states.
pub open spec fn spec_rolls(st: GenState, count: nat, sides: i32) -> Seq<i32>
    decreases count,
{
    if count == 0 {
        Seq::empty()
    } else {
        seq![spec_roll(st, sides)] + spec_rolls(spec_next_state(st), (count - 1) as nat, sides)
    }
}

/// Whether a result is the one that a request and a seed determine.
pub open spec fn seeded_result(req: DiceRequest, seed: Seq<u8>, r: RollResult) -> bool {
    &&& r.dice_rolls@ == spec_rolls(spec_init_state(seed), req.quantity as nat, req.sides)
    &&& r.modifier == req.modifier
    &&& r.total == seq_sum(r.dice_rolls@) + req.modifier
}

/// Evaluates a validated request with entropy derived from the seed alone.
///
/// The result is a function of the request and the seed: repeated calls with
/// the same arguments return the same rolls in the same order and the same
/// total.
pub fn evaluate_seeded(request: &DiceRequest, seed: [u8; 32]) -> (r: RollResult)
    requires
        valid_request(*request),
    ensures
        seeded_result(*request, seed@, r),
        r.dice_rolls@.len() == request.quantity,
        forall|i: int| 0 <= i < r.dice_rolls@.len() ==> 1 <= #[trigger] r.dice_rolls@[i] <= request.sides,
{
    let ghost st0 = spec_init_state(seed@);
    let mut state = init_state(&seed);
    let mut rolls: Vec<i32> = Vec::new();
    let mut sum: i64 = 0;
    let quantity = request.quantity;
    let sides = request.sides;
    let mut i: i32 = 0;
    while i < quantity
        invariant
            0 <= i <= quantity,
            1 <= quantity <= 1000,
            1 <= sides,
            rolls@.len() == i,
            rolls@ + spec_rolls(state, (quantity - i) as nat, sides) == spec_rolls(
                st0,
                quantity as nat,
                sides,
            ),
            sum == seq_sum(rolls@),
            0 <= sum <= i as int * 0x7fff_ffff,
            forall|k: int| 0 <= k < rolls@.len() ==> 1 <= #[trigger] rolls@[k] <= sides,
        decreases quantity - i,
    {
        let ghost prev_rolls = rolls@;
        let ghost prev_state = state;
        let w = next_u64(&mut state);
        let m: u64 = w % (sides as u64);
        let die: i32 = (m + 1) as i32;
        proof {
            assert(die == spec_roll(prev_state, sides));
        }
        rolls.push(die);
        sum = sum + die as i64;
        proof {
            assert(rolls@.drop_last() =~= prev_rolls);
            assert(rolls@ =~= prev_rolls + seq![die]);
            assert(prev_rolls + (seq![die] + spec_rolls(state, (quantity - i - 1) as nat, sides))
                =~= rolls@ + spec_rolls(state, (quantity - i - 1) as nat, sides));
        }
        i = i + 1;
    }
    proof {
        assert(rolls@ + spec_rolls(state, 0, sides) =~= rolls@);
    }
    let total: i64 = sum + (request.modifier as i64);
    RollResult { total, dice_rolls: rolls, modifier: request.modifier }
}

/// Relies on rand::random: 32 bytes drawn from the thread-local generator.
#[verifier::external_body]
fn ambient_seed() -> (r: [u8; 32]) {
    rand::random::<[u8; 32]>()
}

/// Evaluates a validated request with ambient entropy: the rolls have the
/// right count and range and the total sums them with the modifier, but
/// repeated calls need not agree.
pub fn evaluate(request: &DiceRequest) -> (r: RollResult)
    requires
        valid_request(*request),
    ensures
        r.dice_rolls@.len() == request.quantity,
        forall|i: int| 0 <= i < r.dice_rolls@.len() ==> 1 <= #[trigger] r.dice_rolls@[i] <= request.sides,
        r.modifier == request.modifier,
        r.total == seq_sum(r.dice_rolls@) + request.modifier,
{
    let seed = ambient_seed();
    evaluate_seeded(request, seed)
}

/// Two results of `evaluate_seeded` for one request and one seed agree in
/// every observable field: seeded evaluation is deterministic in its inputs.
pub proof fn lemma_evaluate_seeded_deterministic(
    req: DiceRequest,
    seed: Seq<u8>,
    r1: RollResult,
    r2: RollResult,
)
    requires
        seeded_result(req, seed, r1),
        seeded_result(req, seed, r2),
    ensures
        r1.total == r2.total,
        r1.dice_rolls@ == r2.dice_rolls@,
        r1.modifier == r2.modifier,
{
}

} // verus!
