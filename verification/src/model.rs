//! The outcome of an evaluation and its text rendering.

use crate::text::{spec_int_chars, push_int};
use vstd::prelude::*;

verus! {

/// The outcome of evaluating a dice request.
///
/// `total` is the sum of the rolled dice plus the modifier.  It is wider than
/// a single die so that one thousand dice of the largest size sum without
/// overflow.
#[derive(Debug)]
pub struct RollResult {
    pub total: i64,
    pub dice_rolls: Vec<i32>,
    pub modifier: i32,
}

/// Sum of a sequence of die outcomes.
pub open spec fn seq_sum(s: Seq<i32>) -> int
    decreases s.len(),
{
    if s.len() == 0 {
        0
    } else {
        seq_sum(s.drop_last()) + s.last()
    }
}

/// The comma-separated list of die outcomes, without the surrounding brackets.
pub open spec fn spec_join_rolls(rolls: Seq<i32>) -> Seq<char>
    decreases rolls.len(),
{
    if rolls.len() == 0 {
        Seq::empty()
    } else if rolls.len() == 1 {
        spec_int_chars(rolls[0] as int)
    } else {
        spec_join_rolls(rolls.drop_last()) + seq![',', ' '] + spec_int_chars(rolls.last() as int)
    }
}

/// The text rendering of a result: the bracketed list of rolls, then
/// ` + m` or ` - m` for a nonzero modifier, then ` = total`.
pub open spec fn spec_render(total: int, rolls: Seq<i32>, modifier: int) -> Seq<char> {
    let base = seq!['['] + spec_join_rolls(rolls) + seq![']'];
    let with_mod = if modifier > 0 {
        base + seq![' ', '+', ' '] + spec_int_chars(modifier)
    } else if modifier < 0 {
        base + seq![' ', '-', ' '] + spec_int_chars(-modifier)
    } else {
        base
    };
    with_mod + seq![' ', '=', ' '] + spec_int_chars(total)
}

impl RollResult {
    /// Renders the result, for example `[4, 2] + 5 = 9`.
    pub fn to_string(&self) -> (r: String)
        ensures
            r@ == spec_render(self.total as int, self.dice_rolls@, self.modifier as int),
    {
        proof {
            reveal_strlit("[");
            reveal_strlit("]");
            reveal_strlit(", ");
            reveal_strlit(" + ");
            reveal_strlit(" - ");
            reveal_strlit(" = ");
        }
        let mut out = String::from_str("[");
        proof {
            assert(out@ =~= seq!['['] + spec_join_rolls(self.dice_rolls@.subrange(0, 0)));
        }
        let n = self.dice_rolls.len();
        let mut i: usize = 0;
        while i < n
            invariant
                i <= n,
                n == self.dice_rolls@.len(),
                out@ == seq!['['] + spec_join_rolls(self.dice_rolls@.subrange(0, i as int)),
            decreases n - i,
        {
            if i > 0 {
                out.append(", ");
            }
            push_int(&mut out, self.dice_rolls[i] as i64);
            proof {
                let prefix = self.dice_rolls@.subrange(0, i as int);
                let next = self.dice_rolls@.subrange(0, i + 1);
                assert(next.drop_last() =~= prefix);
                assert(next.last() == self.dice_rolls@[i as int]);
                if i == 0 {
                    assert(out@ =~= seq!['['] + spec_join_rolls(next));
                } else {
                    reveal_strlit(", ");
                    assert(", "@ =~= seq![',', ' ']);
                    assert(out@ =~= seq!['['] + spec_join_rolls(next));
                }
            }
            i += 1;
        }
        proof {
            assert(self.dice_rolls@.subrange(0, n as int) =~= self.dice_rolls@);
        }
        out.append("]");
        if self.modifier > 0 {
            out.append(" + ");
            push_int(&mut out, self.modifier as i64);
        } else if self.modifier < 0 {
            out.append(" - ");
            push_int(&mut out, -(self.modifier as i64));
        }
        out.append(" = ");
        push_int(&mut out, self.total);
        proof {
            assert(" + "@ =~= seq![' ', '+', ' ']);
            assert(" - "@ =~= seq![' ', '-', ' ']);
            assert(" = "@ =~= seq![' ', '=', ' ']);
            assert("]"@ =~= seq![']']);
            assert(out@ =~= spec_render(
                self.total as int,
                self.dice_rolls@,
                self.modifier as int,
            ));
        }
        out
    }
}

} // verus!
