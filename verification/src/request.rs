//! Roll requests and their execution: the dice-group data model, the
//! validator that holds a request to the domain bounds, and the roll engine
//! that draws the dice and aggregates the totals.

use vstd::prelude::*;

use crate::BoundConstraint;
use crate::COUNT_LOWER;
use crate::COUNT_UPPER;
use crate::MAX_DICE;
use crate::MODIFIER_LOWER;
use crate::MODIFIER_UPPER;
use crate::SIDES_LOWER;
use crate::SIDES_UPPER;
use crate::errors::RollRequestErrors;
use crate::rng::draw_die;
use crate::rng::rng_new;

verus! {

/// One dice group: roll `count` dice with `sides` faces, then add `modifier`.
#[derive(Clone, Copy, Debug, PartialEq, Eq, Structural)]
pub struct Dice {
    pub count: i32,
    pub sides: i32,
    pub modifier: i32,
}

/// An ordered sequence of dice groups, in textual order.
#[derive(Debug)]
pub struct RollRequest {
    pub dice: Vec<Dice>,
}

/// The outcome of one dice group: the group it came from, the draws in draw
/// order, and the subtotal `modifier + sum(rolls)`.
#[derive(Debug)]
pub struct Rolls {
    pub count: i32,
    pub sides: i32,
    pub modifier: i32,
    pub rolls: Vec<i32>,
    pub total: i32,
}

/// The outcome of a whole request: one `Rolls` per group, in request order,
/// and the grand total of the subtotals.
#[derive(Debug)]
pub struct RollResponse {
    pub rolls: Vec<Rolls>,
    pub total: i32,
}

/// Every field of the dice group lies within its domain bound.
pub open spec fn dice_in_bounds(d: Dice) -> bool {
    &&& SIDES_LOWER <= d.sides <= SIDES_UPPER
    &&& MODIFIER_LOWER <= d.modifier <= MODIFIER_UPPER
    &&& COUNT_LOWER <= d.count <= COUNT_UPPER
}

/// What validating the groups `ds` yields, with `acc` dice already counted
/// before them: per group in order, the sides bound is checked, then the
/// modifier bound, then the count bound, then the running count against the
/// total-dice ceiling, stopping at the first violation.
pub open spec fn spec_validate_from(ds: Seq<Dice>, acc: int) -> Result<(), RollRequestErrors>
    decreases ds.len(),
{
    if ds.len() == 0 {
        Ok(())
    } else {
        let d = ds[0];
        if !(SIDES_LOWER <= d.sides <= SIDES_UPPER) {
            Err(RollRequestErrors::InvalidDiceSides { value: d.sides })
        } else if !(MODIFIER_LOWER <= d.modifier <= MODIFIER_UPPER) {
            Err(RollRequestErrors::InvalidDiceModifier { value: d.modifier })
        } else if !(COUNT_LOWER <= d.count <= COUNT_UPPER) {
            Err(RollRequestErrors::InvalidDiceCount { value: d.count })
        } else if acc + d.count > MAX_DICE {
            Err(RollRequestErrors::TooManyDice)
        } else {
            spec_validate_from(ds.drop_first(), acc + d.count)
        }
    }
}

/// What validating a whole request yields.
pub open spec fn spec_validate(ds: Seq<Dice>) -> Result<(), RollRequestErrors> {
    spec_validate_from(ds, 0)
}

/// Sum of a sequence of draws.
pub open spec fn seq_sum(s: Seq<i32>) -> int
    decreases s.len(),
{
    if s.len() == 0 {
        0
    } else {
        seq_sum(s.drop_last()) + s.last()
    }
}

/// Sum of the groups' subtotals.
pub open spec fn sum_subtotals(gs: Seq<Rolls>) -> int
    decreases gs.len(),
{
    if gs.len() == 0 {
        0
    } else {
        sum_subtotals(gs.drop_last()) + gs.last().total
    }
}

/// The group outcome `g` is a faithful roll of the group `d`: it repeats the
/// group's fields, holds exactly `count` draws, each within `[1, sides]`, and
/// its subtotal is `modifier` plus the sum of the draws.
pub open spec fn group_matches(d: Dice, g: Rolls) -> bool {
    &&& g.count == d.count
    &&& g.sides == d.sides
    &&& g.modifier == d.modifier
    &&& g.rolls@.len() == d.count
    &&& forall|j: int| 0 <= j < g.rolls@.len() ==> 1 <= #[trigger] g.rolls@[j] <= d.sides
    &&& g.total == d.modifier + seq_sum(g.rolls@)
}

/// The response is a faithful roll of the request: one matching group
/// outcome per group, in order, and a grand total that is exactly the sum of
/// the subtotals.
pub open spec fn response_matches(ds: Seq<Dice>, resp: RollResponse) -> bool {
    &&& resp.rolls@.len() == ds.len()
    &&& forall|i: int| 0 <= i < ds.len() ==> group_matches(ds[i], #[trigger] resp.rolls@[i])
    &&& resp.total == sum_subtotals(resp.rolls@)
}

/// A request that validates has every group within bounds and no more
/// groups than the total-dice ceiling allows.
pub proof fn lemma_validate_ok_bounds(ds: Seq<Dice>, acc: int)
    requires
        spec_validate_from(ds, acc) == Ok::<(), RollRequestErrors>(()),
        0 <= acc <= MAX_DICE,
    ensures
        forall|i: int| 0 <= i < ds.len() ==> dice_in_bounds(#[trigger] ds[i]),
        acc + ds.len() <= MAX_DICE,
    decreases ds.len(),
{
    if ds.len() > 0 {
        lemma_validate_ok_bounds(ds.drop_first(), acc + ds[0].count);
        assert forall|i: int| 0 <= i < ds.len() implies dice_in_bounds(#[trigger] ds[i]) by {
            if i > 0 {
                assert(ds.drop_first()[i - 1] == ds[i]);
            }
        }
    }
}

impl RollRequest {
    /// Checks each dice group and the running dice count against the domain
    /// bounds, in textual order, returning the request itself untouched when
    /// every check passes and the first violation otherwise.
    pub fn validate_roll_request(&self) -> (r: Result<&RollRequest, RollRequestErrors>)
        ensures
            match r {
                Ok(v) => spec_validate(self.dice@) == Ok::<(), RollRequestErrors>(()) && v == self,
                Err(e) => spec_validate(self.dice@) == Err::<(), RollRequestErrors>(e),
            },
    {
        let sides = BoundConstraint::sides_bound();
        let modifier = BoundConstraint::modifier_bound();
        let count = BoundConstraint::count_bound();
        let mut total_dice_count: i32 = 0;
        let mut i: usize = 0;
        proof {
            assert(self.dice@.skip(0) =~= self.dice@);
        }
        while i < self.dice.len()
            invariant
                i <= self.dice@.len(),
                0 <= total_dice_count <= MAX_DICE,
                sides.lower_bound == SIDES_LOWER && sides.upper_bound == SIDES_UPPER,
                modifier.lower_bound == MODIFIER_LOWER && modifier.upper_bound == MODIFIER_UPPER,
                count.lower_bound == COUNT_LOWER && count.upper_bound == COUNT_UPPER,
                spec_validate(self.dice@) == spec_validate_from(
                    self.dice@.skip(i as int),
                    total_dice_count as int,
                ),
            decreases self.dice@.len() - i,
        {
            let d = self.dice[i];
            proof {
                assert(self.dice@.skip(i as int)[0] == self.dice@[i as int]);
                assert(self.dice@.skip(i as int).drop_first() =~= self.dice@.skip(i + 1));
            }
            if !sides.contains(d.sides) {
                return Err(RollRequestErrors::InvalidDiceSides { value: d.sides });
            }
            if !modifier.contains(d.modifier) {
                return Err(RollRequestErrors::InvalidDiceModifier { value: d.modifier });
            }
            if !count.contains(d.count) {
                return Err(RollRequestErrors::InvalidDiceCount { value: d.count });
            }
            total_dice_count = total_dice_count + d.count;
            if total_dice_count > MAX_DICE {
                return Err(RollRequestErrors::TooManyDice);
            }
            i = i + 1;
        }
        proof {
            assert(self.dice@.skip(i as int) =~= Seq::<Dice>::empty());
        }
        Ok(self)
    }

    /// Validates the request, then rolls it: for each group in request
    /// order, draws `count` values from `[1, sides]`, in draw order, and
    /// aggregates the subtotals into the grand total.
    pub fn roll_dice(&self) -> (r: Result<RollResponse, RollRequestErrors>)
        ensures
            match r {
                Ok(resp) => spec_validate(self.dice@) == Ok::<(), RollRequestErrors>(())
                    && response_matches(self.dice@, resp),
                Err(e) => spec_validate(self.dice@) == Err::<(), RollRequestErrors>(e),
            },
    {
        match self.validate_roll_request() {
            Ok(_) => {},
            Err(err) => {
                return Err(err);
            },
        }
        proof {
            lemma_validate_ok_bounds(self.dice@, 0);
        }
        let ghost ds = self.dice@;
        let mut rng = rng_new();
        let mut groups: Vec<Rolls> = Vec::new();
        let mut total: i32 = 0;
        let mut i: usize = 0;
        while i < self.dice.len()
            invariant
                ds == self.dice@,
                forall|k: int| 0 <= k < ds.len() ==> dice_in_bounds(#[trigger] ds[k]),
                ds.len() <= MAX_DICE,
                i <= ds.len(),
                groups@.len() == i,
                forall|k: int| 0 <= k < i ==> group_matches(ds[k], #[trigger] groups@[k]),
                total == sum_subtotals(groups@),
                -100 * (i as int) <= total <= 100100 * (i as int),
            decreases ds.len() - i,
        {
            let d = self.dice[i];
            let mut rolls: Vec<i32> = Vec::new();
            let mut rolls_total: i32 = d.modifier;
            let mut j: i32 = 0;
            while j < d.count
                invariant
                    dice_in_bounds(d),
                    0 <= j <= d.count,
                    rolls@.len() == j,
                    forall|k: int| 0 <= k < j ==> 1 <= #[trigger] rolls@[k] <= d.sides,
                    rolls_total == d.modifier + seq_sum(rolls@),
                    d.modifier <= rolls_total <= d.modifier + 1000 * j,
                decreases d.count - j,
            {
                let v = draw_die(&mut rng, d.sides);
                let ghost prev = rolls@;
                rolls.push(v);
                proof {
                    assert(rolls@.drop_last() =~= prev);
                }
                rolls_total = rolls_total + v;
                j = j + 1;
            }
            let g = Rolls {
                count: d.count,
                sides: d.sides,
                modifier: d.modifier,
                rolls,
                total: rolls_total,
            };
            proof {
                assert(group_matches(ds[i as int], g));
            }
            let ghost prev_groups = groups@;
            groups.push(g);
            proof {
                assert(groups@.drop_last() =~= prev_groups);
            }
            total = total + rolls_total;
            i = i + 1;
        }
        proof {
            assert(groups@.len() == ds.len());
        }
        Ok(RollResponse { rolls: groups, total })
    }
}

} // verus!
