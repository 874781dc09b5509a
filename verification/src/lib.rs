//! Dice-notation rolls: parsing `NdS[+M|-M]` expressions into roll requests,
//! validating them against the domain bounds, executing the rolls with a
//! random source, and rendering the outcome.

mod errors;
mod numbers;
pub mod parser;
mod render;
mod request;
mod rng;

pub use errors::RollRequestErrors;
pub use errors::rr_error_code;
pub use errors::rr_error_message;
pub use request::Dice;
pub use request::RollRequest;
pub use request::RollResponse;
pub use request::Rolls;
pub use request::dice_in_bounds;
pub use request::group_matches;
pub use request::response_matches;
pub use request::seq_sum;
pub use request::spec_validate;
pub use request::spec_validate_from;
pub use request::sum_subtotals;
pub use render::lemma_render_ends_with_total;
pub use render::spec_render;

use vstd::prelude::*;

verus! {

/// Smallest allowed number of faces on a die.
pub const SIDES_LOWER: i32 = 1;

/// Largest allowed number of faces on a die.
pub const SIDES_UPPER: i32 = 1000;

/// Smallest allowed modifier on a dice group.
pub const MODIFIER_LOWER: i32 = -100;

/// Largest allowed modifier on a dice group.
pub const MODIFIER_UPPER: i32 = 100;

/// Smallest allowed number of dice in one group.
pub const COUNT_LOWER: i32 = 1;

/// Largest allowed number of dice in one group.
pub const COUNT_UPPER: i32 = 100;

/// Ceiling on the number of dice across a whole request.
pub const MAX_DICE: i32 = 100;

/// Inclusive lower/upper bound on one numeric field of a dice group.
pub struct BoundConstraint {
    pub lower_bound: i32,
    pub upper_bound: i32,
}

impl BoundConstraint {
    /// The bound on the faces of a die.
    pub fn sides_bound() -> (r: BoundConstraint)
        ensures
            r.lower_bound == SIDES_LOWER,
            r.upper_bound == SIDES_UPPER,
    {
        BoundConstraint { lower_bound: SIDES_LOWER, upper_bound: SIDES_UPPER }
    }

    /// The bound on a dice group's modifier.
    pub fn modifier_bound() -> (r: BoundConstraint)
        ensures
            r.lower_bound == MODIFIER_LOWER,
            r.upper_bound == MODIFIER_UPPER,
    {
        BoundConstraint { lower_bound: MODIFIER_LOWER, upper_bound: MODIFIER_UPPER }
    }

    /// The bound on the number of dice in one group.
    pub fn count_bound() -> (r: BoundConstraint)
        ensures
            r.lower_bound == COUNT_LOWER,
            r.upper_bound == COUNT_UPPER,
    {
        BoundConstraint { lower_bound: COUNT_LOWER, upper_bound: COUNT_UPPER }
    }

    /// True exactly when `value` lies within the bound, inclusive at both ends.
    pub fn contains(&self, value: i32) -> (r: bool)
        ensures
            r == (self.lower_bound <= value && value <= self.upper_bound),
    {
        self.lower_bound <= value && value <= self.upper_bound
    }
}

} // verus!
