//! Validation-time errors: which bound a roll request broke, the value that
//! broke it, and the stable code and message each variant exposes.

use vstd::prelude::*;

use crate::numbers::{dec_str, i32_to_string};

verus! {

/// Why a roll request was rejected by validation.
#[derive(Clone, Copy, Debug, PartialEq, Eq, Structural)]
pub enum RollRequestErrors {
    InvalidDiceSides { value: i32 },
    InvalidDiceModifier { value: i32 },
    InvalidDiceCount { value: i32 },
    TooManyDice,
}

/// The human-readable line for each validation error.
pub open spec fn rr_error_message(e: RollRequestErrors) -> Seq<char> {
    match e {
        RollRequestErrors::InvalidDiceSides { value } => "Dice sides must be between 1 and 1000, "@
            + dec_str(value as int) + " provided"@,
        RollRequestErrors::InvalidDiceModifier { value } =>
        "Dice modifier must be between -100 and 100, "@ + dec_str(value as int) + " provided"@,
        RollRequestErrors::InvalidDiceCount { value } => "Dice count must be between 1 and 100, "@
            + dec_str(value as int) + " provided"@,
        RollRequestErrors::TooManyDice => "Total dice to roll can not exceed 100"@,
    }
}

/// The stable machine-readable code for each validation error.
pub open spec fn rr_error_code(e: RollRequestErrors) -> Seq<char> {
    match e {
        RollRequestErrors::InvalidDiceSides { .. } => "INVALID_DICE_SIDES"@,
        RollRequestErrors::InvalidDiceModifier { .. } => "INVALID_DICE_MODIFIER"@,
        RollRequestErrors::InvalidDiceCount { .. } => "INVALID_DICE_COUNT"@,
        RollRequestErrors::TooManyDice => "TOO_MANY_DICE"@,
    }
}

impl RollRequestErrors {
    /// The error's message, with a closing period after the total-dice line.
    pub fn to_string(self) -> (r: String)
        ensures
            r@ == rr_error_message(self) + (if self is TooManyDice {
                "."@
            } else {
                Seq::<char>::empty()
            }),
    {
        match self {
            RollRequestErrors::InvalidDiceSides { value } => {
                let mut s = String::from_str("Dice sides must be between 1 and 1000, ");
                let num = i32_to_string(value);
                s.append(num.as_str());
                s.append(" provided");
                proof {
                    assert(s@ =~= rr_error_message(self) + Seq::<char>::empty());
                }
                s
            },
            RollRequestErrors::InvalidDiceModifier { value } => {
                let mut s = String::from_str("Dice modifier must be between -100 and 100, ");
                let num = i32_to_string(value);
                s.append(num.as_str());
                s.append(" provided");
                proof {
                    assert(s@ =~= rr_error_message(self) + Seq::<char>::empty());
                }
                s
            },
            RollRequestErrors::InvalidDiceCount { value } => {
                let mut s = String::from_str("Dice count must be between 1 and 100, ");
                let num = i32_to_string(value);
                s.append(num.as_str());
                s.append(" provided");
                proof {
                    assert(s@ =~= rr_error_message(self) + Seq::<char>::empty());
                }
                s
            },
            RollRequestErrors::TooManyDice => {
                let s = String::from_str("Total dice to roll can not exceed 100.");
                proof {
                    assert(s@ =~= rr_error_message(self) + "."@) by {
                        reveal_strlit("Total dice to roll can not exceed 100.");
                        reveal_strlit("Total dice to roll can not exceed 100");
                        reveal_strlit(".");
                    };
                }
                s
            },
        }
    }

    /// The error's message as carried in a structured error payload: the same
    /// line, without the closing period.
    pub fn message(&self) -> (r: String)
        ensures
            r@ == rr_error_message(*self),
    {
        match self {
            RollRequestErrors::InvalidDiceSides { value } => {
                let mut s = String::from_str("Dice sides must be between 1 and 1000, ");
                let num = i32_to_string(*value);
                s.append(num.as_str());
                s.append(" provided");
                proof {
                    assert(s@ =~= rr_error_message(*self));
                }
                s
            },
            RollRequestErrors::InvalidDiceModifier { value } => {
                let mut s = String::from_str("Dice modifier must be between -100 and 100, ");
                let num = i32_to_string(*value);
                s.append(num.as_str());
                s.append(" provided");
                proof {
                    assert(s@ =~= rr_error_message(*self));
                }
                s
            },
            RollRequestErrors::InvalidDiceCount { value } => {
                let mut s = String::from_str("Dice count must be between 1 and 100, ");
                let num = i32_to_string(*value);
                s.append(num.as_str());
                s.append(" provided");
                proof {
                    assert(s@ =~= rr_error_message(*self));
                }
                s
            },
            RollRequestErrors::TooManyDice => {
                String::from_str("Total dice to roll can not exceed 100")
            },
        }
    }

    /// The error's stable machine-readable code.
    pub fn code(&self) -> (r: String)
        ensures
            r@ == rr_error_code(*self),
    {
        match self {
            RollRequestErrors::InvalidDiceSides { .. } => String::from_str("INVALID_DICE_SIDES"),
            RollRequestErrors::InvalidDiceModifier { .. } => String::from_str(
                "INVALID_DICE_MODIFIER",
            ),
            RollRequestErrors::InvalidDiceCount { .. } => String::from_str("INVALID_DICE_COUNT"),
            RollRequestErrors::TooManyDice => String::from_str("TOO_MANY_DICE"),
        }
    }
}

} // verus!
