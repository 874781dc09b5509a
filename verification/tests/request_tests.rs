use dice_roll::BoundConstraint;
use dice_roll::Dice;
use dice_roll::RollRequest;
use dice_roll::RollRequestErrors;

fn one_group(count: i32, sides: i32, modifier: i32) -> RollRequest {
    RollRequest {
        dice: vec![Dice {
            count,
            sides,
            modifier,
        }],
    }
}

#[test]
fn validate_boundary_values_pass() {
    let req = one_group(100, 1000, 100);
    assert!(req.validate_roll_request().is_ok());
    let req = one_group(100, 1000, -100);
    assert!(req.validate_roll_request().is_ok());
    let req = one_group(1, 1, 0);
    assert!(req.validate_roll_request().is_ok());
}

#[test]
fn validate_one_past_each_boundary_fails() {
    let err = one_group(1, 1001, 0).validate_roll_request().unwrap_err();
    assert_eq!(err, RollRequestErrors::InvalidDiceSides { value: 1001 });
    let err = one_group(1, 0, 0).validate_roll_request().unwrap_err();
    assert_eq!(err, RollRequestErrors::InvalidDiceSides { value: 0 });
    let err = one_group(1, 6, 101).validate_roll_request().unwrap_err();
    assert_eq!(err, RollRequestErrors::InvalidDiceModifier { value: 101 });
    let err = one_group(1, 6, -101).validate_roll_request().unwrap_err();
    assert_eq!(err, RollRequestErrors::InvalidDiceModifier { value: -101 });
    let err = one_group(101, 6, 0).validate_roll_request().unwrap_err();
    assert_eq!(err, RollRequestErrors::InvalidDiceCount { value: 101 });
    let err = one_group(0, 6, 0).validate_roll_request().unwrap_err();
    assert_eq!(err, RollRequestErrors::InvalidDiceCount { value: 0 });
}

#[test]
fn validate_cumulative_count_ceiling() {
    let req = RollRequest {
        dice: vec![
            Dice {
                count: 60,
                sides: 6,
                modifier: 0,
            },
            Dice {
                count: 60,
                sides: 6,
                modifier: 0,
            },
        ],
    };
    let err = req.validate_roll_request().unwrap_err();
    assert_eq!(err, RollRequestErrors::TooManyDice);
}

#[test]
fn validate_checks_sides_before_modifier_and_count() {
    let err = one_group(0, 0, 200).validate_roll_request().unwrap_err();
    assert_eq!(err, RollRequestErrors::InvalidDiceSides { value: 0 });
    let err = one_group(0, 6, 200).validate_roll_request().unwrap_err();
    assert_eq!(err, RollRequestErrors::InvalidDiceModifier { value: 200 });
}

#[test]
fn validate_empty_request_passes() {
    let req = RollRequest { dice: Vec::new() };
    assert!(req.validate_roll_request().is_ok());
}

#[test]
fn validate_twice_leaves_request_unchanged() {
    let req = one_group(2, 6, 1);
    let first = req.validate_roll_request().unwrap();
    let second = first.validate_roll_request().unwrap();
    assert_eq!(second.dice, vec![Dice { count: 2, sides: 6, modifier: 1 }]);
    assert_eq!(req.dice, vec![Dice { count: 2, sides: 6, modifier: 1 }]);
}

#[test]
fn roll_dice_draws_in_range_and_sums_exactly() {
    let req = RollRequest {
        dice: vec![
            Dice {
                count: 3,
                sides: 6,
                modifier: 2,
            },
            Dice {
                count: 2,
                sides: 20,
                modifier: -5,
            },
        ],
    };
    let resp = req.roll_dice().unwrap();
    assert_eq!(resp.rolls.len(), 2);
    let mut grand: i32 = 0;
    for (dice, group) in req.dice.iter().zip(resp.rolls.iter()) {
        assert_eq!(group.count, dice.count);
        assert_eq!(group.sides, dice.sides);
        assert_eq!(group.modifier, dice.modifier);
        assert_eq!(group.rolls.len(), dice.count as usize);
        let mut sum: i32 = dice.modifier;
        for &v in group.rolls.iter() {
            assert!(1 <= v && v <= dice.sides);
            sum += v;
        }
        assert_eq!(group.total, sum);
        grand += sum;
    }
    assert_eq!(resp.total, grand);
}

#[test]
fn roll_dice_rejects_invalid_request() {
    let err = one_group(0, 6, 0).roll_dice().unwrap_err();
    assert_eq!(err, RollRequestErrors::InvalidDiceCount { value: 0 });
    let err = RollRequest {
        dice: vec![
            Dice {
                count: 60,
                sides: 6,
                modifier: 0,
            },
            Dice {
                count: 60,
                sides: 6,
                modifier: 0,
            },
        ],
    }
    .roll_dice()
    .unwrap_err();
    assert_eq!(err, RollRequestErrors::TooManyDice);
}

#[test]
fn roll_dice_empty_request_totals_zero() {
    let resp = RollRequest { dice: Vec::new() }.roll_dice().unwrap();
    assert_eq!(resp.rolls.len(), 0);
    assert_eq!(resp.total, 0);
}

#[test]
fn roll_dice_one_sided_dice_are_deterministic() {
    let resp = one_group(2, 1, 3).roll_dice().unwrap();
    assert_eq!(resp.rolls.len(), 1);
    assert_eq!(resp.rolls[0].rolls, vec![1, 1]);
    assert_eq!(resp.rolls[0].total, 5);
    assert_eq!(resp.total, 5);
}

#[test]
fn validation_error_messages_and_codes() {
    let e = RollRequestErrors::InvalidDiceSides { value: 5000 };
    assert_eq!(
        e.message(),
        "Dice sides must be between 1 and 1000, 5000 provided"
    );
    assert_eq!(e.code(), "INVALID_DICE_SIDES");
    assert_eq!(
        e.to_string(),
        "Dice sides must be between 1 and 1000, 5000 provided"
    );

    let e = RollRequestErrors::InvalidDiceModifier { value: -101 };
    assert_eq!(
        e.message(),
        "Dice modifier must be between -100 and 100, -101 provided"
    );
    assert_eq!(e.code(), "INVALID_DICE_MODIFIER");

    let e = RollRequestErrors::InvalidDiceCount { value: 0 };
    assert_eq!(
        e.message(),
        "Dice count must be between 1 and 100, 0 provided"
    );
    assert_eq!(e.code(), "INVALID_DICE_COUNT");

    let e = RollRequestErrors::TooManyDice;
    assert_eq!(e.message(), "Total dice to roll can not exceed 100");
    assert_eq!(e.to_string(), "Total dice to roll can not exceed 100.");
    assert_eq!(e.code(), "TOO_MANY_DICE");
}

#[test]
fn bound_constraints_cover_the_domain_bounds() {
    let b = BoundConstraint::sides_bound();
    assert!(b.contains(1) && b.contains(1000));
    assert!(!b.contains(0) && !b.contains(1001));
    let b = BoundConstraint::modifier_bound();
    assert!(b.contains(-100) && b.contains(100));
    assert!(!b.contains(-101) && !b.contains(101));
    let b = BoundConstraint::count_bound();
    assert!(b.contains(1) && b.contains(100));
    assert!(!b.contains(0) && !b.contains(101));
    assert_eq!(dice_roll::MAX_DICE, 100);
}
