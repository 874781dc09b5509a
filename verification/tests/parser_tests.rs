use dice_roll::parser::ParserErrors;
use dice_roll::parser::RollTokenParserErrors;
use dice_roll::parser::parse;

#[test]
fn parse_single_group_with_modifier() {
    let req = parse("2d6+1".to_string()).unwrap();
    assert_eq!(req.dice.len(), 1);
    assert_eq!(req.dice[0].count, 2);
    assert_eq!(req.dice[0].sides, 6);
    assert_eq!(req.dice[0].modifier, 1);
}

#[test]
fn parse_two_groups_with_negative_modifier() {
    let req = parse("1d20-3+4d4".to_string()).unwrap();
    assert_eq!(req.dice.len(), 2);
    assert_eq!(req.dice[0].count, 1);
    assert_eq!(req.dice[0].sides, 20);
    assert_eq!(req.dice[0].modifier, -3);
    assert_eq!(req.dice[1].count, 4);
    assert_eq!(req.dice[1].sides, 4);
    assert_eq!(req.dice[1].modifier, 0);
}

#[test]
fn parse_modifier_without_group() {
    let err = parse("+5".to_string()).unwrap_err();
    assert_eq!(err, ParserErrors::EmptyDiceForModifierError);
}

#[test]
fn parse_leading_minus_modifier_without_group() {
    let err = parse("-3".to_string()).unwrap_err();
    assert_eq!(err, ParserErrors::EmptyDiceForModifierError);
}

#[test]
fn parse_leading_plus_before_group() {
    let err = parse("+2d6".to_string()).unwrap_err();
    assert_eq!(err, ParserErrors::EmptyDiceForModifierError);
    let err = parse("+d6".to_string()).unwrap_err();
    assert_eq!(err, ParserErrors::EmptyDiceForModifierError);
    let err = parse(" + 2d6".to_string()).unwrap_err();
    assert_eq!(err, ParserErrors::EmptyDiceForModifierError);
}

#[test]
fn parse_leading_minus_before_group() {
    let err = parse("-2d6".to_string()).unwrap_err();
    assert_eq!(
        err,
        ParserErrors::ModifierParserError {
            token: "2d6".to_string()
        }
    );
}

#[test]
fn parse_zero_modifier_rejected() {
    let err = parse("2d6+0".to_string()).unwrap_err();
    assert_eq!(err, ParserErrors::NoZeroModifiersError);
}

#[test]
fn parse_double_operator_is_empty_modifier() {
    let err = parse("2d6++1".to_string()).unwrap_err();
    assert_eq!(err, ParserErrors::EmptyModifierError);
}

#[test]
fn parse_bad_count_carries_fragment() {
    let err = parse("abcd6".to_string()).unwrap_err();
    assert_eq!(
        err,
        ParserErrors::RollParserError(RollTokenParserErrors::DiceCountParserError {
            token: "abc".to_string()
        })
    );
}

#[test]
fn parse_bad_sides_carries_fragment() {
    let err = parse("2dxy".to_string()).unwrap_err();
    assert_eq!(
        err,
        ParserErrors::RollParserError(RollTokenParserErrors::DiceSidesParserError {
            token: "xy".to_string()
        })
    );
}

#[test]
fn parse_missing_sides_carries_empty_fragment() {
    let err = parse("2d".to_string()).unwrap_err();
    assert_eq!(
        err,
        ParserErrors::RollParserError(RollTokenParserErrors::DiceSidesParserError {
            token: "".to_string()
        })
    );
}

#[test]
fn parse_count_overflow_is_count_error() {
    let err = parse("99999999999d6".to_string()).unwrap_err();
    assert_eq!(
        err,
        ParserErrors::RollParserError(RollTokenParserErrors::DiceCountParserError {
            token: "99999999999".to_string()
        })
    );
}

#[test]
fn parse_empty_input_yields_empty_request() {
    let req = parse("".to_string()).unwrap();
    assert_eq!(req.dice.len(), 0);
}

#[test]
fn parse_spaces_only_yields_empty_request() {
    let req = parse("   ".to_string()).unwrap();
    assert_eq!(req.dice.len(), 0);
}

#[test]
fn parse_skips_embedded_whitespace() {
    let req = parse("2 d 6 + 1".to_string()).unwrap();
    assert_eq!(req.dice.len(), 1);
    assert_eq!(req.dice[0].count, 2);
    assert_eq!(req.dice[0].sides, 6);
    assert_eq!(req.dice[0].modifier, 1);
}

#[test]
fn parse_trailing_operator_is_empty_modifier() {
    let err = parse("2d6+".to_string()).unwrap_err();
    assert_eq!(err, ParserErrors::EmptyModifierError);
}

#[test]
fn parse_trailing_operator_before_space_is_empty_modifier() {
    let err = parse("2d6+ ".to_string()).unwrap_err();
    assert_eq!(err, ParserErrors::EmptyModifierError);
}

#[test]
fn parse_second_modifier_rejected() {
    let err = parse("2d6+1+2".to_string()).unwrap_err();
    assert_eq!(err, ParserErrors::TooManyModifiersError);
}

#[test]
fn parse_modifier_not_a_number() {
    let err = parse("2d6+x".to_string()).unwrap_err();
    assert_eq!(
        err,
        ParserErrors::ModifierParserError {
            token: "x".to_string()
        }
    );
}

#[test]
fn parse_group_after_plus_reclassified_by_d() {
    let req = parse("2d6+1d4".to_string()).unwrap();
    assert_eq!(req.dice.len(), 2);
    assert_eq!(req.dice[0].count, 2);
    assert_eq!(req.dice[0].sides, 6);
    assert_eq!(req.dice[0].modifier, 0);
    assert_eq!(req.dice[1].count, 1);
    assert_eq!(req.dice[1].sides, 4);
    assert_eq!(req.dice[1].modifier, 0);
}

#[test]
fn parse_group_after_minus_stays_a_modifier() {
    let err = parse("2d6-1d4".to_string()).unwrap_err();
    assert_eq!(
        err,
        ParserErrors::ModifierParserError {
            token: "1d4".to_string()
        }
    );
}

#[test]
fn parse_error_messages() {
    let err = parse("abcd6".to_string()).unwrap_err();
    assert_eq!(
        err.to_string(),
        "Invalid roll provided, abc. Failed to parse dice count."
    );
    let err = parse("2dxy".to_string()).unwrap_err();
    assert_eq!(
        err.to_string(),
        "Invalid roll provided, xy. Failed to parse dice sides."
    );
    let err = parse("+5".to_string()).unwrap_err();
    assert_eq!(
        err.to_string(),
        "No dice roll provided. Dice roll is in the form \"1d4\""
    );
    let err = parse("2d6+".to_string()).unwrap_err();
    assert_eq!(err.to_string(), "Dice roll includes empty modifier.");
    let err = parse("2d6+x".to_string()).unwrap_err();
    assert_eq!(err.to_string(), "Invalid modifier provided, x.");
    let err = parse("2d6+1+2".to_string()).unwrap_err();
    assert_eq!(
        err.to_string(),
        "Multiple non-zero modifiers are being applied to the same dice roll."
    );
    let err = parse("2d6+0".to_string()).unwrap_err();
    assert_eq!(err.to_string(), "No modifiers with a value of 0.");
}

#[test]
fn parse_error_codes() {
    assert_eq!(
        parse("abcd6".to_string()).unwrap_err().code(),
        "DICE_COUNT_UNPARSEABLE"
    );
    assert_eq!(
        parse("2dxy".to_string()).unwrap_err().code(),
        "DICE_SIDES_UNPARSEABLE"
    );
    assert_eq!(
        parse("+5".to_string()).unwrap_err().code(),
        "MODIFIER_WITH_NO_PRECEDING_GROUP"
    );
    assert_eq!(
        parse("2d6+".to_string()).unwrap_err().code(),
        "EMPTY_MODIFIER"
    );
    assert_eq!(
        parse("2d6+x".to_string()).unwrap_err().code(),
        "MODIFIER_UNPARSEABLE"
    );
    assert_eq!(
        parse("2d6+1+2".to_string()).unwrap_err().code(),
        "DUPLICATE_MODIFIER_ON_GROUP"
    );
    assert_eq!(
        parse("2d6+0".to_string()).unwrap_err().code(),
        "ZERO_MODIFIER"
    );
}
