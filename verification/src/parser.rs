//! The notation parser: a single left-to-right scan over the input's
//! characters, driven by a four-state machine, that turns a dice-notation
//! string such as `2d6+1` or `1d20-3+4d4` into a sequence of dice groups.

use vstd::prelude::*;

use crate::numbers::lemma_dec_value_nonneg;
use crate::numbers::parse_i32_digits;
use crate::numbers::push_char;
use crate::numbers::spec_parse_i32;
use crate::request::Dice;
use crate::request::RollRequest;

verus! {

/// The scanner's state: what the characters being accumulated mean.
pub enum Tokens {
    /// Accumulating the `NdS` token of a new dice group.
    Roll,
    /// Just consumed `+`: the next token is either a new dice group (if a
    /// `d` appears before the token closes) or a positive modifier.
    PlusRollOrModifier,
    /// Just consumed `-`: the next token is a modifier, negated on storage.
    MinusModifier,
    /// Just closed a token: expecting `+` or `-` next.
    Operator,
}

/// Parse-time errors, with the offending text where there is one.
#[derive(Debug, PartialEq, Eq)]
pub enum ParserErrors {
    RollParserError(RollTokenParserErrors),
    EmptyDiceForModifierError,
    NoZeroModifiersError,
    TooManyModifiersError,
    EmptyModifierError,
    ModifierParserError { token: String },
}

/// Errors from splitting an `NdS` token into its two numeric fragments.
#[derive(Debug, PartialEq, Eq)]
pub enum RollTokenParserErrors {
    DiceCountParserError { token: String },
    DiceSidesParserError { token: String },
}

/// `RollTokenParserErrors` with the offending fragment as a character
/// sequence, for contracts.
pub enum RollTokenErrorModel {
    DiceCountParser { token: Seq<char> },
    DiceSidesParser { token: Seq<char> },
}

/// `ParserErrors` with the offending text as a character sequence, for
/// contracts.
pub enum ParseErrorModel {
    RollParser(RollTokenErrorModel),
    EmptyDiceForModifier,
    NoZeroModifiers,
    TooManyModifiers,
    EmptyModifier,
    ModifierParser { token: Seq<char> },
}

impl View for RollTokenParserErrors {
    type V = RollTokenErrorModel;

    open spec fn view(&self) -> RollTokenErrorModel {
        match self {
            RollTokenParserErrors::DiceCountParserError { token } => {
                RollTokenErrorModel::DiceCountParser { token: token@ }
            },
            RollTokenParserErrors::DiceSidesParserError { token } => {
                RollTokenErrorModel::DiceSidesParser { token: token@ }
            },
        }
    }
}

impl View for ParserErrors {
    type V = ParseErrorModel;

    open spec fn view(&self) -> ParseErrorModel {
        match self {
            ParserErrors::RollParserError(e) => ParseErrorModel::RollParser(e@),
            ParserErrors::EmptyDiceForModifierError => ParseErrorModel::EmptyDiceForModifier,
            ParserErrors::NoZeroModifiersError => ParseErrorModel::NoZeroModifiers,
            ParserErrors::TooManyModifiersError => ParseErrorModel::TooManyModifiers,
            ParserErrors::EmptyModifierError => ParseErrorModel::EmptyModifier,
            ParserErrors::ModifierParserError { token } => ParseErrorModel::ModifierParser {
                token: token@,
            },
        }
    }
}

/// Position of the first `d` in the token, or its length if there is none.
pub open spec fn first_d_index(t: Seq<char>) -> int
    decreases t.len(),
{
    if t.len() == 0 {
        0
    } else if t[0] == 'd' {
        0
    } else {
        1 + first_d_index(t.drop_first())
    }
}

/// What closing a `Roll`-state token yields: the token is split on its
/// first `d` into a count fragment and a sides fragment, each parsed
/// independently; a failing fragment names itself in the error.
pub open spec fn spec_parse_roll(t: Seq<char>) -> Result<Dice, RollTokenErrorModel> {
    let k = first_d_index(t);
    let count_frag = t.take(k);
    let sides_frag = if k == t.len() {
        Seq::<char>::empty()
    } else {
        t.skip(k + 1)
    };
    match spec_parse_i32(count_frag) {
        Option::None => Err(RollTokenErrorModel::DiceCountParser { token: count_frag }),
        Option::Some(count) => match spec_parse_i32(sides_frag) {
            Option::None => Err(RollTokenErrorModel::DiceSidesParser { token: sides_frag }),
            Option::Some(sides) => Ok(Dice { count, sides, modifier: 0 }),
        },
    }
}

/// What closing a modifier token yields: an empty token is a bare trailing
/// operator; the token must parse, be non-zero, have a group to attach to,
/// and that group must not already carry a modifier.
pub open spec fn close_modifier(t: Seq<char>, negative: bool, acc: Seq<Dice>) -> Result<
    Seq<Dice>,
    ParseErrorModel,
> {
    if t.len() == 0 {
        Err(ParseErrorModel::EmptyModifier)
    } else {
        match spec_parse_i32(t) {
            Option::None => Err(ParseErrorModel::ModifierParser { token: t }),
            Option::Some(m) => {
                if m == 0 {
                    Err(ParseErrorModel::NoZeroModifiers)
                } else if acc.len() == 0 {
                    Err(ParseErrorModel::EmptyDiceForModifier)
                } else if acc.last().modifier != 0 {
                    Err(ParseErrorModel::TooManyModifiers)
                } else {
                    let signed: i32 = if negative {
                        (-(m as int)) as i32
                    } else {
                        m
                    };
                    Ok(
                        acc.drop_last().push(
                            Dice {
                                count: acc.last().count,
                                sides: acc.last().sides,
                                modifier: signed,
                            },
                        ),
                    )
                }
            },
        }
    }
}

/// What closing the token in progress yields in each state. In `Roll` state
/// an empty token closes to nothing (there is nothing to flush); in the two
/// modifier states the token is attached to the last group; in `Operator`
/// state no token is in progress.
pub open spec fn close_token_state(st: Tokens, t: Seq<char>, acc: Seq<Dice>) -> Result<
    Seq<Dice>,
    ParseErrorModel,
> {
    match st {
        Tokens::Roll => {
            if t.len() == 0 {
                Ok(acc)
            } else {
                match spec_parse_roll(t) {
                    Ok(d) => Ok(acc.push(d)),
                    Err(e) => Err(ParseErrorModel::RollParser(e)),
                }
            }
        },
        Tokens::PlusRollOrModifier => close_modifier(t, false, acc),
        Tokens::MinusModifier => close_modifier(t, true, acc),
        Tokens::Operator => Ok(acc),
    }
}

/// Rank used to show the scan terminates: closing a token moves to
/// `Operator` without consuming a character, and every other step consumes
/// one.
pub open spec fn state_rank(st: Tokens) -> int {
    if st is Operator {
        0
    } else {
        1
    }
}

/// One pass of the scanner over the remaining input `s`, in state `st`,
/// with `token` accumulated and the groups `acc` already parsed. Spaces are
/// skipped; a `d` seen after `+` reclassifies the token as a new dice
/// group, which demands a preceding group (a `+` at the very start of the
/// input introduces nothing a further term could follow); `+` or `-`
/// closes the token in progress and re-selects the following state; end of
/// input flushes the token as if a terminator were seen.
pub open spec fn scan(s: Seq<char>, st: Tokens, token: Seq<char>, acc: Seq<Dice>) -> Result<
    Seq<Dice>,
    ParseErrorModel,
>
    decreases s.len(), state_rank(st),
{
    if s.len() == 0 {
        close_token_state(st, token, acc)
    } else {
        let c = s[0];
        match st {
            Tokens::Operator => {
                if c == ' ' {
                    scan(s.drop_first(), Tokens::Operator, token, acc)
                } else if c == '+' {
                    scan(s.drop_first(), Tokens::PlusRollOrModifier, Seq::empty(), acc)
                } else if c == '-' {
                    scan(s.drop_first(), Tokens::MinusModifier, Seq::empty(), acc)
                } else {
                    // Not reachable from the initial state: the scan enters
                    // `Operator` only while looking at `+` or `-`.
                    arbitrary()
                }
            },
            _ => {
                if c == ' ' {
                    scan(s.drop_first(), st, token, acc)
                } else if st is PlusRollOrModifier && c == 'd' {
                    if acc.len() == 0 {
                        Err(ParseErrorModel::EmptyDiceForModifier)
                    } else {
                        scan(s.drop_first(), Tokens::Roll, token.push('d'), acc)
                    }
                } else if c == '+' || c == '-' {
                    match close_token_state(st, token, acc) {
                        Ok(closed) => scan(s, Tokens::Operator, Seq::empty(), closed),
                        Err(e) => Err(e),
                    }
                } else {
                    scan(s.drop_first(), st, token.push(c), acc)
                }
            },
        }
    }
}

/// What parsing a whole input yields: the scan from the start, in `Roll`
/// state, with nothing accumulated.
pub open spec fn spec_parse(s: Seq<char>) -> Result<Seq<Dice>, ParseErrorModel> {
    scan(s, Tokens::Roll, Seq::empty(), Seq::empty())
}

proof fn lemma_first_d_at(t: Seq<char>, k: int)
    requires
        0 <= k <= t.len(),
        forall|j: int| 0 <= j < k ==> t[j] != 'd',
        k == t.len() || t[k] == 'd',
    ensures
        first_d_index(t) == k,
    decreases k,
{
    if k > 0 {
        assert(t[0] != 'd');
        assert(forall|j: int| 0 <= j < k - 1 ==> t.drop_first()[j] == t[j + 1]);
        lemma_first_d_at(t.drop_first(), k - 1);
    }
}

/// Splits an `NdS` token on its first `d` and parses the two fragments.
fn parse_roll_token(token: &String) -> (r: Result<Dice, RollTokenParserErrors>)
    ensures
        match r {
            Ok(d) => spec_parse_roll(token@) == Ok::<Dice, RollTokenErrorModel>(d),
            Err(e) => spec_parse_roll(token@) == Err::<Dice, RollTokenErrorModel>(e@),
        },
{
    let s = token.as_str();
    let n = s.unicode_len();
    let mut k: usize = 0;
    while k < n && s.get_char(k) != 'd'
        invariant
            n == s@.len(),
            s@ == token@,
            k <= n,
            forall|j: int| 0 <= j < k ==> s@[j] != 'd',
        decreases n - k,
    {
        k = k + 1;
    }
    proof {
        lemma_first_d_at(token@, k as int);
    }
    let count_frag = s.substring_char(0, k);
    let sides_frag = if k < n {
        s.substring_char(k + 1, n)
    } else {
        s.substring_char(n, n)
    };
    proof {
        assert(count_frag@ =~= token@.take(k as int));
        if k < n {
            assert(sides_frag@ =~= token@.skip(k + 1));
        } else {
            assert(sides_frag@ =~= Seq::<char>::empty());
        }
    }
    let count = match parse_i32_digits(count_frag) {
        Option::Some(v) => v,
        Option::None => {
            return Err(
                RollTokenParserErrors::DiceCountParserError { token: String::from_str(count_frag) },
            );
        },
    };
    let sides = match parse_i32_digits(sides_frag) {
        Option::Some(v) => v,
        Option::None => {
            return Err(
                RollTokenParserErrors::DiceSidesParserError { token: String::from_str(sides_frag) },
            );
        },
    };
    Ok(Dice { count, sides, modifier: 0 })
}

/// Attaches a closed modifier token to the most recently parsed group.
fn attach_modifier(token: &String, negative: bool, dice: &mut Vec<Dice>) -> (r: Result<
    (),
    ParserErrors,
>)
    ensures
        match r {
            Ok(_) => close_modifier(token@, negative, old(dice)@) == Ok::<
                Seq<Dice>,
                ParseErrorModel,
            >(final(dice)@),
            Err(e) => close_modifier(token@, negative, old(dice)@) == Err::<
                Seq<Dice>,
                ParseErrorModel,
            >(e@) && final(dice)@ == old(dice)@,
        },
{
    if token.as_str().is_empty() {
        return Err(ParserErrors::EmptyModifierError);
    }
    let m = match parse_i32_digits(token.as_str()) {
        Option::Some(v) => v,
        Option::None => {
            return Err(ParserErrors::ModifierParserError { token: token.clone() });
        },
    };
    proof {
        lemma_dec_value_nonneg(token@);
        assert(m >= 0);
    }
    if m == 0 {
        return Err(ParserErrors::NoZeroModifiersError);
    }
    if dice.len() == 0 {
        return Err(ParserErrors::EmptyDiceForModifierError);
    }
    let last = dice[dice.len() - 1];
    if last.modifier != 0 {
        return Err(ParserErrors::TooManyModifiersError);
    }
    let signed: i32 = if negative {
        -m
    } else {
        m
    };
    let ghost before = dice@;
    let d = dice.pop().unwrap();
    dice.push(Dice { count: d.count, sides: d.sides, modifier: signed });
    proof {
        assert(final(dice)@ =~= before.drop_last().push(
            Dice { count: before.last().count, sides: before.last().sides, modifier: signed },
        ));
    }
    Ok(())
}

/// Closes the token in progress for the current state: flushes an `NdS`
/// token into a new group, or attaches a modifier token to the last group.
fn close_current(st: &Tokens, token: &String, dice: &mut Vec<Dice>) -> (r: Result<(), ParserErrors>)
    ensures
        match r {
            Ok(_) => close_token_state(*st, token@, old(dice)@) == Ok::<
                Seq<Dice>,
                ParseErrorModel,
            >(final(dice)@),
            Err(e) => close_token_state(*st, token@, old(dice)@) == Err::<
                Seq<Dice>,
                ParseErrorModel,
            >(e@) && final(dice)@ == old(dice)@,
        },
{
    match st {
        Tokens::Roll => {
            if token.as_str().is_empty() {
                Ok(())
            } else {
                match parse_roll_token(token) {
                    Ok(d) => {
                        dice.push(d);
                        Ok(())
                    },
                    Err(e) => Err(ParserErrors::RollParserError(e)),
                }
            }
        },
        Tokens::PlusRollOrModifier => attach_modifier(token, false, dice),
        Tokens::MinusModifier => attach_modifier(token, true, dice),
        Tokens::Operator => Ok(()),
    }
}

/// Parses a dice-notation expression into a roll request: one pass, left to
/// right, no backtracking. The result, success or error, is exactly what
/// the scan of the input's characters yields.
pub fn parse(input: String) -> (r: Result<RollRequest, ParserErrors>)
    ensures
        match r {
            Ok(req) => spec_parse(input@) == Ok::<Seq<Dice>, ParseErrorModel>(req.dice@),
            Err(e) => spec_parse(input@) == Err::<Seq<Dice>, ParseErrorModel>(e@),
        },
{
    let s = input.as_str();
    let n = s.unicode_len();
    let mut current_token_state = Tokens::Roll;
    let mut token = String::new();
    let mut dice: Vec<Dice> = Vec::new();
    let mut cursor: usize = 0;
    proof {
        assert(input@.skip(0) =~= input@);
    }
    while cursor < n
        invariant
            n == input@.len(),
            s@ == input@,
            cursor <= n,
            !(current_token_state is Operator),
            spec_parse(input@) == scan(
                input@.skip(cursor as int),
                current_token_state,
                token@,
                dice@,
            ),
        decreases n - cursor,
    {
        let c = s.get_char(cursor);
        proof {
            assert(input@.skip(cursor as int)[0] == input@[cursor as int]);
            assert(input@.skip(cursor as int).drop_first() =~= input@.skip(cursor as int + 1));
        }
        if c == ' ' {
            cursor = cursor + 1;
        } else if matches!(current_token_state, Tokens::PlusRollOrModifier) && c == 'd' {
            if dice.len() == 0 {
                return Err(ParserErrors::EmptyDiceForModifierError);
            }
            push_char(&mut token, 'd');
            current_token_state = Tokens::Roll;
            cursor = cursor + 1;
        } else if c == '+' || c == '-' {
            let ghost st0 = current_token_state;
            let ghost token0 = token@;
            let ghost dice0 = dice@;
            match close_current(&current_token_state, &token, &mut dice) {
                Ok(_) => {},
                Err(e) => {
                    proof {
                        assert(spec_parse(input@) == Err::<Seq<Dice>, ParseErrorModel>(e@));
                    }
                    return Err(e);
                },
            }
            token = String::new();
            current_token_state = if c == '+' {
                Tokens::PlusRollOrModifier
            } else {
                Tokens::MinusModifier
            };
            proof {
                let s0 = input@.skip(cursor as int);
                assert(scan(s0, st0, token0, dice0) == scan(
                    s0,
                    Tokens::Operator,
                    Seq::<char>::empty(),
                    dice@,
                ));
                assert(scan(s0, Tokens::Operator, Seq::<char>::empty(), dice@) == scan(
                    input@.skip(cursor as int + 1),
                    current_token_state,
                    token@,
                    dice@,
                ));
            }
            cursor = cursor + 1;
        } else {
            push_char(&mut token, c);
            cursor = cursor + 1;
        }
    }
    proof {
        assert(input@.skip(cursor as int) =~= Seq::<char>::empty());
    }
    match close_current(&current_token_state, &token, &mut dice) {
        Ok(_) => Ok(RollRequest { dice }),
        Err(e) => Err(e),
    }
}

/// The human-readable line for each parse error.
pub open spec fn parser_error_message(e: ParseErrorModel) -> Seq<char> {
    match e {
        ParseErrorModel::RollParser(roll) => match roll {
            RollTokenErrorModel::DiceCountParser { token } => "Invalid roll provided, "@ + token
                + ". Failed to parse dice count."@,
            RollTokenErrorModel::DiceSidesParser { token } => "Invalid roll provided, "@ + token
                + ". Failed to parse dice sides."@,
        },
        ParseErrorModel::EmptyDiceForModifier =>
        "No dice roll provided. Dice roll is in the form \"1d4\""@,
        ParseErrorModel::EmptyModifier => "Dice roll includes empty modifier."@,
        ParseErrorModel::ModifierParser { token } => "Invalid modifier provided, "@ + token + "."@,
        ParseErrorModel::TooManyModifiers =>
        "Multiple non-zero modifiers are being applied to the same dice roll."@,
        ParseErrorModel::NoZeroModifiers => "No modifiers with a value of 0."@,
    }
}

/// The stable machine-readable code for each parse error.
pub open spec fn parser_error_code(e: ParseErrorModel) -> Seq<char> {
    match e {
        ParseErrorModel::RollParser(roll) => match roll {
            RollTokenErrorModel::DiceCountParser { .. } => "DICE_COUNT_UNPARSEABLE"@,
            RollTokenErrorModel::DiceSidesParser { .. } => "DICE_SIDES_UNPARSEABLE"@,
        },
        ParseErrorModel::EmptyDiceForModifier => "MODIFIER_WITH_NO_PRECEDING_GROUP"@,
        ParseErrorModel::EmptyModifier => "EMPTY_MODIFIER"@,
        ParseErrorModel::ModifierParser { .. } => "MODIFIER_UNPARSEABLE"@,
        ParseErrorModel::TooManyModifiers => "DUPLICATE_MODIFIER_ON_GROUP"@,
        ParseErrorModel::NoZeroModifiers => "ZERO_MODIFIER"@,
    }
}

impl ParserErrors {
    /// The error's stable machine-readable code.
    pub fn code(&self) -> (r: String)
        ensures
            r@ == parser_error_code(self@),
    {
        match self {
            ParserErrors::RollParserError(roll) => match roll {
                RollTokenParserErrors::DiceCountParserError { .. } => String::from_str(
                    "DICE_COUNT_UNPARSEABLE",
                ),
                RollTokenParserErrors::DiceSidesParserError { .. } => String::from_str(
                    "DICE_SIDES_UNPARSEABLE",
                ),
            },
            ParserErrors::EmptyDiceForModifierError => String::from_str(
                "MODIFIER_WITH_NO_PRECEDING_GROUP",
            ),
            ParserErrors::EmptyModifierError => String::from_str("EMPTY_MODIFIER"),
            ParserErrors::ModifierParserError { .. } => String::from_str("MODIFIER_UNPARSEABLE"),
            ParserErrors::TooManyModifiersError => String::from_str("DUPLICATE_MODIFIER_ON_GROUP"),
            ParserErrors::NoZeroModifiersError => String::from_str("ZERO_MODIFIER"),
        }
    }

    /// The error's message.
    pub fn to_string(self) -> (r: String)
        ensures
            r@ == parser_error_message(self@),
    {
        match &self {
            ParserErrors::RollParserError(roll) => match roll {
                RollTokenParserErrors::DiceCountParserError { token } => {
                    let mut s = String::from_str("Invalid roll provided, ");
                    s.append(token.as_str());
                    s.append(". Failed to parse dice count.");
                    proof {
                        assert(s@ =~= parser_error_message(self@));
                    }
                    s
                },
                RollTokenParserErrors::DiceSidesParserError { token } => {
                    let mut s = String::from_str("Invalid roll provided, ");
                    s.append(token.as_str());
                    s.append(". Failed to parse dice sides.");
                    proof {
                        assert(s@ =~= parser_error_message(self@));
                    }
                    s
                },
            },
            ParserErrors::EmptyDiceForModifierError => {
                String::from_str("No dice roll provided. Dice roll is in the form \"1d4\"")
            },
            ParserErrors::EmptyModifierError => {
                String::from_str("Dice roll includes empty modifier.")
            },
            ParserErrors::ModifierParserError { token } => {
                let mut s = String::from_str("Invalid modifier provided, ");
                s.append(token.as_str());
                s.append(".");
                proof {
                    assert(s@ =~= parser_error_message(self@));
                }
                s
            },
            ParserErrors::TooManyModifiersError => {
                String::from_str(
                    "Multiple non-zero modifiers are being applied to the same dice roll.",
                )
            },
            ParserErrors::NoZeroModifiersError => {
                String::from_str("No modifiers with a value of 0.")
            },
        }
    }
}

} // verus!
