//! Decimal text for the numeric fields of a roll: parsing a run of digit
//! characters into an `i32`, and printing an `i32` back as decimal text.

use vstd::prelude::*;

verus! {

/// `c` is an ASCII decimal digit.
pub open spec fn is_digit_char(c: char) -> bool {
    48 <= c as u32 && c as u32 <= 57
}

/// Numeric value of a digit character.
pub open spec fn digit_val(c: char) -> int {
    c as u32 - 48
}

/// Digit character for a value below ten.
pub open spec fn digit_char(d: int) -> char {
    if d == 0 {
        '0'
    } else if d == 1 {
        '1'
    } else if d == 2 {
        '2'
    } else if d == 3 {
        '3'
    } else if d == 4 {
        '4'
    } else if d == 5 {
        '5'
    } else if d == 6 {
        '6'
    } else if d == 7 {
        '7'
    } else if d == 8 {
        '8'
    } else {
        '9'
    }
}

/// Decimal digits of a non-negative number, most significant first.
pub open spec fn dec_digits(n: int) -> Seq<char>
    recommends
        n >= 0,
    decreases n,
{
    if n < 10 {
        seq![digit_char(n)]
    } else {
        dec_digits(n / 10).push(digit_char(n % 10))
    }
}

/// Decimal text of a possibly negative number: a `-` sign, then the digits.
pub open spec fn dec_str(v: int) -> Seq<char> {
    if v < 0 {
        seq!['-'] + dec_digits(-v)
    } else {
        dec_digits(v)
    }
}

/// Every character of `s` is a decimal digit.
pub open spec fn all_digits(s: Seq<char>) -> bool {
    forall|i: int| 0 <= i < s.len() ==> is_digit_char(s[i])
}

/// Value of a digit string read in base ten.
pub open spec fn dec_value(s: Seq<char>) -> int
    decreases s.len(),
{
    if s.len() == 0 {
        0
    } else {
        dec_value(s.drop_last()) * 10 + digit_val(s.last())
    }
}

/// What parsing a fragment as an `i32` yields: the fragment must be a
/// non-empty run of digits whose value fits.
pub open spec fn spec_parse_i32(s: Seq<char>) -> Option<i32> {
    if s.len() > 0 && all_digits(s) && dec_value(s) <= i32::MAX {
        Some(dec_value(s) as i32)
    } else {
        None
    }
}

pub proof fn lemma_dec_value_nonneg(s: Seq<char>)
    requires
        all_digits(s),
    ensures
        dec_value(s) >= 0,
    decreases s.len(),
{
    if s.len() > 0 {
        assert(all_digits(s.drop_last()));
        lemma_dec_value_nonneg(s.drop_last());
        assert(is_digit_char(s.last()));
    }
}

/// Relies on `String::push`: appends exactly the given character.
#[verifier::external_body]
pub(crate) fn push_char(s: &mut String, c: char)
    ensures
        final(s)@ == old(s)@.push(c),
{
    s.push(c);
}

fn digit_char_of(d: u64) -> (c: char)
    requires
        d < 10,
    ensures
        c == digit_char(d as int),
{
    if d == 0 {
        '0'
    } else if d == 1 {
        '1'
    } else if d == 2 {
        '2'
    } else if d == 3 {
        '3'
    } else if d == 4 {
        '4'
    } else if d == 5 {
        '5'
    } else if d == 6 {
        '6'
    } else if d == 7 {
        '7'
    } else if d == 8 {
        '8'
    } else {
        '9'
    }
}

fn push_dec_u64(s: &mut String, n: u64)
    ensures
        final(s)@ == old(s)@ + dec_digits(n as int),
    decreases n,
{
    if n < 10 {
        push_char(s, digit_char_of(n));
        assert(final(s)@ =~= old(s)@ + dec_digits(n as int));
    } else {
        push_dec_u64(s, n / 10);
        push_char(s, digit_char_of(n % 10));
        assert(final(s)@ =~= old(s)@ + dec_digits(n as int));
    }
}

/// Decimal rendering of `v`, sign included.
pub(crate) fn i32_to_string(v: i32) -> (r: String)
    ensures
        r@ == dec_str(v as int),
{
    let mut s = String::new();
    if v < 0 {
        push_char(&mut s, '-');
        let m: u64 = (-(v as i64)) as u64;
        push_dec_u64(&mut s, m);
        assert(s@ =~= dec_str(v as int));
    } else {
        push_dec_u64(&mut s, v as u64);
        assert(s@ =~= dec_str(v as int));
    }
    s
}

/// Decimal rendering of the magnitude of `v`, with no sign.
pub(crate) fn i32_abs_string(v: i32) -> (r: String)
    ensures
        r@ == dec_digits(
            if v < 0 {
                -(v as int)
            } else {
                v as int
            },
        ),
{
    let m: u64 = if v < 0 {
        (-(v as i64)) as u64
    } else {
        v as u64
    };
    let mut s = String::new();
    push_dec_u64(&mut s, m);
    proof {
        assert(s@ =~= dec_digits(m as int));
    }
    s
}

/// Parses a non-empty run of ASCII digits as an `i32`; anything else, or a
/// value past `i32::MAX`, is `None`.
pub(crate) fn parse_i32_digits(s: &str) -> (r: Option<i32>)
    ensures
        r == spec_parse_i32(s@),
{
    let n = s.unicode_len();
    if n == 0 {
        return None;
    }
    let mut i: usize = 0;
    let mut acc: i32 = 0;
    let mut over: bool = false;
    while i < n
        invariant
            n == s@.len(),
            i <= n,
            forall|j: int| 0 <= j < i ==> is_digit_char(s@[j]),
            over ==> dec_value(s@.take(i as int)) > i32::MAX,
            !over ==> acc == dec_value(s@.take(i as int)) && 0 <= acc,
        decreases n - i,
    {
        let c = s.get_char(i);
        let u = c as u32;
        if u < 48 || u > 57 {
            proof {
                assert(!is_digit_char(s@[i as int]));
            }
            return None;
        }
        let d: i32 = (u - 48) as i32;
        proof {
            assert(s@.take(i + 1).drop_last() =~= s@.take(i as int));
            assert(s@.take(i + 1).last() == s@[i as int]);
            assert(dec_value(s@.take(i + 1)) == dec_value(s@.take(i as int)) * 10 + d);
        }
        if over || acc > (i32::MAX - d) / 10 {
            proof {
                if !over {
                    assert(acc * 10 + d > i32::MAX) by {
                        assert(acc >= (i32::MAX - d) / 10 + 1);
                        assert(acc * 10 >= ((i32::MAX - d) / 10 + 1) * 10) by (nonlinear_arith)
                            requires
                                acc >= (i32::MAX - d) / 10 + 1,
                        ;
                        assert(((i32::MAX - d) / 10) * 10 + 10 > i32::MAX - d);
                    };
                }
            }
            over = true;
        } else {
            proof {
                assert(acc * 10 + d <= i32::MAX) by {
                    assert(acc <= (i32::MAX - d) / 10);
                    assert(acc * 10 <= ((i32::MAX - d) / 10) * 10) by (nonlinear_arith)
                        requires
                            acc <= (i32::MAX - d) / 10,
                    ;
                    assert(((i32::MAX - d) / 10) * 10 <= i32::MAX - d);
                };
            }
            acc = acc * 10 + d;
        }
        i += 1;
    }
    proof {
        assert(s@.take(n as int) =~= s@);
    }
    if over {
        None
    } else {
        Some(acc)
    }
}

} // verus!
