//! Text rendering of a roll response: each draw as `(<value> of <sides>)`,
//! the fragments joined with `+`, a group's non-zero modifier appended, and
//! the grand total closing the line after `=`.

use vstd::prelude::*;

use crate::numbers::dec_digits;
use crate::numbers::dec_str;
use crate::numbers::i32_abs_string;
use crate::numbers::i32_to_string;
use crate::numbers::push_char;
use crate::request::RollResponse;
use crate::request::Rolls;

verus! {

/// The fragment for one draw: `(<value> of <sides>)`.
pub open spec fn die_frag(v: int, sides: int) -> Seq<char> {
    "("@ + dec_str(v) + " of "@ + dec_str(sides) + ")"@
}

/// The fragments for a group's modifier: nothing when it is zero, else a
/// sign fragment and the magnitude.
pub open spec fn mod_frags(m: int) -> Seq<Seq<char>> {
    if m == 0 {
        Seq::<Seq<char>>::empty()
    } else if m > 0 {
        seq!["+"@, dec_str(m)]
    } else {
        seq!["-"@, dec_digits(-m)]
    }
}

/// The fragments for a group's draws: each draw's fragment, preceded by a
/// `+` fragment whenever any fragment came before it.
pub open spec fn die_frags(vs: Seq<i32>, sides: int, started: bool) -> Seq<Seq<char>>
    decreases vs.len(),
{
    if vs.len() == 0 {
        Seq::<Seq<char>>::empty()
    } else {
        (if started {
            seq!["+"@]
        } else {
            Seq::<Seq<char>>::empty()
        }) + seq![die_frag(vs[0] as int, sides)] + die_frags(vs.drop_first(), sides, true)
    }
}

/// All fragments of one group: its draws, then its modifier.
pub open spec fn group_frags(g: Rolls, started: bool) -> Seq<Seq<char>> {
    die_frags(g.rolls@, g.sides as int, started) + mod_frags(g.modifier as int)
}

/// Whether any fragment has been rendered once this group is done.
pub open spec fn group_started(g: Rolls, started: bool) -> bool {
    started || g.rolls@.len() > 0 || g.modifier != 0
}

/// All fragments of a sequence of groups, in order.
pub open spec fn groups_frags(gs: Seq<Rolls>, started: bool) -> Seq<Seq<char>>
    decreases gs.len(),
{
    if gs.len() == 0 {
        Seq::<Seq<char>>::empty()
    } else {
        group_frags(gs[0], started) + groups_frags(gs.drop_first(), group_started(gs[0], started))
    }
}

/// Fragments joined with single spaces.
pub open spec fn join_frags(fs: Seq<Seq<char>>) -> Seq<char>
    decreases fs.len(),
{
    if fs.len() == 0 {
        Seq::<char>::empty()
    } else if fs.len() == 1 {
        fs[0]
    } else {
        fs[0] + seq![' '] + join_frags(fs.drop_first())
    }
}

/// The rendered text of a whole response: the groups' fragments, then `=`
/// and the grand total, joined with spaces.
pub open spec fn spec_render(resp: RollResponse) -> Seq<char> {
    join_frags(groups_frags(resp.rolls@, false) + seq!["="@, dec_str(resp.total as int)])
}

/// Joining one more fragment appends it after a space, unless it is the
/// first.
proof fn lemma_join_push(fs: Seq<Seq<char>>, f: Seq<char>)
    ensures
        join_frags(fs.push(f)) == (if fs.len() == 0 {
            f
        } else {
            join_frags(fs) + seq![' '] + f
        }),
    decreases fs.len(),
{
    if fs.len() == 0 {
        assert(fs.push(f).len() == 1);
        assert(fs.push(f)[0] == f);
    } else if fs.len() == 1 {
        assert(fs.push(f).drop_first() =~= Seq::<Seq<char>>::empty().push(f));
        lemma_join_push(Seq::<Seq<char>>::empty(), f);
        assert(fs.push(f)[0] == fs[0]);
    } else {
        assert(fs.push(f).drop_first() =~= fs.drop_first().push(f));
        lemma_join_push(fs.drop_first(), f);
        assert(fs.push(f)[0] == fs[0]);
        assert(join_frags(fs.push(f)) =~= join_frags(fs) + seq![' '] + f);
    }
}

/// A number's digit string is never empty.
proof fn lemma_dec_digits_len(n: int)
    ensures
        dec_digits(n).len() >= 1,
    decreases n,
{
    if n >= 10 {
        lemma_dec_digits_len(n / 10);
    }
}

/// Appends one fragment to the output, after a separating space unless it
/// is the first fragment.
fn push_sep_frag(out: &mut String, first: bool, frag: &str)
    ensures
        final(out)@ == old(out)@ + (if first {
            frag@
        } else {
            seq![' '] + frag@
        }),
{
    if !first {
        push_char(out, ' ');
    }
    out.append(frag);
    proof {
        if first {
            assert(final(out)@ =~= old(out)@ + frag@);
        } else {
            assert(final(out)@ =~= old(out)@ + (seq![' '] + frag@));
        }
    }
}

impl RollResponse {
    /// Renders the response as one line of text: every draw as
    /// `(<value> of <sides>)` joined by `+`, each non-zero modifier
    /// appended with its sign, and `= <grand total>` at the end.
    pub fn to_string(self) -> (r: String)
        ensures
            r@ == spec_render(self),
    {
        let mut out = String::new();
        let mut first: bool = true;
        let ghost mut frs: Seq<Seq<char>> = Seq::<Seq<char>>::empty();
        let mut i: usize = 0;
        proof {
            assert(self.rolls@.skip(0) =~= self.rolls@);
        }
        while i < self.rolls.len()
            invariant
                i <= self.rolls@.len(),
                out@ == join_frags(frs),
                first == (frs.len() == 0),
                groups_frags(self.rolls@, false) == frs + groups_frags(
                    self.rolls@.skip(i as int),
                    frs.len() != 0,
                ),
            decreases self.rolls@.len() - i,
        {
            let ghost gd = self.rolls@[i as int];
            let ghost st_g = frs.len() != 0;
            proof {
                assert(self.rolls@.skip(i as int)[0] == gd);
                assert(self.rolls@.skip(i as int).drop_first() =~= self.rolls@.skip(i as int + 1));
                assert(gd.rolls@.skip(0) =~= gd.rolls@);
            }
            let sides = self.rolls[i].sides;
            let mut j: usize = 0;
            while j < self.rolls[i].rolls.len()
                invariant
                    i < self.rolls@.len(),
                    gd == self.rolls@[i as int],
                    sides == gd.sides,
                    st_g ==> frs.len() != 0,
                    j <= gd.rolls@.len(),
                    out@ == join_frags(frs),
                    first == (frs.len() == 0),
                    (frs.len() != 0) == (st_g || j > 0),
                    groups_frags(self.rolls@, false) == frs + die_frags(
                        gd.rolls@.skip(j as int),
                        gd.sides as int,
                        frs.len() != 0,
                    ) + mod_frags(gd.modifier as int) + groups_frags(
                        self.rolls@.skip(i as int + 1),
                        group_started(gd, st_g),
                    ),
                decreases gd.rolls@.len() - j,
            {
                let v = self.rolls[i].rolls[j];
                let mut frag = String::from_str("(");
                let vs = i32_to_string(v);
                frag.append(vs.as_str());
                frag.append(" of ");
                let ss = i32_to_string(sides);
                frag.append(ss.as_str());
                frag.append(")");
                proof {
                    assert(frag@ =~= die_frag(v as int, gd.sides as int));
                    assert(gd.rolls@.skip(j as int)[0] == gd.rolls@[j as int]);
                    assert(gd.rolls@.skip(j as int).drop_first() =~= gd.rolls@.skip(j as int + 1));
                }
                let ghost frs0 = frs;
                if !first {
                    push_sep_frag(&mut out, false, "+");
                    proof {
                        lemma_join_push(frs, "+"@);
                        frs = frs.push("+"@);
                    }
                }
                push_sep_frag(&mut out, first, frag.as_str());
                proof {
                    lemma_join_push(frs, frag@);
                    frs = frs.push(frag@);
                    if frs0.len() != 0 {
                        assert(frs =~= frs0 + seq!["+"@, die_frag(
                            gd.rolls@[j as int] as int,
                            gd.sides as int,
                        )]);
                    } else {
                        assert(frs =~= frs0 + seq![die_frag(
                            gd.rolls@[j as int] as int,
                            gd.sides as int,
                        )]);
                    }
                    assert(frs + die_frags(gd.rolls@.skip(j as int + 1), gd.sides as int, true)
                        =~= frs0 + die_frags(gd.rolls@.skip(j as int), gd.sides as int, frs0.len() != 0));
                }
                first = false;
                j = j + 1;
            }
            let m = self.rolls[i].modifier;
            proof {
                assert(gd.rolls@.skip(j as int) =~= Seq::<i32>::empty());
                assert(die_frags(gd.rolls@.skip(j as int), gd.sides as int, frs.len() != 0)
                    =~= Seq::<Seq<char>>::empty());
            }
            if m != 0 {
                let ghost frs1 = frs;
                if m > 0 {
                    push_sep_frag(&mut out, first, "+");
                    proof {
                        lemma_join_push(frs, "+"@);
                        frs = frs.push("+"@);
                    }
                    let ms = i32_to_string(m);
                    push_sep_frag(&mut out, false, ms.as_str());
                    proof {
                        lemma_join_push(frs, ms@);
                        frs = frs.push(ms@);
                        assert(frs =~= frs1 + mod_frags(gd.modifier as int));
                    }
                } else {
                    push_sep_frag(&mut out, first, "-");
                    proof {
                        lemma_join_push(frs, "-"@);
                        frs = frs.push("-"@);
                    }
                    let ms = i32_abs_string(m);
                    push_sep_frag(&mut out, false, ms.as_str());
                    proof {
                        lemma_join_push(frs, ms@);
                        frs = frs.push(ms@);
                        assert(frs =~= frs1 + mod_frags(gd.modifier as int));
                    }
                }
                first = false;
            }
            proof {
                assert((frs.len() != 0) == group_started(gd, st_g));
            }
            i = i + 1;
        }
        proof {
            assert(self.rolls@.skip(i as int) =~= Seq::<Rolls>::empty());
            assert(groups_frags(self.rolls@, false) == frs);
        }
        push_sep_frag(&mut out, first, "=");
        proof {
            lemma_join_push(frs, "="@);
            frs = frs.push("="@);
        }
        let ts = i32_to_string(self.total);
        push_sep_frag(&mut out, false, ts.as_str());
        proof {
            lemma_join_push(frs, ts@);
            frs = frs.push(ts@);
            assert(frs =~= groups_frags(self.rolls@, false) + seq!["="@, dec_str(
                self.total as int,
            )]);
        }
        out
    }
}

/// The rendered text of any response ends with `= <grand total>`: an `=`
/// fragment, a space, and the decimal grand total close the line.
pub proof fn lemma_render_ends_with_total(resp: RollResponse)
    ensures
        spec_render(resp).len() >= dec_str(resp.total as int).len() + 2,
        spec_render(resp).skip(
            spec_render(resp).len() - dec_str(resp.total as int).len() - 2,
        ) == seq!['=', ' '] + dec_str(resp.total as int),
{
    let fs = groups_frags(resp.rolls@, false);
    let t = dec_str(resp.total as int);
    assert(fs + seq!["="@, t] =~= fs.push("="@).push(t));
    lemma_join_push(fs, "="@);
    lemma_join_push(fs.push("="@), t);
    lemma_dec_digits_len(
        if resp.total < 0 {
            -(resp.total as int)
        } else {
            resp.total as int
        },
    );
    reveal_strlit("=");
    assert("="@ =~= seq!['=']);
    if fs.len() == 0 {
        assert(spec_render(resp) == "="@ + seq![' '] + t);
        assert(spec_render(resp).skip(0) =~= seq!['=', ' '] + t);
    } else {
        assert(spec_render(resp) == (join_frags(fs) + seq![' '] + "="@) + seq![' '] + t);
        assert(spec_render(resp).skip(spec_render(resp).len() - t.len() - 2) =~= seq!['=', ' ']
            + t);
    }
}

} // verus!
