//! Glob-without-anchors pattern matching: a pattern containing `*` is split
//! on the stars and matches a text when each non-empty segment occurs in the
//! text, in order, over disjoint ranges; a pattern without `*` is a plain
//! substring test. Both tests are case-insensitive at the call sites, which
//! hand in lowercased values.

use vstd::prelude::*;
use crate::text::{
    spec_contains_sub, spec_is_sub_at, spec_split, contains_sub, find_char_from, find_sub_from,
    split_chars,
};

verus! {

/// The non-empty segments of a star-separated pattern.
pub open spec fn spec_nonempty_segments(parts: Seq<Seq<char>>) -> Seq<Seq<char>>
    decreases parts.len(),
{
    if parts.len() == 0 {
        Seq::empty()
    } else if parts[0].len() > 0 {
        seq![parts[0]] + spec_nonempty_segments(parts.drop_first())
    } else {
        spec_nonempty_segments(parts.drop_first())
    }
}

/// Each segment occurs in `text`, in order, over disjoint ranges, the first
/// no earlier than `from`.
pub open spec fn spec_segs_match_from(text: Seq<char>, segs: Seq<Seq<char>>, from: int) -> bool
    decreases segs.len(),
{
    if segs.len() == 0 {
        true
    } else {
        exists|i: int|
            from <= i && spec_is_sub_at(text, segs[0], i) && spec_segs_match_from(
                text,
                segs.drop_first(),
                i + segs[0].len(),
            )
    }
}

/// The matching predicate of a rule pattern against a text value, both
/// already lowercased: star patterns match by segments, the rest by plain
/// substring occurrence.
pub open spec fn spec_glob_match(pat: Seq<char>, text: Seq<char>) -> bool {
    if pat.contains('*') {
        spec_segs_match_from(text, spec_nonempty_segments(spec_split(pat, '*')), 0)
    } else {
        spec_contains_sub(text, pat)
    }
}

/// A match that starts later also starts anywhere earlier.
proof fn lemma_segs_match_mono(text: Seq<char>, segs: Seq<Seq<char>>, i: int, j: int)
    requires
        i <= j,
        spec_segs_match_from(text, segs, j),
    ensures
        spec_segs_match_from(text, segs, i),
{
    if segs.len() > 0 {
        let w = choose|w: int|
            j <= w && spec_is_sub_at(text, segs[0], w) && spec_segs_match_from(
                text,
                segs.drop_first(),
                w + segs[0].len(),
            );
        assert(i <= w && spec_is_sub_at(text, segs[0], w) && spec_segs_match_from(
            text,
            segs.drop_first(),
            w + segs[0].len(),
        ));
    }
}

/// Taking the leftmost occurrence of the first segment loses no match.
proof fn lemma_greedy_step(text: Seq<char>, segs: Seq<Seq<char>>, from: int, i0: int)
    requires
        segs.len() > 0,
        from <= i0,
        spec_is_sub_at(text, segs[0], i0),
        forall|j: int| from <= j < i0 ==> !spec_is_sub_at(text, segs[0], j),
    ensures
        spec_segs_match_from(text, segs, from) == spec_segs_match_from(
            text,
            segs.drop_first(),
            i0 + segs[0].len(),
        ),
{
    if spec_segs_match_from(text, segs, from) {
        let w = choose|w: int|
            from <= w && spec_is_sub_at(text, segs[0], w) && spec_segs_match_from(
                text,
                segs.drop_first(),
                w + segs[0].len(),
            );
        assert(i0 <= w);
        lemma_segs_match_mono(text, segs.drop_first(), i0 + segs[0].len(), w + segs[0].len());
    }
    if spec_segs_match_from(text, segs.drop_first(), i0 + segs[0].len()) {
        assert(from <= i0 && spec_is_sub_at(text, segs[0], i0) && spec_segs_match_from(
            text,
            segs.drop_first(),
            i0 + segs[0].len(),
        ));
    }
}

proof fn lemma_filter_head(parts: Seq<Seq<char>>, k: int)
    requires
        0 <= k < parts.len(),
    ensures
        parts[k].len() > 0 ==> spec_nonempty_segments(parts.skip(k)) == seq![parts[k]]
            + spec_nonempty_segments(parts.skip(k + 1)),
        parts[k].len() == 0 ==> spec_nonempty_segments(parts.skip(k)) == spec_nonempty_segments(
            parts.skip(k + 1),
        ),
{
    let t = parts.skip(k);
    assert(t[0] == parts[k]);
    assert(t.drop_first() =~= parts.skip(k + 1));
}

/// Whether the lowercased pattern `pat` matches the lowercased text `text`:
/// by non-anchored star segments if `pat` holds a `*`, else by substring.
pub fn glob_match_chars(pat: &Vec<char>, text: &Vec<char>) -> (r: bool)
    ensures
        r == spec_glob_match(pat@, text@),
{
    match find_char_from(pat, '*', 0) {
        None => {
            proof {
                if pat@.contains('*') {
                    let i = choose|i: int| 0 <= i < pat@.len() && pat@[i] == '*';
                    assert(pat@[i] != '*');
                }
            }
            contains_sub(text, pat)
        },
        Some(star) => {
            proof {
                assert(pat@.contains('*')) by {
                    assert(pat@[star as int] == '*');
                }
            }
            let parts = split_chars(pat, '*');
            let ghost parts_v = parts@.map_values(|v: Vec<char>| v@);
            let ghost goal = spec_segs_match_from(text@, spec_nonempty_segments(parts_v), 0);
            let tn = text.len();
            let mut pos: usize = 0;
            let mut k: usize = 0;
            proof {
                assert(parts_v.skip(0) =~= parts_v);
            }
            while k < parts.len()
                invariant
                    parts_v == parts@.map_values(|v: Vec<char>| v@),
                    parts_v == spec_split(pat@, '*'),
                    pat@.contains('*'),
                    tn == text@.len(),
                    pos <= tn,
                    goal == spec_segs_match_from(text@, spec_nonempty_segments(parts_v), 0),
                    goal == spec_glob_match(pat@, text@),
                    k <= parts@.len(),
                    goal == spec_segs_match_from(
                        text@,
                        spec_nonempty_segments(parts_v.skip(k as int)),
                        pos as int,
                    ),
                decreases parts@.len() - k,
            {
                let part = &parts[k];
                proof {
                    assert(parts_v[k as int] == parts@[k as int]@);
                    lemma_filter_head(parts_v, k as int);
                }
                if part.len() == 0 {
                    k = k + 1;
                    continue;
                }
                let ghost segs = spec_nonempty_segments(parts_v.skip(k as int));
                proof {
                    assert(segs == seq![parts_v[k as int]] + spec_nonempty_segments(
                        parts_v.skip(k + 1),
                    ));
                    assert(segs[0] == part@);
                    assert(segs.drop_first() =~= spec_nonempty_segments(parts_v.skip(k + 1)));
                }
                match find_sub_from(text, part, pos) {
                    None => {
                        proof {
                            if spec_segs_match_from(text@, segs, pos as int) {
                                let w = choose|w: int|
                                    pos <= w && spec_is_sub_at(text@, segs[0], w)
                                        && spec_segs_match_from(
                                        text@,
                                        segs.drop_first(),
                                        w + segs[0].len(),
                                    );
                                assert(!spec_is_sub_at(text@, segs[0], w));
                            }
                        }
                        return false;
                    },
                    Some(i0) => {
                        proof {
                            lemma_greedy_step(text@, segs, pos as int, i0 as int);
                        }
                        pos = i0 + part.len();
                        k = k + 1;
                    },
                }
            }
            proof {
                assert(parts_v.skip(parts_v.len() as int) =~= Seq::<Seq<char>>::empty());
                assert(spec_nonempty_segments(Seq::<Seq<char>>::empty())
                    =~= Seq::<Seq<char>>::empty());
            }
            true
        },
    }
}

} // verus!
