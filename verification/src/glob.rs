//! Anchored glob matching with `*` wildcards, as workflow `matches` case
//! patterns use it.
use vstd::prelude::*;
use crate::text::{chars_eq, chars_match_at, chars_of, has_prefix, has_suffix, lemma_split_on_props, split_chars, split_on};

verus! {

/// `m` occurs in `s` at position `q`.
pub open spec fn occurs_at(s: Seq<char>, q: int, m: Seq<char>) -> bool {
    0 <= q && q + m.len() <= s.len() && s.subrange(q, q + m.len()) == m
}

/// The pieces `ms` occur in `s` in order, without overlapping, all within
/// `s[a..b]`.
pub open spec fn placeable(s: Seq<char>, a: int, b: int, ms: Seq<Seq<char>>) -> bool
    decreases ms.len(),
{
    if ms.len() == 0 {
        a <= b
    } else {
        exists|q: int|
            a <= q && q + ms[0].len() <= b && #[trigger] occurs_at(s, q, ms[0]) && placeable(
                s,
                q + ms[0].len(),
                b,
                ms.drop_first(),
            )
    }
}

/// `s` matches the glob `p`, where `*` stands for any run of characters and
/// everything else for itself: without a `*` the two are equal; otherwise
/// `s` starts with the piece before the first `*`, ends with the piece after
/// the last one, and holds the pieces in between in order, in between.
pub open spec fn glob_matches(p: Seq<char>, s: Seq<char>) -> bool {
    let segs = split_on(p, seq!['*']);
    if segs.len() == 1 {
        s == p
    } else {
        let pre = segs[0];
        let post = segs.last();
        &&& has_prefix(s, pre)
        &&& has_suffix(s, post)
        &&& placeable(s, pre.len() as int, s.len() - post.len(), segs.subrange(1, segs.len() - 1))
    }
}

/// Starting further left never hurts a placement.
pub proof fn lemma_placeable_monotone(s: Seq<char>, a1: int, a2: int, b: int, ms: Seq<Seq<char>>)
    requires
        a1 <= a2,
        placeable(s, a2, b, ms),
    ensures
        placeable(s, a1, b, ms),
{
    if ms.len() > 0 {
        let q = choose|q: int|
            a2 <= q && q + ms[0].len() <= b && #[trigger] occurs_at(s, q, ms[0]) && placeable(
                s,
                q + ms[0].len(),
                b,
                ms.drop_first(),
            );
        assert(a1 <= q && q + ms[0].len() <= b && occurs_at(s, q, ms[0]) && placeable(
            s,
            q + ms[0].len(),
            b,
            ms.drop_first(),
        ));
    }
}

/// Placing the first piece at its leftmost occurrence is as good as any
/// other choice.
pub proof fn lemma_placeable_greedy(s: Seq<char>, a: int, b: int, ms: Seq<Seq<char>>, q: int)
    requires
        ms.len() > 0,
        a <= q,
        occurs_at(s, q, ms[0]),
        forall|r: int| a <= r < q ==> !occurs_at(s, r, ms[0]),
    ensures
        placeable(s, a, b, ms) == (q + ms[0].len() <= b && placeable(
            s,
            q + ms[0].len(),
            b,
            ms.drop_first(),
        )),
{
    if placeable(s, a, b, ms) {
        let r = choose|r: int|
            a <= r && r + ms[0].len() <= b && #[trigger] occurs_at(s, r, ms[0]) && placeable(
                s,
                r + ms[0].len(),
                b,
                ms.drop_first(),
            );
        assert(r >= q);
        lemma_placeable_monotone(s, q + ms[0].len(), r + ms[0].len(), b, ms.drop_first());
    }
}

/// Without any occurrence of the first piece there is no placement.
pub proof fn lemma_placeable_none(s: Seq<char>, a: int, b: int, ms: Seq<Seq<char>>)
    requires
        ms.len() > 0,
        b <= s.len(),
        forall|r: int| a <= r ==> !occurs_at(s, r, ms[0]),
    ensures
        !placeable(s, a, b, ms),
{
}

/// The leftmost occurrence of `m` in `s` at or after `from`.
pub fn find_from(s: &Vec<char>, from: usize, m: &Vec<char>) -> (r: Option<usize>)
    requires
        from <= s.len(),
    ensures
        r matches Some(q) ==> from <= q && occurs_at(s@, q as int, m@) && forall|x: int|
            from <= x < q ==> !occurs_at(s@, x, m@),
        r is None ==> forall|x: int| from <= x ==> !occurs_at(s@, x, m@),
{
    let mut q = from;
    while q < s.len()
        invariant
            from <= q <= s.len(),
            forall|x: int| from <= x < q ==> !occurs_at(s@, x, m@),
        decreases s.len() - q,
    {
        if chars_match_at(s, q, m) {
            return Some(q);
        }
        q += 1;
    }
    if chars_match_at(s, q, m) {
        return Some(q);
    }
    None
}

/// Whether `actual` matches `pattern`, where `*` matches any run of
/// characters; a pattern without `*` must equal the text.
pub fn simple_glob_matches(pattern: &str, actual: &str) -> (r: bool)
    ensures
        r == glob_matches(pattern@, actual@),
{
    let p = chars_of(pattern);
    let s = chars_of(actual);
    let star = vec!['*'];
    let segs = split_chars(&p, &star);
    assert(star@ =~= seq!['*']);
    let ghost sv = segs@.map_values(|v: Vec<char>| v@);
    proof {
        lemma_split_on_props(p@, seq!['*']);
    }
    if segs.len() == 1 {
        return chars_eq(&p, &s);
    }
    let pre = &segs[0];
    let post = &segs[segs.len() - 1];
    assert(sv[0] == pre@ && sv.last() == post@);
    if !chars_match_at(&s, 0, pre) {
        assert(!has_prefix(s@, sv[0]));
        return false;
    }
    let ghost bound = s@.len() - post@.len();
    let ghost mids = sv.subrange(1, sv.len() - 1);
    let mut position = pre.len();
    let mut i: usize = 1;
    while i + 1 < segs.len()
        invariant
            segs@.map_values(|v: Vec<char>| v@) == sv,
            sv == split_on(p@, seq!['*']),
            p@ == pattern@,
            s@ == actual@,
            has_prefix(s@, sv[0]),
            bound == s@.len() - sv.last().len(),
            sv.len() >= 2,
            1 <= i <= sv.len() - 1,
            mids == sv.subrange(1, sv.len() - 1),
            position <= s.len(),
            placeable(s@, sv[0].len() as int, bound, mids) == placeable(
                s@,
                position as int,
                bound,
                sv.subrange(i as int, sv.len() - 1),
            ),
            bound <= s@.len(),
        decreases segs.len() - i,
    {
        let part = &segs[i];
        assert(sv[i as int] == part@);
        let ghost rest = sv.subrange(i as int, sv.len() - 1);
        assert(rest[0] == part@);
        assert(rest.drop_first() =~= sv.subrange(i + 1, sv.len() - 1));
        match find_from(&s, position, part) {
            None => {
                proof {
                    lemma_placeable_none(s@, position as int, bound, rest);
                }
                assert(!placeable(s@, position as int, bound, rest));
                assert(!placeable(s@, sv[0].len() as int, bound, mids));
                return false;
            },
            Some(q) => {
                proof {
                    lemma_placeable_greedy(s@, position as int, bound, rest, q as int);
                }
                position = q + part.len();
            },
        }
        i += 1;
    }
    assert(sv.subrange(i as int, sv.len() - 1).len() == 0);
    if post.len() == 0 {
        assert(has_suffix(s@, post@)) by {
            assert(s@.subrange(s@.len() as int, s@.len() as int) =~= post@);
        }
        return true;
    }
    match find_from(&s, position, post) {
        None => {
            proof {
                if has_suffix(s@, post@) && position <= bound {
                    assert(occurs_at(s@, bound, post@));
                }
            }
            false
        },
        Some(q) => {
            let ends = post.len() <= s.len() && chars_match_at(&s, s.len() - post.len(), post);
            proof {
                if ends {
                    assert(q + post@.len() <= s@.len());
                }
            }
            ends
        },
    }
}

} // verus!
