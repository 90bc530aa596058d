//! Exact string-replace edits of a file's text: each edit's old text must
//! occur exactly once in the current text and may not touch a region an
//! earlier edit wrote.
use vstd::prelude::*;
use crate::glob::{find_from, occurs_at};
use crate::json::Json;
use crate::text::{chars_of, decimal, string_from_chars, u64_to_decimal};

verus! {

/// The leftmost occurrence of a non-empty `m` in `s` at or after `from`.
pub open spec fn first_occurrence(s: Seq<char>, m: Seq<char>, from: int) -> Option<int> {
    if exists|q: int| from <= q && #[trigger] occurs_at(s, q, m) {
        Some(
            choose|q: int|
                from <= q && #[trigger] occurs_at(s, q, m) && forall|x: int| from <= x < q ==> !occurs_at(s, x, m),
        )
    } else {
        None
    }
}

/// The leftmost occurrence found by a scan is the first occurrence.
pub proof fn lemma_first_occurrence(s: Seq<char>, m: Seq<char>, from: int, q: int)
    requires
        from <= q,
        occurs_at(s, q, m),
        forall|x: int| from <= x < q ==> !occurs_at(s, x, m),
    ensures
        first_occurrence(s, m, from) == Some(q),
{
    let c = choose|c: int|
        from <= c && #[trigger] occurs_at(s, c, m) && forall|x: int| from <= x < c ==> !occurs_at(s, x, m);
    assert(from <= q && occurs_at(s, q, m) && forall|x: int| from <= x < q ==> !occurs_at(s, x, m));
    if c < q {
        assert(!occurs_at(s, c, m));
    }
    if q < c {
        assert(!occurs_at(s, q, m));
    }
}

/// How many times a non-empty `m` occurs in `s` from `from` on, counting
/// occurrences left to right without overlap (`str::matches`).
pub open spec fn match_count(s: Seq<char>, m: Seq<char>, from: int) -> nat
    decreases s.len() - from,
{
    if m.len() == 0 || from < 0 || from > s.len() {
        0
    } else {
        match first_occurrence(s, m, from) {
            Some(q) => if from < q + m.len() <= s.len() {
                1 + match_count(s, m, q + m.len())
            } else {
                0
            },
            None => 0,
        }
    }
}

/// Counts the occurrences of `m` in `s`, without overlap, and finds the
/// first.
fn count_matches(s: &Vec<char>, m: &Vec<char>) -> (r: (u64, Option<usize>))
    requires
        m.len() > 0,
    ensures
        r.0 == match_count(s@, m@, 0),
        match r.1 {
            Some(q) => first_occurrence(s@, m@, 0) == Some(q as int),
            None => first_occurrence(s@, m@, 0) is None,
        },
{
    let first = find_from(s, 0, m);
    proof {
        match first {
            Some(q) => lemma_first_occurrence(s@, m@, 0, q as int),
            None => {},
        }
    }
    let mut count: u64 = 0;
    let mut from: usize = 0;
    let mut done = false;
    while !done
        invariant
            m.len() > 0,
            from <= s.len(),
            count <= from,
            !done ==> match_count(s@, m@, 0) == count + match_count(s@, m@, from as int),
            done ==> match_count(s@, m@, 0) == count,
        decreases s.len() - from + (if done {
            0int
        } else {
            1int
        }),
    {
        match find_from(s, from, m) {
            Some(q) => {
                proof {
                    lemma_first_occurrence(s@, m@, from as int, q as int);
                }
                count = count + 1;
                from = q + m.len();
            },
            None => {
                done = true;
            },
        }
    }
    (count, first)
}

/// An edit's string member `key`.
pub open spec fn edit_text(edit: Json, key: Seq<char>) -> Option<Seq<char>> {
    match edit.get_spec(key) {
        Some(v) => v.str_spec(),
        None => None,
    }
}

/// What the edits have done so far: the text, the regions they wrote
/// (with the index of the edit that wrote each), and how many applied.
pub struct EditState {
    pub content: Seq<char>,
    pub regions: Seq<(int, int, int)>,
    pub applied: nat,
}

/// The first region (in order) that `[start, end)` overlaps.
pub open spec fn first_overlap(regions: Seq<(int, int, int)>, start: int, end: int) -> Option<int>
    decreases regions.len(),
{
    if regions.len() == 0 {
        None
    } else {
        match first_overlap(regions.drop_last(), start, end) {
            Some(i) => Some(i),
            None => {
                let r = regions.last();
                if start < r.2 && r.1 < end {
                    Some(regions.len() - 1)
                } else {
                    None
                }
            },
        }
    }
}

/// A region after the splice point moves by the change in length.
pub open spec fn shifted(r: (int, int, int), end: int, delta: int) -> (int, int, int) {
    if r.1 >= end {
        (r.0, r.1 + delta, r.2 + delta)
    } else {
        r
    }
}

/// `"edit "` index rest.
pub open spec fn edit_message(k: nat, rest: Seq<char>) -> Seq<char> {
    "edit "@ + decimal(k) + rest
}

/// Edit `k` applied to the state of the file at `path`.
#[verifier::opaque]
pub open spec fn apply_edit(st: EditState, k: nat, edit: Json, path: Seq<char>) -> Result<EditState, Seq<char>> {
    match edit_text(edit, "oldText"@) {
        None => Err("missing required string argument `oldText`"@),
        Some(old) => match edit_text(edit, "newText"@) {
            None => Err("missing required string argument `newText`"@),
            Some(new) => if old.len() == 0 {
                Err(edit_message(k, ": oldText must not be empty"@))
            } else {
                let count = match_count(st.content, old, 0);
                if count == 0 {
                    Err(edit_message(k, ": oldText not found in `"@ + path + "`"@))
                } else if count > 1 {
                    Err(edit_message(k, ": oldText matches "@ + decimal(count) + " times in `"@ + path + "`; make it unique"@))
                } else {
                    let start = first_occurrence(st.content, old, 0)->0;
                    let end = start + old.len();
                    match first_overlap(st.regions, start, end) {
                        Some(i) => Err(
                            "edit "@ + decimal(st.regions[i].0 as nat) + " and edit "@ + decimal(k) + " overlap in `"@
                                + path + "`; merge them into one edit or target disjoint regions"@,
                        ),
                        None => Ok(
                            EditState {
                                content: st.content.subrange(0, start) + new + st.content.subrange(end, st.content.len() as int),
                                regions: st.regions.map_values(|r: (int, int, int)| shifted(r, end, new.len() - old.len())).push(
                                    (k as int, start, start + new.len()),
                                ),
                                applied: st.applied + 1,
                            },
                        ),
                    }
                }
            },
        },
    }
}

/// The edits applied in order; the first failure ends them.
pub open spec fn apply_edits_spec(edits: Seq<Json>, st: EditState, path: Seq<char>) -> Result<EditState, Seq<char>>
    decreases edits.len(),
{
    if edits.len() == 0 {
        Ok(st)
    } else {
        match apply_edits_spec(edits.drop_last(), st, path) {
            Err(e) => Err(e),
            Ok(s2) => apply_edit(s2, (edits.len() - 1) as nat, edits.last(), path),
        }
    }
}

/// The byte order mark.
pub open spec fn bom() -> char {
    '\u{feff}'
}

/// A file's text without its byte order mark, if it has one.
pub open spec fn without_bom(text: Seq<char>) -> Seq<char> {
    if text.len() > 0 && text[0] == bom() {
        text.drop_first()
    } else {
        text
    }
}

/// The text the edits leave, with the byte order mark the file had put
/// back, and the report of how many applied.
pub open spec fn edit_file_spec(text: Seq<char>, edits: Seq<Json>, path: Seq<char>) -> Result<(Seq<char>, Seq<char>), Seq<char>> {
    let had_bom = text.len() > 0 && text[0] == bom();
    match apply_edits_spec(edits, EditState { content: without_bom(text), regions: Seq::empty(), applied: 0 }, path) {
        Err(e) => Err(e),
        Ok(st) => Ok(
            (
                if had_bom {
                    seq![bom()] + st.content
                } else {
                    st.content
                },
                "applied "@ + decimal(st.applied) + " edit(s) to "@ + path,
            ),
        ),
    }
}

/// The view of the recorded regions.
pub open spec fn regions_view(v: Seq<(usize, usize, usize)>) -> Seq<(int, int, int)> {
    v.map_values(|r: (usize, usize, usize)| (r.0 as int, r.1 as int, r.2 as int))
}

/// Every region lies within a text of length `len`.
pub open spec fn regions_within(v: Seq<(usize, usize, usize)>, len: int) -> bool {
    forall|i: int| 0 <= i < v.len() ==> (#[trigger] v[i]).1 <= v[i].2 <= len
}

fn edit_error(k: usize, rest: &str) -> (r: String)
    ensures
        r@ == edit_message(k as nat, rest@),
{
    let mut m = "edit ".to_owned();
    let digits = u64_to_decimal(k as u64);
    m.append(digits.as_str());
    m.append(rest);
    m
}

/// The first recorded region `[start, end)` overlaps.
fn find_overlap(regions: &Vec<(usize, usize, usize)>, start: usize, end: usize) -> (r: Option<usize>)
    ensures
        match r {
            Some(i) => i < regions.len() && first_overlap(regions_view(regions@), start as int, end as int) == Some(i as int),
            None => first_overlap(regions_view(regions@), start as int, end as int) is None,
        },
{
    let ghost rv = regions_view(regions@);
    let mut i: usize = 0;
    while i < regions.len()
        invariant
            i <= regions.len(),
            rv == regions_view(regions@),
            first_overlap(rv.subrange(0, i as int), start as int, end as int) is None,
        decreases regions.len() - i,
    {
        proof {
            assert(rv.subrange(0, i + 1).drop_last() =~= rv.subrange(0, i as int));
        }
        if start < regions[i].2 && regions[i].1 < end {
            proof {
                lemma_first_overlap_prefix(rv, start as int, end as int, i as int);
            }
            return Some(i);
        }
        i += 1;
    }
    assert(rv.subrange(0, regions.len() as int) =~= rv);
    None
}

proof fn lemma_first_overlap_prefix(rv: Seq<(int, int, int)>, start: int, end: int, i: int)
    requires
        0 <= i < rv.len(),
        first_overlap(rv.subrange(0, i + 1), start, end) == Some(i),
    ensures
        first_overlap(rv, start, end) == Some(i),
    decreases rv.len() - i,
{
    lemma_first_overlap_grow(rv, start, end, i, rv.len() - 1);
    assert(rv.subrange(0, rv.len() as int) =~= rv);
}

proof fn lemma_first_overlap_grow(rv: Seq<(int, int, int)>, start: int, end: int, i: int, m: int)
    requires
        0 <= i <= m < rv.len(),
        first_overlap(rv.subrange(0, i + 1), start, end) == Some(i),
    ensures
        first_overlap(rv.subrange(0, m + 1), start, end) == Some(i),
    decreases m - i,
{
    if m > i {
        lemma_first_overlap_grow(rv, start, end, i, m - 1);
        assert(rv.subrange(0, m + 1).drop_last() =~= rv.subrange(0, m));
    }
}

/// Applies edit `k` to the text and the recorded regions.
fn apply_one(
    content: &mut Vec<char>,
    regions: &mut Vec<(usize, usize, usize)>,
    applied: &mut u64,
    k: usize,
    edit: &Json,
    path: &str,
) -> (r: Result<(), String>)
    requires
        regions_within(old(regions)@, old(content)@.len() as int),
        *old(applied) <= k,
        k < u64::MAX,
    ensures
        match apply_edit(
            EditState { content: old(content)@, regions: regions_view(old(regions)@), applied: *old(applied) as nat },
            k as nat,
            *edit,
            path@,
        ) {
            Ok(st) => r is Ok && st == (EditState {
                content: final(content)@,
                regions: regions_view(final(regions)@),
                applied: *final(applied) as nat,
            }) && regions_within(final(regions)@, final(content)@.len() as int) && *final(applied) <= k + 1,
            Err(e) => r matches Err(m) && m@ == e,
        },
{
    reveal(apply_edit);
    let old_text = match edit.get("oldText") {
        Some(v) => match v.as_str() {
            Some(s) => s,
            None => {
                return Err("missing required string argument `oldText`".to_owned());
            },
        },
        None => {
            return Err("missing required string argument `oldText`".to_owned());
        },
    };
    let new_text = match edit.get("newText") {
        Some(v) => match v.as_str() {
            Some(s) => s,
            None => {
                return Err("missing required string argument `newText`".to_owned());
            },
        },
        None => {
            return Err("missing required string argument `newText`".to_owned());
        },
    };
    let old_chars = chars_of(old_text);
    let new_chars = chars_of(new_text);
    if old_chars.len() == 0 {
        return Err(edit_error(k, ": oldText must not be empty"));
    }
    let (count, first) = count_matches(content, &old_chars);
    if count == 0 {
        let mut rest = ": oldText not found in `".to_owned();
        rest.append(path);
        rest.append("`");
        return Err(edit_error(k, rest.as_str()));
    }
    if count > 1 {
        let mut rest = ": oldText matches ".to_owned();
        let digits = u64_to_decimal(count);
        rest.append(digits.as_str());
        rest.append(" times in `");
        rest.append(path);
        rest.append("`; make it unique");
        return Err(edit_error(k, rest.as_str()));
    }
    let start = match first {
        Some(q) => q,
        None => {
            proof {
                lemma_first_occurrence_occurs(content@, old_chars@, 0);
            }
            return Err(edit_error(k, ": oldText not found in `"));
        },
    };
    proof {
        lemma_first_occurrence_occurs(content@, old_chars@, 0);
        assert(first_occurrence(content@, old_chars@, 0) == Some(start as int));
        assert(occurs_at(content@, start as int, old_chars@));
        assert(start + old_chars@.len() <= content@.len());
        assert(old_chars@.len() == old_chars.len());
        assert(content@.len() == content.len());
    }
    let end = start + old_chars.len();
    match find_overlap(regions, start, end) {
        Some(i) => {
            let mut m = "edit ".to_owned();
            let earlier = u64_to_decimal(regions[i].0 as u64);
            m.append(earlier.as_str());
            m.append(" and edit ");
            let digits = u64_to_decimal(k as u64);
            m.append(digits.as_str());
            m.append(" overlap in `");
            m.append(path);
            m.append("`; merge them into one edit or target disjoint regions");
            return Err(m);
        },
        None => {},
    }
    let spliced = splice(content, start, end, &new_chars);
    let shifted_regions = shift_regions(regions, start, end, old_chars.len(), new_chars.len(), k, content.len(), spliced.len());
    proof {
        assert(spliced@ == content@.subrange(0, start as int) + new_chars@ + content@.subrange(end as int, content@.len() as int));
    }
    *content = spliced;
    *regions = shifted_regions;
    *applied = *applied + 1;
    Ok(())
}

/// What the first occurrence is: an occurrence, with none before it; or
/// there is none.
pub proof fn lemma_first_occurrence_occurs(s: Seq<char>, m: Seq<char>, from: int)
    ensures
        match first_occurrence(s, m, from) {
            Some(q) => from <= q && occurs_at(s, q, m) && forall|x: int| from <= x < q ==> !occurs_at(s, x, m),
            None => forall|q: int| from <= q ==> !#[trigger] occurs_at(s, q, m),
        },
{
    if exists|q: int| from <= q && #[trigger] occurs_at(s, q, m) {
        let q0 = choose|q: int| from <= q && #[trigger] occurs_at(s, q, m);
        lemma_minimal_occurrence(s, m, from, q0);
    }
}

/// Where `m` occurs at or after `from`, it occurs first somewhere.
proof fn lemma_minimal_occurrence(s: Seq<char>, m: Seq<char>, from: int, q0: int)
    requires
        from <= q0,
        occurs_at(s, q0, m),
    ensures
        exists|q: int| from <= q && #[trigger] occurs_at(s, q, m) && forall|x: int| from <= x < q ==> !occurs_at(s, x, m),
    decreases q0 - from,
{
    if exists|x: int| from <= x < q0 && #[trigger] occurs_at(s, x, m) {
        let x = choose|x: int| from <= x < q0 && #[trigger] occurs_at(s, x, m);
        lemma_minimal_occurrence(s, m, from, x);
    } else {
        assert(from <= q0 && occurs_at(s, q0, m) && forall|x: int| from <= x < q0 ==> !occurs_at(s, x, m));
    }
}

/// `content` with `[start, end)` replaced by `new`.
fn splice(content: &Vec<char>, start: usize, end: usize, new: &Vec<char>) -> (r: Vec<char>)
    requires
        start <= end <= content.len(),
    ensures
        r@ == content@.subrange(0, start as int) + new@ + content@.subrange(end as int, content@.len() as int),
{
    let mut spliced: Vec<char> = Vec::new();
    let mut i: usize = 0;
    while i < start
        invariant
            i <= start <= end <= content.len(),
            spliced@ == content@.subrange(0, i as int),
        decreases start - i,
    {
        spliced.push(content[i]);
        i += 1;
        assert(spliced@ =~= content@.subrange(0, i as int));
    }
    let mut j: usize = 0;
    while j < new.len()
        invariant
            j <= new.len(),
            spliced@ == content@.subrange(0, start as int) + new@.subrange(0, j as int),
        decreases new.len() - j,
    {
        spliced.push(new[j]);
        j += 1;
        assert(spliced@ =~= content@.subrange(0, start as int) + new@.subrange(0, j as int));
    }
    assert(new@.subrange(0, new@.len() as int) =~= new@);
    let mut e: usize = end;
    while e < content.len()
        invariant
            end <= e <= content.len(),
            spliced@ == content@.subrange(0, start as int) + new@ + content@.subrange(end as int, e as int),
        decreases content.len() - e,
    {
        spliced.push(content[e]);
        e += 1;
        assert(spliced@ =~= content@.subrange(0, start as int) + new@ + content@.subrange(end as int, e as int));
    }
    spliced
}

/// The regions after a splice of `[start, end)` (of length `old_len`) by
/// `new_len` characters: those after it shifted, then the new region of
/// edit `k`.
fn shift_regions(
    regions: &Vec<(usize, usize, usize)>,
    start: usize,
    end: usize,
    old_len: usize,
    new_len: usize,
    k: usize,
    len: usize,
    spliced_len: usize,
) -> (r: Vec<(usize, usize, usize)>)
    requires
        end == start + old_len,
        end <= len,
        spliced_len == len - old_len + new_len,
        regions_within(regions@, len as int),
        first_overlap(regions_view(regions@), start as int, end as int) is None,
    ensures
        regions_view(r@) == regions_view(regions@).map_values(
            |x: (int, int, int)| shifted(x, end as int, new_len - old_len),
        ).push((k as int, start as int, start + new_len)),
        regions_within(r@, spliced_len as int),
{
    let ghost delta: int = new_len - old_len;
    let ghost rv = regions_view(regions@);
    let mut out: Vec<(usize, usize, usize)> = Vec::new();
    let mut t: usize = 0;
    while t < regions.len()
        invariant
            t <= regions.len(),
            rv == regions_view(regions@),
            regions_within(regions@, len as int),
            first_overlap(rv, start as int, end as int) is None,
            end == start + old_len,
            end <= len,
            spliced_len == len - old_len + new_len,
            delta == new_len - old_len,
            out.len() == t,
            forall|x: int| 0 <= x < t ==> #[trigger] regions_view(out@)[x] == shifted(rv[x], end as int, delta),
            regions_within(out@, spliced_len as int),
        decreases regions.len() - t,
    {
        let r = regions[t];
        proof {
            lemma_no_overlap_at(rv, start as int, end as int, t as int);
            assert(rv[t as int] == (r.0 as int, r.1 as int, r.2 as int));
        }
        let moved = if r.1 >= end {
            if new_len >= old_len {
                let d = new_len - old_len;
                (r.0, r.1 + d, r.2 + d)
            } else {
                let d = old_len - new_len;
                (r.0, r.1 - d, r.2 - d)
            }
        } else {
            r
        };
        let ghost before = out@;
        out.push(moved);
        proof {
            assert forall|x: int| 0 <= x < t + 1 implies #[trigger] regions_view(out@)[x] == shifted(rv[x], end as int, delta) by {
                if x < t {
                    assert(out@[x] == before[x]);
                    assert(regions_view(before)[x] == regions_view(out@)[x]);
                }
            }
        }
        t += 1;
    }
    let ghost before = out@;
    out.push((k, start, start + new_len));
    proof {
        assert forall|x: int| 0 <= x < t implies #[trigger] regions_view(out@)[x] == shifted(rv[x], end as int, delta) by {
            assert(out@[x] == before[x]);
            assert(regions_view(before)[x] == regions_view(out@)[x]);
        }
        assert(regions_view(out@) =~= rv.map_values(|x: (int, int, int)| shifted(x, end as int, delta)).push(
            (k as int, start as int, start + new_len),
        ));
    }
    out
}

/// The region `t` does not overlap `[start, end)`.
proof fn lemma_no_overlap_at(rv: Seq<(int, int, int)>, start: int, end: int, t: int)
    requires
        0 <= t < rv.len(),
        first_overlap(rv, start, end) is None,
    ensures
        !(start < rv[t].2 && rv[t].1 < end),
    decreases rv.len(),
{
    if t < rv.len() - 1 {
        assert(rv.drop_last()[t] == rv[t]);
        lemma_no_overlap_at(rv.drop_last(), start, end, t);
    }
}

proof fn lemma_edits_error_persists(edits: Seq<Json>, st: EditState, path: Seq<char>, k: int, e: Seq<char>)
    requires
        0 <= k < edits.len(),
        apply_edits_spec(edits.subrange(0, k + 1), st, path) == Err::<EditState, Seq<char>>(e),
    ensures
        apply_edits_spec(edits, st, path) == Err::<EditState, Seq<char>>(e),
    decreases edits.len() - k,
{
    if k + 1 < edits.len() {
        assert(edits.subrange(0, k + 2).drop_last() =~= edits.subrange(0, k + 1));
        lemma_edits_error_persists(edits, st, path, k + 1, e);
    } else {
        assert(edits.subrange(0, k + 1) =~= edits);
    }
}

/// Applies the edits, in order, to a file's text: a byte order mark is set
/// aside while matching and put back after. Gives the new text and the
/// report of how many edits applied, or the first failure.
pub fn edit_file_text(text: &str, edits: &Vec<Json>, path: &str) -> (r: Result<(String, String), String>)
    requires
        edits.len() < u64::MAX,
    ensures
        match edit_file_spec(text@, edits@, path@) {
            Ok((t, m)) => r matches Ok(x) && x.0@ == t && x.1@ == m,
            Err(e) => r matches Err(x) && x@ == e,
        },
{
    let chars = chars_of(text);
    let had_bom = chars.len() > 0 && chars[0] == '\u{feff}';
    let mut content: Vec<char> = if had_bom {
        crate::text::chars_slice(&chars, 1, chars.len())
    } else {
        chars.clone()
    };
    proof {
        if had_bom {
            assert(content@ =~= without_bom(text@));
        } else {
            assert(content@ =~= without_bom(text@));
        }
    }
    let ghost init = EditState { content: without_bom(text@), regions: Seq::empty(), applied: 0 };
    let mut regions: Vec<(usize, usize, usize)> = Vec::new();
    let mut applied: u64 = 0;
    assert(regions_view(regions@) =~= Seq::<(int, int, int)>::empty());
    let mut k: usize = 0;
    while k < edits.len()
        invariant
            k <= edits.len(),
            edits.len() < u64::MAX,
            init == (EditState { content: without_bom(text@), regions: Seq::empty(), applied: 0 }),
            applied <= k,
            regions_within(regions@, content@.len() as int),
            apply_edits_spec(edits@.subrange(0, k as int), init, path@) == Ok::<EditState, Seq<char>>(
                EditState { content: content@, regions: regions_view(regions@), applied: applied as nat },
            ),
        decreases edits.len() - k,
    {
        proof {
            assert(edits@.subrange(0, k + 1).drop_last() =~= edits@.subrange(0, k as int));
            assert(edits@.subrange(0, k + 1).last() == edits@[k as int]);
        }
        match apply_one(&mut content, &mut regions, &mut applied, k, &edits[k], path) {
            Ok(_) => {},
            Err(e) => {
                proof {
                    lemma_edits_error_persists(edits@, init, path@, k as int, e@);
                }
                return Err(e);
            },
        }
        k += 1;
    }
    assert(edits@.subrange(0, edits.len() as int) =~= edits@);
    let mut out: Vec<char> = Vec::new();
    if had_bom {
        out.push('\u{feff}');
    }
    let mut i: usize = 0;
    while i < content.len()
        invariant
            i <= content.len(),
            out@ == (if had_bom {
                seq!['\u{feff}']
            } else {
                Seq::<char>::empty()
            }) + content@.subrange(0, i as int),
        decreases content.len() - i,
    {
        out.push(content[i]);
        i += 1;
        assert(out@ =~= (if had_bom {
            seq!['\u{feff}']
        } else {
            Seq::<char>::empty()
        }) + content@.subrange(0, i as int));
    }
    assert(content@.subrange(0, content@.len() as int) =~= content@);
    let new_text = string_from_chars(&out);
    let mut report = "applied ".to_owned();
    let digits = u64_to_decimal(applied);
    report.append(digits.as_str());
    report.append(" edit(s) to ");
    report.append(path);
    proof {
        if !had_bom {
            assert(out@ =~= content@);
        }
    }
    Ok((new_text, report))
}

} // verus!
