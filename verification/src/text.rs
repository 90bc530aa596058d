//! Character-level string helpers with their specifications: equality,
//! prefixes, Unicode whitespace trimming and decimal rendering.
use vstd::prelude::*;

verus! {

/// Unicode `White_Space`, the set `char::is_whitespace` and `str::trim` use.
pub open spec fn is_white_space(c: char) -> bool {
    let u = c as u32;
    ||| 0x09 <= u <= 0x0d
    ||| u == 0x20
    ||| u == 0x85
    ||| u == 0xa0
    ||| u == 0x1680
    ||| 0x2000 <= u <= 0x200a
    ||| u == 0x2028
    ||| u == 0x2029
    ||| u == 0x202f
    ||| u == 0x205f
    ||| u == 0x3000
}

/// ASCII whitespace as `u8::is_ascii_whitespace` defines it (no vertical tab).
pub open spec fn is_ascii_ws_byte(b: u8) -> bool {
    b == 0x20 || b == 0x09 || b == 0x0a || b == 0x0c || b == 0x0d
}

/// Every character is whitespace.
pub open spec fn all_ws(cs: Seq<char>) -> bool {
    forall|i: int| 0 <= i < cs.len() ==> is_white_space(#[trigger] cs[i])
}

/// Leading whitespace removed.
pub open spec fn trim_start_spec(cs: Seq<char>) -> Seq<char>
    decreases cs.len(),
{
    if cs.len() > 0 && is_white_space(cs[0]) {
        trim_start_spec(cs.drop_first())
    } else {
        cs
    }
}

/// Trailing whitespace removed.
pub open spec fn trim_end_spec(cs: Seq<char>) -> Seq<char>
    decreases cs.len(),
{
    if cs.len() > 0 && is_white_space(cs.last()) {
        trim_end_spec(cs.drop_last())
    } else {
        cs
    }
}

/// Leading and trailing whitespace removed (`str::trim`).
pub open spec fn trim_spec(cs: Seq<char>) -> Seq<char> {
    trim_end_spec(trim_start_spec(cs))
}

/// `p` is a prefix of `s`.
pub open spec fn has_prefix(s: Seq<char>, p: Seq<char>) -> bool {
    p.len() <= s.len() && s.subrange(0, p.len() as int) == p
}

/// `p` is a suffix of `s`.
pub open spec fn has_suffix(s: Seq<char>, p: Seq<char>) -> bool {
    p.len() <= s.len() && s.subrange(s.len() - p.len(), s.len() as int) == p
}

/// The decimal digit character for `d < 10`.
pub open spec fn digit_char(d: nat) -> char {
    ((d + 48) as u32) as char
}

/// Decimal rendering of a natural number, as `to_string` writes it.
pub open spec fn decimal(n: nat) -> Seq<char>
    decreases n,
{
    if n < 10 {
        seq![digit_char(n)]
    } else {
        decimal(n / 10).push(digit_char(n % 10))
    }
}

pub proof fn lemma_trim_start_is_suffix(cs: Seq<char>)
    ensures
        trim_start_spec(cs).len() <= cs.len(),
        trim_start_spec(cs) == cs.subrange(cs.len() - trim_start_spec(cs).len(), cs.len() as int),
        all_ws(cs.subrange(0, cs.len() - trim_start_spec(cs).len())),
        trim_start_spec(cs).len() > 0 ==> !is_white_space(trim_start_spec(cs)[0]),
    decreases cs.len(),
{
    if cs.len() > 0 && is_white_space(cs[0]) {
        lemma_trim_start_is_suffix(cs.drop_first());
        let t = trim_start_spec(cs.drop_first());
        assert(cs.drop_first().subrange(cs.len() - 1 - t.len(), cs.len() - 1) =~= cs.subrange(
            cs.len() - t.len(),
            cs.len() as int,
        ));
        let pre = cs.subrange(0, cs.len() - t.len());
        assert forall|i: int| 0 <= i < pre.len() implies is_white_space(#[trigger] pre[i]) by {
            if i > 0 {
                assert(pre[i] == cs.drop_first().subrange(0, cs.len() - 1 - t.len())[i - 1]);
            }
        }
    } else {
        assert(cs.subrange(0, 0).len() == 0);
        assert(cs.subrange(0, cs.len() as int) =~= cs);
    }
}

pub proof fn lemma_trim_end_is_prefix(cs: Seq<char>)
    ensures
        trim_end_spec(cs).len() <= cs.len(),
        trim_end_spec(cs) == cs.subrange(0, trim_end_spec(cs).len() as int),
        all_ws(cs.subrange(trim_end_spec(cs).len() as int, cs.len() as int)),
        trim_end_spec(cs).len() > 0 ==> !is_white_space(trim_end_spec(cs).last()),
    decreases cs.len(),
{
    if cs.len() > 0 && is_white_space(cs.last()) {
        lemma_trim_end_is_prefix(cs.drop_last());
        let t = trim_end_spec(cs.drop_last());
        assert(cs.drop_last().subrange(0, t.len() as int) =~= cs.subrange(0, t.len() as int));
        let post = cs.subrange(t.len() as int, cs.len() as int);
        assert forall|i: int| 0 <= i < post.len() implies is_white_space(#[trigger] post[i]) by {
            if i < post.len() - 1 {
                assert(post[i] == cs.drop_last().subrange(t.len() as int, cs.len() - 1)[i]);
            }
        }
    } else {
        assert(cs.subrange(0, cs.len() as int) =~= cs);
    }
}

/// The trimmed text is empty exactly when the text is all whitespace.
pub proof fn lemma_trim_empty_iff_all_ws(cs: Seq<char>)
    ensures
        (trim_spec(cs).len() == 0) == all_ws(cs),
{
    lemma_trim_start_is_suffix(cs);
    let s = trim_start_spec(cs);
    lemma_trim_end_is_prefix(s);
    if all_ws(cs) {
        if s.len() > 0 {
            assert(s[0] == cs[cs.len() - s.len()]);
        }
    }
    if trim_spec(cs).len() == 0 {
        assert forall|i: int| 0 <= i < cs.len() implies is_white_space(#[trigger] cs[i]) by {
            let k = cs.len() - s.len();
            if i < k {
                assert(cs[i] == cs.subrange(0, k)[i]);
            } else {
                assert(cs[i] == s.subrange(0, s.len() as int)[i - k]);
                assert(s.subrange(trim_end_spec(s).len() as int, s.len() as int)[i - k] == s[i
                    - k]);
            }
        }
    }
}

/// The characters of a string slice, in order.
pub fn chars_of(s: &str) -> (v: Vec<char>)
    ensures
        v@ == s@,
{
    let mut v: Vec<char> = Vec::new();
    for c in it: s.chars()
        invariant
            v@ == it.seq().take(it.index() as int),
    {
        v.push(c);
    }
    v
}

/// Appends one character to a string (`String::push`).
#[verifier::external_body]
pub fn push_char(s: &mut String, c: char)
    ensures
        final(s)@ == old(s)@.push(c),
{
    s.push(c);
}

/// A string holding the given characters.
pub fn string_from_chars(v: &Vec<char>) -> (s: String)
    ensures
        s@ == v@,
{
    let mut s = String::new();
    let mut i: usize = 0;
    while i < v.len()
        invariant
            i <= v.len(),
            s@ == v@.subrange(0, i as int),
        decreases v.len() - i,
    {
        push_char(&mut s, v[i]);
        i += 1;
        assert(s@ =~= v@.subrange(0, i as int));
    }
    assert(v@.subrange(0, v.len() as int) =~= v@);
    s
}

/// Whether a character is Unicode whitespace (`char::is_whitespace`).
pub fn char_is_white_space(c: char) -> (r: bool)
    ensures
        r == is_white_space(c),
{
    let u = c as u32;
    (0x09 <= u && u <= 0x0d) || u == 0x20 || u == 0x85 || u == 0xa0 || u == 0x1680 || (0x2000
        <= u && u <= 0x200a) || u == 0x2028 || u == 0x2029 || u == 0x202f || u == 0x205f || u
        == 0x3000
}

/// Whether two character sequences are equal.
pub fn chars_eq(x: &Vec<char>, y: &Vec<char>) -> (r: bool)
    ensures
        r == (x@ == y@),
{
    if x.len() != y.len() {
        return false;
    }
    let mut i: usize = 0;
    while i < x.len()
        invariant
            x.len() == y.len(),
            i <= x.len(),
            forall|j: int| 0 <= j < i ==> x@[j] == y@[j],
        decreases x.len() - i,
    {
        if x[i] != y[i] {
            return false;
        }
        i += 1;
    }
    assert(x@ =~= y@);
    true
}

/// Whether two string slices hold the same characters.
pub fn str_eq(a: &str, b: &str) -> (r: bool)
    ensures
        r == (a@ == b@),
{
    let x = chars_of(a);
    let y = chars_of(b);
    chars_eq(&x, &y)
}

/// Whether `p` is a prefix of `s` starting at position `at`.
pub fn chars_match_at(s: &Vec<char>, at: usize, p: &Vec<char>) -> (r: bool)
    requires
        at <= s.len(),
    ensures
        r == (at + p.len() <= s.len() && s@.subrange(at as int, at + p.len()) == p@),
{
    if p.len() > s.len() - at {
        return false;
    }
    let mut i: usize = 0;
    while i < p.len()
        invariant
            at + p.len() <= s.len(),
            i <= p.len(),
            forall|j: int| 0 <= j < i ==> s@[at + j] == p@[j],
        decreases p.len() - i,
    {
        if s[at + i] != p[i] {
            assert(s@.subrange(at as int, at + p.len())[i as int] != p@[i as int]);
            return false;
        }
        i += 1;
    }
    assert(s@.subrange(at as int, at + p.len()) =~= p@);
    true
}

/// Whether `p` is a prefix of `s`.
pub fn chars_starts_with(s: &Vec<char>, p: &Vec<char>) -> (r: bool)
    ensures
        r == has_prefix(s@, p@),
{
    chars_match_at(s, 0, p)
}

/// Whether `p` is a suffix of `s`.
pub fn chars_ends_with(s: &Vec<char>, p: &Vec<char>) -> (r: bool)
    ensures
        r == has_suffix(s@, p@),
{
    if p.len() > s.len() {
        return false;
    }
    chars_match_at(s, s.len() - p.len(), p)
}

/// The characters `s[from..to]`.
pub fn chars_slice(s: &Vec<char>, from: usize, to: usize) -> (r: Vec<char>)
    requires
        from <= to <= s.len(),
    ensures
        r@ == s@.subrange(from as int, to as int),
{
    let mut r: Vec<char> = Vec::new();
    let mut i = from;
    while i < to
        invariant
            from <= i <= to <= s.len(),
            r@ == s@.subrange(from as int, i as int),
        decreases to - i,
    {
        r.push(s[i]);
        i += 1;
        assert(r@ =~= s@.subrange(from as int, i as int));
    }
    r
}

/// `str::trim` on a character sequence.
pub fn trim_chars(s: &Vec<char>) -> (r: Vec<char>)
    ensures
        r@ == trim_spec(s@),
{
    let mut start: usize = 0;
    assert(s@.subrange(0, s.len() as int) =~= s@);
    while start < s.len() && char_is_white_space(s[start])
        invariant
            start <= s.len(),
            trim_start_spec(s@) == trim_start_spec(s@.subrange(start as int, s.len() as int)),
        decreases s.len() - start,
    {
        let ghost t = s@.subrange(start as int, s.len() as int);
        assert(t.drop_first() =~= s@.subrange(start + 1, s.len() as int));
        start += 1;
    }
    let ghost t = s@.subrange(start as int, s.len() as int);
    assert(trim_start_spec(s@) == t);
    let mut end = s.len();
    assert(s@.subrange(start as int, end as int) == t);
    while end > start && char_is_white_space(s[end - 1])
        invariant
            start <= end <= s.len(),
            t == s@.subrange(start as int, s.len() as int),
            trim_end_spec(t) == trim_end_spec(s@.subrange(start as int, end as int)),
        decreases end,
    {
        let ghost u = s@.subrange(start as int, end as int);
        assert(u.drop_last() =~= s@.subrange(start as int, end - 1));
        end -= 1;
    }
    chars_slice(s, start, end)
}

/// Decimal rendering of an unsigned integer (`u64::to_string`).
pub fn u64_to_decimal(n: u64) -> (s: String)
    ensures
        s@ == decimal(n as nat),
    decreases n,
{
    let d = (n % 10) as u8;
    let c = (d + 48) as char;
    if n < 10 {
        let mut s = String::new();
        push_char(&mut s, c);
        s
    } else {
        let mut s = u64_to_decimal(n / 10);
        push_char(&mut s, c);
        s
    }
}

/// The pieces of `p` between separator characters (those in `seps`; one
/// more piece than there are separators), as `str::split` yields them.
pub open spec fn split_on(p: Seq<char>, seps: Seq<char>) -> Seq<Seq<char>>
    decreases p.len(),
{
    if p.len() == 0 {
        seq![Seq::empty()]
    } else {
        let prev = split_on(p.drop_last(), seps);
        if seps.contains(p.last()) {
            prev.push(Seq::empty())
        } else {
            prev.update(prev.len() - 1, prev.last().push(p.last()))
        }
    }
}

pub proof fn lemma_split_on_props(p: Seq<char>, seps: Seq<char>)
    ensures
        split_on(p, seps).len() >= 1,
        (split_on(p, seps).len() == 1) == (forall|i: int| 0 <= i < p.len() ==> !seps.contains(p[i])),
        split_on(p, seps).len() == 1 ==> split_on(p, seps)[0] == p,
    decreases p.len(),
{
    if p.len() > 0 {
        lemma_split_on_props(p.drop_last(), seps);
        let q = p.drop_last();
        if seps.contains(p.last()) {
            assert(seps.contains(p[p.len() - 1]));
        } else {
            if forall|i: int| 0 <= i < q.len() ==> !seps.contains(q[i]) {
                assert forall|i: int| 0 <= i < p.len() implies !seps.contains(p[i]) by {
                    if i < q.len() {
                        assert(p[i] == q[i]);
                    }
                }
                assert(split_on(p, seps)[0] =~= p);
            } else {
                let i = choose|i: int| 0 <= i < q.len() && seps.contains(q[i]);
                assert(p[i] == q[i]);
            }
        }
    } else {
        assert(split_on(p, seps)[0] =~= p);
    }
}

/// The pieces of `p` between separator characters (those in `seps`).
pub fn split_chars(p: &Vec<char>, seps: &Vec<char>) -> (r: Vec<Vec<char>>)
    ensures
        r@.map_values(|v: Vec<char>| v@) == split_on(p@, seps@),
{
    let mut segs: Vec<Vec<char>> = Vec::new();
    segs.push(Vec::new());
    let mut i: usize = 0;
    assert(p@.subrange(0, 0) =~= Seq::<char>::empty());
    assert(segs@.map_values(|v: Vec<char>| v@) =~= split_on(p@.subrange(0, 0), seps@));
    while i < p.len()
        invariant
            i <= p.len(),
            segs@.len() >= 1,
            segs@.map_values(|v: Vec<char>| v@) == split_on(p@.subrange(0, i as int), seps@),
        decreases p.len() - i,
    {
        let ghost prev = segs@.map_values(|v: Vec<char>| v@);
        assert(p@.subrange(0, i + 1).drop_last() =~= p@.subrange(0, i as int));
        assert(p@.subrange(0, i + 1).last() == p@[i as int]);
        if char_in(seps, p[i]) {
            segs.push(Vec::new());
            assert(segs@.map_values(|v: Vec<char>| v@) =~= prev.push(Seq::empty()));
        } else {
            let last = segs.len() - 1;
            let mut seg = segs.pop().unwrap();
            seg.push(p[i]);
            segs.push(seg);
            assert(segs@.map_values(|v: Vec<char>| v@) =~= prev.update(
                prev.len() - 1,
                prev.last().push(p@[i as int]),
            ));
        }
        i += 1;
    }
    assert(p@.subrange(0, p.len() as int) =~= p@);
    segs
}


/// Whether `c` is one of `cs`.
pub fn char_in(cs: &Vec<char>, c: char) -> (r: bool)
    ensures
        r == cs@.contains(c),
{
    let mut i: usize = 0;
    while i < cs.len()
        invariant
            i <= cs.len(),
            forall|j: int| 0 <= j < i ==> cs@[j] != c,
        decreases cs.len() - i,
    {
        if cs[i] == c {
            return true;
        }
        i += 1;
    }
    false
}

} // verus!
