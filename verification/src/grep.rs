//! What `grep` reports of one file: which lines its pattern matches (as a
//! regular expression, or literally where the pattern is not one), and the
//! matching lines with their context, each line once, in order, up to the
//! match limit.
use vstd::prelude::*;
use crate::budget::{cap_grep_line, GREP_MAX_LINE_CHARS};
use crate::order::views;
use crate::builtins::{contains_chars, contains_text};
use crate::text::{chars_of, decimal, u64_to_decimal};

verus! {

/// How many of the first `j` lines match.
pub open spec fn rank(matched: Seq<bool>, j: int) -> nat
    decreases j,
{
    if j <= 0 {
        0
    } else {
        rank(matched, j - 1) + if matched[j - 1] {
            1nat
        } else {
            0nat
        }
    }
}

/// Line `j` is a match that counts: the matches before it, with those of
/// earlier files, are still under the limit.
pub open spec fn counted(matched: Seq<bool>, j: int, found: nat, limit: nat) -> bool {
    matched[j] && found + rank(matched, j) < limit
}

/// Line `i` is shown: it lies within `context` lines of a counted match.
pub open spec fn shown(matched: Seq<bool>, i: int, context: nat, found: nat, limit: nat) -> bool {
    exists|j: int|
        0 <= j < matched.len() && #[trigger] counted(matched, j, found, limit) && j - context <= i <= j + context
}

/// A line as grep shows it, cut to its first characters where it is long.
pub open spec fn capped_line(line: Seq<char>) -> Seq<char> {
    if line.len() <= GREP_MAX_LINE_CHARS {
        line
    } else {
        line.subrange(0, GREP_MAX_LINE_CHARS as int) + "... [truncated]"@
    }
}

/// How line `i` is reported: `path:N:line` for a match, `path-N-line` for
/// context, `N` counting from 1.
pub open spec fn hit_line(rel: Seq<char>, i: int, line: Seq<char>, is_match: bool) -> Seq<char> {
    let sep = if is_match {
        seq![':']
    } else {
        seq!['-']
    };
    rel + sep + decimal((i + 1) as nat) + sep + capped_line(line)
}

/// The report of the first `n` lines.
pub open spec fn file_hits(
    rel: Seq<char>,
    lines: Seq<Seq<char>>,
    matched: Seq<bool>,
    context: nat,
    found: nat,
    limit: nat,
    n: int,
) -> Seq<Seq<char>>
    decreases n,
{
    if n <= 0 {
        Seq::empty()
    } else {
        let rest = file_hits(rel, lines, matched, context, found, limit, n - 1);
        if shown(matched, n - 1, context, found, limit) {
            rest.push(hit_line(rel, n - 1, lines[n - 1], matched[n - 1]))
        } else {
            rest
        }
    }
}

/// The matches found after a file: those before it, and its counted ones.
pub open spec fn found_after(matched: Seq<bool>, found: nat, limit: nat) -> int {
    if found >= limit {
        found as int
    } else if found + rank(matched, matched.len() as int) <= limit {
        (found + rank(matched, matched.len() as int)) as int
    } else {
        limit as int
    }
}

proof fn lemma_rank_step(matched: Seq<bool>, j: int)
    requires
        0 <= j,
    ensures
        rank(matched, j + 1) == rank(matched, j) + if matched[j] {
            1nat
        } else {
            0nat
        },
{
}

/// The report of one file whose lines `matched` marks, with `found`
/// matches already reported by earlier files out of `limit`; and the
/// matches found after it.
pub fn grep_file_hits(
    rel: &str,
    lines: &Vec<String>,
    matched: &Vec<bool>,
    context: usize,
    found: usize,
    limit: usize,
) -> (r: (Vec<String>, usize))
    requires
        lines.len() == matched.len(),
    ensures
        views(r.0@) == file_hits(rel@, views(lines@), matched@, context as nat, found as nat, limit as nat, lines@.len() as int),
        r.1 == found_after(matched@, found as nat, limit as nat),
{
    let n = lines.len();
    let mut emit: Vec<bool> = Vec::new();
    let mut k: usize = 0;
    while k < n
        invariant
            k <= n,
            emit@.len() == k,
            forall|i: int| 0 <= i < k ==> !emit@[i],
        decreases n - k,
    {
        emit.push(false);
        k += 1;
    }
    let mut count = found;
    let mut j: usize = 0;
    while j < n
        invariant
            j <= n,
            n == lines.len(),
            n == matched@.len(),
            emit@.len() == n,
            count as int == if found >= limit {
                found as int
            } else if found + rank(matched@, j as int) <= limit {
                (found + rank(matched@, j as int)) as int
            } else {
                limit as int
            },
            forall|i: int|
                0 <= i < n ==> (#[trigger] emit@[i] <==> exists|m: int|
                    0 <= m < j && counted(matched@, m, found as nat, limit as nat) && m - context <= i <= m + context),
        decreases n - j,
    {
        proof {
            lemma_rank_step(matched@, j as int);
        }
        if matched[j] && count < limit {
            assert(counted(matched@, j as int, found as nat, limit as nat));
            count += 1;
            let lo = if j >= context {
                j - context
            } else {
                0
            };
            let hi = if context <= n - 1 - j {
                j + context
            } else {
                n - 1
            };
            let ghost before = emit@;
            let mut x: usize = lo;
            while x <= hi
                invariant
                    lo <= x <= hi + 1,
                    hi < n,
                    emit@.len() == n,
                    forall|i: int| 0 <= i < n ==> (#[trigger] emit@[i] <==> (before[i] || (lo <= i < x))),
                decreases hi + 1 - x,
            {
                emit.set(x, true);
                x += 1;
            }
            assert forall|i: int| 0 <= i < n implies (#[trigger] emit@[i] <==> exists|m: int|
                0 <= m < j + 1 && counted(matched@, m, found as nat, limit as nat) && m - context <= i <= m + context) by {
                if lo <= i <= hi {
                    assert(counted(matched@, j as int, found as nat, limit as nat) && j - context <= i <= j + context);
                }
                if exists|m: int| 0 <= m < j + 1 && counted(matched@, m, found as nat, limit as nat) && m - context <= i
                    <= m + context {
                    let m = choose|m: int| 0 <= m < j + 1 && counted(matched@, m, found as nat, limit as nat) && m
                        - context <= i <= m + context;
                    if m == j {
                        assert(lo <= i <= hi);
                    }
                }
            }
        } else {
            assert(!counted(matched@, j as int, found as nat, limit as nat));
            assert forall|i: int| 0 <= i < n implies (#[trigger] emit@[i] <==> exists|m: int|
                0 <= m < j + 1 && counted(matched@, m, found as nat, limit as nat) && m - context <= i <= m + context) by {
                if exists|m: int| 0 <= m < j + 1 && counted(matched@, m, found as nat, limit as nat) && m - context <= i
                    <= m + context {
                    let m = choose|m: int| 0 <= m < j + 1 && counted(matched@, m, found as nat, limit as nat) && m
                        - context <= i <= m + context;
                    assert(m != j);
                }
            }
        }
        j += 1;
    }
    let mut hits: Vec<String> = Vec::new();
    let mut i: usize = 0;
    while i < n
        invariant
            i <= n,
            n == lines.len(),
            n == matched@.len(),
            emit@.len() == n,
            forall|p: int| 0 <= p < n ==> (#[trigger] emit@[p] <==> shown(matched@, p, context as nat, found as nat, limit as nat)),
            views(hits@) == file_hits(rel@, views(lines@), matched@, context as nat, found as nat, limit as nat, i as int),
        decreases n - i,
    {
        if emit[i] {
            let line = cap_grep_line(lines[i].as_str());
            let number = u64_to_decimal((i + 1) as u64);
            let mut h = rel.to_owned();
            if matched[i] {
                h.append(":");
                h.append(number.as_str());
                h.append(":");
            } else {
                h.append("-");
                h.append(number.as_str());
                h.append("-");
            }
            h.append(line.as_str());
            let ghost before = views(hits@);
            proof {
                reveal_strlit(":");
                reveal_strlit("-");
                assert(views(lines@)[i as int] == lines@[i as int]@);
                assert(h@ == hit_line(rel@, i as int, lines@[i as int]@, matched@[i as int]));
            }
            hits.push(h);
            assert(views(hits@) =~= before.push(hit_line(rel@, i as int, views(lines@)[i as int], matched@[i as int])));
        }
        i += 1;
    }
    (hits, count)
}

/// Whether `pattern` builds as a regular expression (with case folding
/// where `ignore_case`), as `regex::RegexBuilder::build` decides.
pub uninterp spec fn regex_compiles(pattern: Seq<char>, ignore_case: bool) -> bool;

/// Whether the regular expression `pattern` (with case folding where
/// `ignore_case`) matches somewhere in `line`, as `regex::Regex::is_match`
/// decides.
pub uninterp spec fn regex_is_match(pattern: Seq<char>, ignore_case: bool, line: Seq<char>) -> bool;

/// The lowercase form of a text, as `str::to_lowercase` gives it.
pub uninterp spec fn lowercase(s: Seq<char>) -> Seq<char>;

/// Builds `pattern` with `regex::RegexBuilder` (case-insensitive where
/// `ignore_case`) and, where it builds, asks `Regex::is_match` of `line`.
/// The contract names both results; it claims that they depend on the
/// pattern, the flag and the line alone, and nothing of how the regex
/// engine decides.
#[verifier::external_body]
fn regex_line_match(pattern: &str, ignore_case: bool, line: &str) -> (r: Option<bool>)
    ensures
        r == if regex_compiles(pattern@, ignore_case) {
            Some(regex_is_match(pattern@, ignore_case, line@))
        } else {
            None
        },
{
    match regex::RegexBuilder::new(pattern).case_insensitive(ignore_case).build() {
        Ok(re) => Some(re.is_match(line)),
        Err(_) => None,
    }
}

/// `str::to_lowercase`: the contract names its result and claims only that
/// it depends on the text alone.
#[verifier::external_body]
fn to_lowercase(s: &str) -> (r: String)
    ensures
        r@ == lowercase(s@),
{
    s.to_lowercase()
}

/// How a pattern that is not a regular expression matches a line: as a
/// substring, compared in lowercase where `ignore_case`.
pub open spec fn literal_match(pattern: Seq<char>, ignore_case: bool, line: Seq<char>) -> bool {
    if ignore_case {
        contains_text(lowercase(line), lowercase(pattern))
    } else {
        contains_text(line, pattern)
    }
}

/// Whether `pattern` matches `line`: as a regular expression where it is
/// one, otherwise literally.
pub open spec fn grep_matches(pattern: Seq<char>, ignore_case: bool, line: Seq<char>) -> bool {
    if regex_compiles(pattern, ignore_case) {
        regex_is_match(pattern, ignore_case, line)
    } else {
        literal_match(pattern, ignore_case, line)
    }
}

/// Which of `lines` the grep pattern matches.
pub fn grep_line_verdicts(pattern: &str, ignore_case: bool, lines: &Vec<String>) -> (r: Vec<bool>)
    ensures
        r@.len() == lines@.len(),
        forall|i: int| 0 <= i < r@.len() ==> r@[i] == grep_matches(pattern@, ignore_case, #[trigger] lines@[i]@),
{
    let compiles = regex_line_match(pattern, ignore_case, "").is_some();
    let needle = if ignore_case {
        chars_of(to_lowercase(pattern).as_str())
    } else {
        chars_of(pattern)
    };
    let mut r: Vec<bool> = Vec::new();
    let mut i: usize = 0;
    while i < lines.len()
        invariant
            i <= lines@.len(),
            r@.len() == i,
            compiles == regex_compiles(pattern@, ignore_case),
            needle@ == if ignore_case { lowercase(pattern@) } else { pattern@ },
            forall|k: int| 0 <= k < i ==> r@[k] == grep_matches(pattern@, ignore_case, #[trigger] lines@[k]@),
        decreases lines.len() - i,
    {
        let line = lines[i].as_str();
        let verdict = if compiles {
            match regex_line_match(pattern, ignore_case, line) {
                Some(m) => m,
                None => false,
            }
        } else if ignore_case {
            contains_chars(&chars_of(to_lowercase(line).as_str()), &needle)
        } else {
            contains_chars(&chars_of(line), &needle)
        };
        r.push(verdict);
        i += 1;
    }
    r
}

/// The grep report of one file's lines for `pattern`, with `found`
/// matches already reported by earlier files out of `limit`; and the
/// matches found after it.
pub fn grep_file_report(
    rel: &str,
    lines: &Vec<String>,
    pattern: &str,
    ignore_case: bool,
    context: usize,
    found: usize,
    limit: usize,
) -> (r: (Vec<String>, usize))
    ensures
        exists|matched: Seq<bool>|
            #![trigger file_hits(rel@, views(lines@), matched, context as nat, found as nat, limit as nat, lines@.len() as int)]
            matched.len() == lines@.len() && (forall|i: int| 0 <= i < matched.len() ==> #[trigger] matched[i] == grep_matches(pattern@, ignore_case, lines@[i]@))
            && views(r.0@) == file_hits(rel@, views(lines@), matched, context as nat, found as nat, limit as nat, lines@.len() as int)
            && r.1 == found_after(matched, found as nat, limit as nat),
{
    let matched = grep_line_verdicts(pattern, ignore_case, lines);
    let r = grep_file_hits(rel, lines, &matched, context, found, limit);
    assert(matched@.len() == lines@.len());
    r
}

} // verus!
