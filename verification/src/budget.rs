//! Keeping text within a budget: byte caps that respect character
//! boundaries, middle truncation with an elision notice, and redaction.
use vstd::prelude::*;
use vstd::string::StringSliceAdditionalSpecFns;
use vstd::utf8::{decode_utf8, encode_utf8, is_char_boundary, valid_utf8};
use crate::text::{chars_of, chars_slice, decimal, string_from_chars, u64_to_decimal};

verus! {

broadcast use vstd::utf8::encode_utf8_valid_utf8, vstd::utf8::encode_utf8_decode_utf8;

/// The number of UTF-8 bytes of a string slice.
pub fn byte_len(s: &str) -> (n: usize)
    ensures
        n == s.spec_bytes().len(),
{
    s.as_bytes().len()
}

/// The largest character boundary of the UTF-8 bytes `b` at or below `n`.
pub open spec fn floor_boundary(b: Seq<u8>, n: int) -> int
    decreases n,
{
    if n <= 0 {
        0
    } else if is_char_boundary(b, n) {
        n
    } else {
        floor_boundary(b, n - 1)
    }
}

/// The smallest character boundary of `b` at or above `n` (the end of `b`
/// when none is below it).
pub open spec fn ceil_boundary(b: Seq<u8>, n: int) -> int
    decreases b.len() - n,
{
    if n >= b.len() {
        b.len() as int
    } else if is_char_boundary(b, n) {
        n
    } else {
        ceil_boundary(b, n + 1)
    }
}

/// The text of the bytes `b[from..to]` of a string slice.
pub open spec fn text_of(b: Seq<u8>, from: int, to: int) -> Seq<char> {
    decode_utf8(b.subrange(from, to))
}

proof fn lemma_boundary_in_suffix(b: Seq<u8>, from: int, k: int)
    requires
        valid_utf8(b),
        0 <= from <= b.len(),
        is_char_boundary(b, from),
        0 <= k <= b.len() - from,
        is_char_boundary(b, from + k),
    ensures
        valid_utf8(b.subrange(from, b.len() as int)),
        is_char_boundary(b.subrange(from, b.len() as int), k),
{
    let rest = b.subrange(from, b.len() as int);
    vstd::utf8::valid_utf8_split(b, from);
    if k == rest.len() {
        vstd::utf8::is_char_boundary_start_end_of_seq(rest);
    } else {
        vstd::utf8::is_char_boundary_iff_not_is_continuation_byte(b, from + k);
        vstd::utf8::is_char_boundary_iff_not_is_continuation_byte(rest, k);
        assert(rest[k] == b[from + k]);
    }
}

/// The slice of `s` between two character boundaries.
pub fn byte_slice(s: &str, from: usize, to: usize) -> (r: &str)
    requires
        from <= to <= s.spec_bytes().len(),
        is_char_boundary(s.spec_bytes(), from as int),
        is_char_boundary(s.spec_bytes(), to as int),
    ensures
        r.spec_bytes() == s.spec_bytes().subrange(from as int, to as int),
        r@ == text_of(s.spec_bytes(), from as int, to as int),
{
    let ghost b = s.spec_bytes();
    let (_, rest) = s.split_at(from);
    proof {
        lemma_boundary_in_suffix(b, from as int, (to - from) as int);
        assert(rest.spec_bytes() =~= b.subrange(from as int, b.len() as int));
    }
    let (mid, _) = rest.split_at(to - from);
    assert(mid.spec_bytes() =~= b.subrange(from as int, to as int));
    assert(decode_utf8(encode_utf8(mid@)) == mid@);
    mid
}

/// Largest character boundary at or below `n`.
fn floor_boundary_exec(s: &str, n: usize) -> (k: usize)
    requires
        n <= s.spec_bytes().len(),
    ensures
        k == floor_boundary(s.spec_bytes(), n as int),
        k <= n,
        is_char_boundary(s.spec_bytes(), k as int),
{
    proof {
        vstd::utf8::is_char_boundary_start_end_of_seq(s.spec_bytes());
    }
    let mut k = n;
    while k > 0 && !s.is_char_boundary(k)
        invariant
            k <= n,
            floor_boundary(s.spec_bytes(), n as int) == floor_boundary(s.spec_bytes(), k as int),
        decreases k,
    {
        k -= 1;
    }
    k
}

/// Smallest character boundary at or above `n`.
fn ceil_boundary_exec(s: &str, n: usize) -> (k: usize)
    requires
        n <= s.spec_bytes().len(),
    ensures
        k == ceil_boundary(s.spec_bytes(), n as int),
        n <= k <= s.spec_bytes().len(),
        is_char_boundary(s.spec_bytes(), k as int),
{
    proof {
        vstd::utf8::is_char_boundary_start_end_of_seq(s.spec_bytes());
    }
    let len = byte_len(s);
    let mut k = n;
    while k < len && !s.is_char_boundary(k)
        invariant
            n <= k <= len,
            len == s.spec_bytes().len(),
            ceil_boundary(s.spec_bytes(), n as int) == ceil_boundary(s.spec_bytes(), k as int),
        decreases len - k,
    {
        k += 1;
    }
    k
}

/// The per-stream cap of an exec response, in bytes.
pub const STREAM_CAP_BYTES: usize = 524288;

/// Caps a captured stream at [`STREAM_CAP_BYTES`] bytes, cut back to a
/// character boundary; the flag tells whether anything was cut.
pub fn cap_stream(stream: String) -> (r: (String, bool))
    ensures
        stream@.len() == 0 || encode_utf8(stream@).len() <= STREAM_CAP_BYTES ==> r == (stream, false),
        encode_utf8(stream@).len() > STREAM_CAP_BYTES ==> r.1 && r.0@ == text_of(
            encode_utf8(stream@),
            0,
            floor_boundary(encode_utf8(stream@), STREAM_CAP_BYTES as int),
        ),
{
    let s = stream.as_str();
    if byte_len(s) <= STREAM_CAP_BYTES {
        return (stream, false);
    }
    let end = floor_boundary_exec(s, STREAM_CAP_BYTES);
    proof {
        vstd::utf8::is_char_boundary_start_end_of_seq(s.spec_bytes());
    }
    let head = byte_slice(s, 0, end).to_owned();
    (head, true)
}

/// Redacts a secret for display: `****` followed by its last four
/// characters, or `****` alone when it has at most four characters.
pub fn redact(secret: &str) -> (r: String)
    ensures
        secret@.len() <= 4 ==> r@ == "****"@,
        secret@.len() > 4 ==> r@ == "****"@ + secret@.subrange(secret@.len() - 4, secret@.len() as int),
{
    let cs = chars_of(secret);
    let n = cs.len();
    if n <= 4 {
        return "****".to_owned();
    }
    let tail = chars_slice(&cs, n - 4, n);
    let mut r = "****".to_owned();
    r.append(string_from_chars(&tail).as_str());
    r
}

/// The elision notice between the kept head and tail.
pub open spec fn elision_notice(elided: nat, total: nat) -> Seq<char> {
    "\n[... "@ + decimal(elided) + " of "@ + decimal(total)
        + " bytes elided (full output kept as evidence) ...]\n"@
}

/// A middle-truncated text: unchanged within the budget; otherwise the
/// head up to half of `max_bytes - 96` bytes and the tail of the rest of it,
/// both cut to character boundaries, around a notice of how much was cut.
pub open spec fn middle_truncated(b: Seq<u8>, max_bytes: int) -> Seq<char> {
    if b.len() <= max_bytes {
        decode_utf8(b)
    } else {
        let keep = if max_bytes >= 96 { max_bytes - 96 } else { 0 };
        let head_len = keep / 2;
        let tail_len = keep - head_len;
        let head_end = floor_boundary(b, if head_len <= b.len() { head_len } else { b.len() as int });
        let tail_start = ceil_boundary(b, if b.len() >= tail_len { b.len() - tail_len } else { 0 });
        let elided = if tail_start >= head_end { tail_start - head_end } else { 0 };
        text_of(b, 0, head_end) + elision_notice(elided as nat, b.len() as nat) + text_of(
            b,
            tail_start,
            b.len() as int,
        )
    }
}

/// Bounds a tool output to about `max_bytes`, keeping its head and tail
/// and noting how many bytes were elided between them.
pub fn middle_truncate(text: &str, max_bytes: usize) -> (r: String)
    ensures
        r@ == middle_truncated(text.spec_bytes(), max_bytes as int),
{
    let len = byte_len(text);
    if len <= max_bytes {
        assert(decode_utf8(encode_utf8(text@)) == text@);
        return text.to_owned();
    }
    let keep = max_bytes.saturating_sub(96);
    let head_len = keep / 2;
    let tail_len = keep - head_len;
    let head_end = floor_boundary_exec(text, if head_len <= len { head_len } else { len });
    let tail_start = ceil_boundary_exec(text, len.saturating_sub(tail_len));
    let elided = tail_start.saturating_sub(head_end);
    proof {
        vstd::utf8::is_char_boundary_start_end_of_seq(text.spec_bytes());
    }
    let mut r = byte_slice(text, 0, head_end).to_owned();
    r.append("\n[... ");
    r.append(u64_to_decimal(elided as u64).as_str());
    r.append(" of ");
    r.append(u64_to_decimal(len as u64).as_str());
    r.append(" bytes elided (full output kept as evidence) ...]\n");
    r.append(byte_slice(text, tail_start, len));
    r
}

/// The longest grep line kept whole, in characters.
pub const GREP_MAX_LINE_CHARS: usize = 500;

/// Caps a grep output line at [`GREP_MAX_LINE_CHARS`] characters, marking
/// the cut.
pub fn cap_grep_line(line: &str) -> (r: String)
    ensures
        line@.len() <= GREP_MAX_LINE_CHARS ==> r@ == line@,
        line@.len() > GREP_MAX_LINE_CHARS ==> r@ == line@.subrange(0, GREP_MAX_LINE_CHARS as int)
            + "... [truncated]"@,
{
    let cs = chars_of(line);
    if cs.len() <= GREP_MAX_LINE_CHARS {
        return line.to_owned();
    }
    let head = crate::text::chars_slice(&cs, 0, GREP_MAX_LINE_CHARS);
    let mut r = string_from_chars(&head);
    r.append("... [truncated]");
    r
}

} // verus!
