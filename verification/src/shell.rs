//! Static screening of shell command text before a harness runs it: word
//! splitting, redirection targets, and the argument policy that refuses
//! expansions, substitutions and control operators.
//!
//! Everything here reads the command's UTF-8 bytes, as the harness does.
use vstd::prelude::*;
use crate::text::{chars_of, is_ascii_ws_byte, push_char};
use vstd::string::StringSliceAdditionalSpecFns;

verus! {

/// The character a command byte stands for when it is copied into a word
/// (each byte becomes the character with the same code).
pub open spec fn byte_char(c: u8) -> char {
    c as char
}

/// One leading whitespace character's UTF-8 encoding length, or 0 when the
/// bytes do not start with one. The encodings are those of the Unicode
/// `White_Space` characters.
pub open spec fn ws_prefix_len(s: Seq<u8>) -> int {
    if s.len() >= 1 && is_ascii_ws_byte(s[0]) || (s.len() >= 1 && s[0] == 0x0b) {
        1
    } else if s.len() >= 2 && s[0] == 0xc2 && (s[1] == 0x85 || s[1] == 0xa0) {
        2
    } else if s.len() >= 3 && s[0] == 0xe1 && s[1] == 0x9a && s[2] == 0x80 {
        3
    } else if s.len() >= 3 && s[0] == 0xe2 && s[1] == 0x80 && ((0x80 <= s[2] && s[2] <= 0x8a)
        || s[2] == 0xa8 || s[2] == 0xa9 || s[2] == 0xaf) {
        3
    } else if s.len() >= 3 && s[0] == 0xe2 && s[1] == 0x81 && s[2] == 0x9f {
        3
    } else if s.len() >= 3 && s[0] == 0xe3 && s[1] == 0x80 && s[2] == 0x80 {
        3
    } else {
        0
    }
}

/// The UTF-8 text `s` consists of whitespace characters only (its `trim()`
/// is empty).
pub open spec fn ws_utf8(s: Seq<u8>) -> bool
    decreases s.len(),
{
    if s.len() == 0 {
        true
    } else if ws_prefix_len(s) == 0 {
        false
    } else {
        ws_utf8(s.subrange(ws_prefix_len(s), s.len() as int))
    }
}

/// The UTF-8 text `s` with its leading whitespace removed (`trim_start`).
pub open spec fn trim_start_utf8(s: Seq<u8>) -> Seq<u8>
    decreases s.len(),
{
    if s.len() == 0 || ws_prefix_len(s) == 0 {
        s
    } else {
        trim_start_utf8(s.subrange(ws_prefix_len(s), s.len() as int))
    }
}

/// Length of the leading whitespace encoding of `b[i..]`.
fn ws_prefix_len_at(b: &[u8], i: usize) -> (n: usize)
    requires
        i <= b@.len(),
    ensures
        n == ws_prefix_len(b@.subrange(i as int, b@.len() as int)),
        n <= b@.len() - i,
{
    let ghost s = b@.subrange(i as int, b@.len() as int);
    let len = b.len();
    if i < len && (b[i] == 0x20 || b[i] == 0x09 || b[i] == 0x0a || b[i] == 0x0c || b[i] == 0x0d
        || b[i] == 0x0b) {
        assert(s[0] == b@[i as int]);
        return 1;
    }
    if i < len && len - i >= 2 && b[i] == 0xc2 && (b[i + 1] == 0x85 || b[i + 1] == 0xa0) {
        assert(s[0] == b@[i as int] && s[1] == b@[i + 1]);
        return 2;
    }
    if i < len && len - i >= 3 {
        assert(s[0] == b@[i as int] && s[1] == b@[i + 1] && s[2] == b@[i + 2]);
        let (x, y, z) = (b[i], b[i + 1], b[i + 2]);
        if x == 0xe1 && y == 0x9a && z == 0x80 {
            return 3;
        }
        if x == 0xe2 && y == 0x80 && ((0x80 <= z && z <= 0x8a) || z == 0xa8 || z == 0xa9 || z
            == 0xaf) {
            return 3;
        }
        if x == 0xe2 && y == 0x81 && z == 0x9f {
            return 3;
        }
        if x == 0xe3 && y == 0x80 && z == 0x80 {
            return 3;
        }
    }
    proof {
        if s.len() >= 1 {
            assert(s[0] == b@[i as int]);
        }
        if s.len() >= 2 {
            assert(s[1] == b@[i + 1]);
        }
    }
    0
}

/// Whether `b[from..to]` is whitespace only.
fn ws_utf8_range(b: &[u8], from: usize, to: usize) -> (r: bool)
    requires
        from <= to <= b@.len(),
    ensures
        r == ws_utf8(b@.subrange(from as int, to as int)),
{
    let sub = slice_range(b, from, to);
    let mut i: usize = 0;
    assert(sub@.subrange(0, sub@.len() as int) =~= sub@);
    while i < sub.len()
        invariant
            i <= sub@.len(),
            sub@ == b@.subrange(from as int, to as int),
            ws_utf8(sub@) == ws_utf8(sub@.subrange(i as int, sub@.len() as int)),
        decreases sub@.len() - i,
    {
        let n = ws_prefix_len_at(&sub, i);
        if n == 0 {
            return false;
        }
        assert(sub@.subrange(i as int, sub@.len() as int).subrange(n as int, sub@.len() - i)
            =~= sub@.subrange(i + n, sub@.len() as int));
        i += n;
    }
    true
}

/// The bytes `b[from..to]`.
fn slice_range(b: &[u8], from: usize, to: usize) -> (r: Vec<u8>)
    requires
        from <= to <= b@.len(),
    ensures
        r@ == b@.subrange(from as int, to as int),
{
    let mut r: Vec<u8> = Vec::new();
    let mut i = from;
    while i < to
        invariant
            from <= i <= to <= b@.len(),
            r@ == b@.subrange(from as int, i as int),
        decreases to - i,
    {
        r.push(b[i]);
        i += 1;
        assert(r@ =~= b@.subrange(from as int, i as int));
    }
    r
}

/// First index at or after `i` that is not ASCII whitespace.
pub open spec fn skip_ascii_ws(b: Seq<u8>, i: int) -> int
    decreases b.len() - i,
{
    if 0 <= i < b.len() && is_ascii_ws_byte(b[i]) {
        skip_ascii_ws(b, i + 1)
    } else {
        i
    }
}

/// Reading one shell word from `i` with the given quoting state and the
/// characters gathered so far: the word, the index where reading stopped,
/// and whether a quote was left open.
pub open spec fn word_tail(b: Seq<u8>, i: int, word: Seq<char>, sq: bool, dq: bool, esc: bool) -> (
    Seq<char>,
    int,
    bool,
)
    decreases b.len() - i,
{
    if i < 0 || i >= b.len() {
        (word, i, sq || dq)
    } else {
        let c = b[i];
        if sq {
            if c == 0x27 {
                word_tail(b, i + 1, word, false, dq, esc)
            } else {
                word_tail(b, i + 1, word.push(byte_char(c)), sq, dq, esc)
            }
        } else if dq {
            if esc {
                word_tail(b, i + 1, word.push(byte_char(c)), sq, dq, false)
            } else if c == 0x5c {
                word_tail(b, i + 1, word, sq, dq, true)
            } else if c == 0x22 {
                word_tail(b, i + 1, word, sq, false, esc)
            } else {
                word_tail(b, i + 1, word.push(byte_char(c)), sq, dq, esc)
            }
        } else if esc {
            word_tail(b, i + 1, word.push(byte_char(c)), sq, dq, false)
        } else if is_ascii_ws_byte(c) || c == 0x3b || c == 0x7c || c == 0x3c {
            (word, i, false)
        } else if c == 0x5c {
            word_tail(b, i + 1, word, sq, dq, true)
        } else if c == 0x27 {
            word_tail(b, i + 1, word, true, dq, esc)
        } else if c == 0x22 {
            word_tail(b, i + 1, word, sq, true, esc)
        } else {
            word_tail(b, i + 1, word.push(byte_char(c)), sq, dq, esc)
        }
    }
}

/// The shell word that starts at (or after the ASCII whitespace at) `start`:
/// the word when it has characters, and the index after it; an error when a
/// quote is left open.
pub open spec fn shell_word_spec(b: Seq<u8>, start: int) -> Result<(Option<Seq<char>>, int), Seq<char>> {
    let i = skip_ascii_ws(b, start);
    if i >= b.len() {
        Ok((None, i))
    } else {
        let (w, end, open) = word_tail(b, i, Seq::empty(), false, false, false);
        if open {
            Err("command output redirection target has an unterminated quote"@)
        } else if w.len() == 0 {
            Ok((None, end))
        } else {
            Ok((Some(w), end))
        }
    }
}

pub proof fn lemma_word_tail_progress(b: Seq<u8>, i: int, word: Seq<char>, sq: bool, dq: bool, esc: bool)
    requires
        0 <= i <= b.len(),
    ensures
        i <= word_tail(b, i, word, sq, dq, esc).1 <= b.len(),
        word_tail(b, i, word, sq, dq, esc).0.len() > word.len() ==> word_tail(b, i, word, sq, dq, esc).1 > i,
    decreases b.len() - i,
{
    if i < b.len() {
        let c = b[i];
        if sq {
            if c == 0x27 {
                lemma_word_tail_progress(b, i + 1, word, false, dq, esc);
            } else {
                lemma_word_tail_progress(b, i + 1, word.push(byte_char(c)), sq, dq, esc);
            }
        } else if dq {
            if esc {
                lemma_word_tail_progress(b, i + 1, word.push(byte_char(c)), sq, dq, false);
            } else if c == 0x5c {
                lemma_word_tail_progress(b, i + 1, word, sq, dq, true);
            } else if c == 0x22 {
                lemma_word_tail_progress(b, i + 1, word, sq, false, esc);
            } else {
                lemma_word_tail_progress(b, i + 1, word.push(byte_char(c)), sq, dq, esc);
            }
        } else if esc {
            lemma_word_tail_progress(b, i + 1, word.push(byte_char(c)), sq, dq, false);
        } else if is_ascii_ws_byte(c) || c == 0x3b || c == 0x7c || c == 0x3c {
        } else if c == 0x5c {
            lemma_word_tail_progress(b, i + 1, word, sq, dq, true);
        } else if c == 0x27 {
            lemma_word_tail_progress(b, i + 1, word, true, dq, esc);
        } else if c == 0x22 {
            lemma_word_tail_progress(b, i + 1, word, sq, true, esc);
        } else {
            lemma_word_tail_progress(b, i + 1, word.push(byte_char(c)), sq, dq, esc);
        }
    }
}

pub proof fn lemma_skip_ascii_ws_bounds(b: Seq<u8>, i: int)
    requires
        0 <= i,
    ensures
        i <= skip_ascii_ws(b, i),
        i <= b.len() ==> skip_ascii_ws(b, i) <= b.len(),
    decreases b.len() - i,
{
    if 0 <= i < b.len() && is_ascii_ws_byte(b[i]) {
        lemma_skip_ascii_ws_bounds(b, i + 1);
    }
}

/// `shell_word_spec` ends at or after its start, within the text, and past
/// its start when it yields a word.
pub proof fn lemma_shell_word_progress(b: Seq<u8>, start: int)
    requires
        0 <= start <= b.len(),
    ensures
        shell_word_spec(b, start) matches Ok((w, n)) ==> start <= n <= b.len() && (w is Some ==> n > start),
{
    lemma_skip_ascii_ws_bounds(b, start);
    let i = skip_ascii_ws(b, start);
    if i < b.len() {
        lemma_word_tail_progress(b, i, Seq::empty(), false, false, false);
    }
}

/// A view of a word-reading result.
pub open spec fn word_result_view(r: Result<(Option<String>, usize), String>) -> Result<
    (Option<Seq<char>>, int),
    Seq<char>,
> {
    match r {
        Ok((Some(w), n)) => Ok((Some(w@), n as int)),
        Ok((None, n)) => Ok((None, n as int)),
        Err(e) => Err(e@),
    }
}

fn is_ascii_ws(c: u8) -> (r: bool)
    ensures
        r == is_ascii_ws_byte(c),
{
    c == 0x20 || c == 0x09 || c == 0x0a || c == 0x0c || c == 0x0d
}

/// Reads the shell word that starts at (or after ASCII whitespace at)
/// `start`, honouring single quotes, double quotes and backslash escapes. A
/// word ends at unquoted whitespace, `;`, `|` or `<`.
pub fn shell_word_at(command: &str, start: usize) -> (r: Result<(Option<String>, usize), String>)
    ensures
        word_result_view(r) == shell_word_spec(command.spec_bytes(), start as int),
{
    let bytes = command.as_bytes();
    let ghost b = bytes@;
    let mut index = start;
    while index < bytes.len() && is_ascii_ws(bytes[index])
        invariant
            bytes@ == b,
            start <= index,
            skip_ascii_ws(b, start as int) == skip_ascii_ws(b, index as int),
        decreases bytes.len() - index,
    {
        index += 1;
    }
    if index >= bytes.len() {
        return Ok((None, index));
    }
    let mut word = String::new();
    let mut single_quoted = false;
    let mut double_quoted = false;
    let mut escaped = false;
    let ghost i0 = index as int;
    while index < bytes.len()
        invariant_except_break
            bytes@ == b,
            i0 <= index <= b.len(),
            word_tail(b, i0, Seq::empty(), false, false, false) == word_tail(
                b,
                index as int,
                word@,
                single_quoted,
                double_quoted,
                escaped,
            ),
        ensures
            bytes@ == b,
            index <= b.len(),
            word_tail(b, i0, Seq::empty(), false, false, false) == (
                word@,
                index as int,
                single_quoted || double_quoted,
            ),
        decreases bytes.len() - index,
    {
        let byte = bytes[index];
        if single_quoted {
            if byte == 0x27 {
                single_quoted = false;
            } else {
                push_char(&mut word, byte as char);
            }
            index += 1;
            continue;
        }
        if double_quoted {
            if escaped {
                push_char(&mut word, byte as char);
                escaped = false;
                index += 1;
                continue;
            }
            if byte == 0x5c {
                escaped = true;
            } else if byte == 0x22 {
                double_quoted = false;
            } else {
                push_char(&mut word, byte as char);
            }
            index += 1;
            continue;
        }
        if escaped {
            push_char(&mut word, byte as char);
            escaped = false;
            index += 1;
            continue;
        }
        if is_ascii_ws(byte) || byte == 0x3b || byte == 0x7c || byte == 0x3c {
            break;
        }
        if byte == 0x5c {
            escaped = true;
        } else if byte == 0x27 {
            single_quoted = true;
        } else if byte == 0x22 {
            double_quoted = true;
        } else {
            push_char(&mut word, byte as char);
        }
        index += 1;
    }
    if single_quoted || double_quoted {
        return Err("command output redirection target has an unterminated quote".to_owned());
    }
    if word.as_str().is_empty() {
        Ok((None, index))
    } else {
        Ok((Some(word), index))
    }
}


/// The views of a sequence of strings.
pub open spec fn strings_view(v: Seq<String>) -> Seq<Seq<char>> {
    v.map_values(|w: String| w@)
}

/// A view of a list-of-strings result.
pub open spec fn strings_result_view(r: Result<Vec<String>, String>) -> Result<Seq<Seq<char>>, Seq<char>> {
    match r {
        Ok(v) => Ok(strings_view(v@)),
        Err(e) => Err(e@),
    }
}

pub proof fn lemma_strings_view_push(v: Seq<String>, w: String)
    ensures
        strings_view(v.push(w)) == strings_view(v).push(w@),
{
    assert(strings_view(v.push(w)) =~= strings_view(v).push(w@));
}

/// First index at or after `i` that is not `<`, `>` or `|`.
pub open spec fn skip_redirect_ops(b: Seq<u8>, i: int) -> int
    decreases b.len() - i,
{
    if 0 <= i < b.len() && (b[i] == 0x3c || b[i] == 0x3e || b[i] == 0x7c) {
        skip_redirect_ops(b, i + 1)
    } else {
        i
    }
}

pub proof fn lemma_skip_redirect_ops_bounds(b: Seq<u8>, i: int)
    requires
        0 <= i <= b.len(),
    ensures
        i <= skip_redirect_ops(b, i) <= b.len(),
    decreases b.len() - i,
{
    if 0 <= i < b.len() && (b[i] == 0x3c || b[i] == 0x3e || b[i] == 0x7c) {
        lemma_skip_redirect_ops_bounds(b, i + 1);
    }
}

/// The argument words of the command text from `i` on, appended to `acc`:
/// redirections (`<`, `>` and the word after them) are skipped; an empty
/// quoted word is skipped by one byte and read again from there.
pub open spec fn words_from(b: Seq<u8>, i: int, acc: Seq<Seq<char>>) -> Result<Seq<Seq<char>>, Seq<char>>
    decreases b.len() + 1 - i,
{
    if i < 0 || i >= b.len() {
        Ok(acc)
    } else {
        let j = skip_ascii_ws(b, i);
        if j >= b.len() {
            Ok(acc)
        } else if b[j] == 0x3c || b[j] == 0x3e {
            let k = skip_redirect_ops(b, j + 1);
            match shell_word_spec(b, k) {
                Err(e) => Err(e),
                Ok((_, n)) => {
                    proof {
                        lemma_skip_ascii_ws_bounds(b, i);
                        lemma_skip_redirect_ops_bounds(b, j + 1);
                        lemma_shell_word_progress(b, k);
                    }
                    words_from(b, n, acc)
                },
            }
        } else {
            match shell_word_spec(b, j) {
                Err(e) => Err(e),
                Ok((Some(w), n)) => {
                    proof {
                        lemma_skip_ascii_ws_bounds(b, i);
                        lemma_shell_word_progress(b, j);
                    }
                    words_from(b, n, acc.push(w))
                },
                Ok((None, _)) => {
                    proof {
                        lemma_skip_ascii_ws_bounds(b, i);
                    }
                    words_from(b, j + 1, acc)
                },
            }
        }
    }
}

/// The argument words of a command (redirection targets excluded), as the
/// shell would split them before expansion.
pub fn command_words(command: &str) -> (r: Result<Vec<String>, String>)
    ensures
        strings_result_view(r) == words_from(command.spec_bytes(), 0, Seq::empty()),
{
    let bytes = command.as_bytes();
    let ghost b = bytes@;
    let mut words: Vec<String> = Vec::new();
    let mut index: usize = 0;
    proof {
        assert(strings_view(words@) =~= Seq::<Seq<char>>::empty());
    }
    while index < bytes.len()
        invariant
            bytes@ == b,
            b == command.spec_bytes(),
            index <= b.len() + 1,
            words_from(b, 0, Seq::empty()) == words_from(b, index as int, strings_view(words@)),
        decreases b.len() + 1 - index,
    {
        let ghost i0 = index as int;
        while index < bytes.len() && is_ascii_ws(bytes[index])
            invariant
                bytes@ == b,
            b == command.spec_bytes(),
                0 <= i0 < b.len(),
                i0 <= index <= b.len(),
                skip_ascii_ws(b, i0) == skip_ascii_ws(b, index as int),
                words_from(b, 0, Seq::empty()) == words_from(b, i0, strings_view(words@)),
            decreases bytes.len() - index,
        {
            index += 1;
        }
        if index >= bytes.len() {
            assert(skip_ascii_ws(b, index as int) == index as int);
            assert(words_from(b, i0, strings_view(words@)) == Ok::<Seq<Seq<char>>, Seq<char>>(strings_view(words@)));
            let r: Result<Vec<String>, String> = Ok(words);
            assert(strings_result_view(r) == words_from(b, 0, Seq::empty()));
            return r;
        }
        if bytes[index] == 0x3c || bytes[index] == 0x3e {
            let ghost j = index as int;
            index += 1;
            while index < bytes.len() && (bytes[index] == 0x3c || bytes[index] == 0x3e
                || bytes[index] == 0x7c)
                invariant
                    bytes@ == b,
            b == command.spec_bytes(),
                    0 <= i0 < b.len(),
                    j == skip_ascii_ws(b, i0),
                    j < b.len(),
                    b[j] == 0x3c || b[j] == 0x3e,
                    j < index <= b.len(),
                    skip_redirect_ops(b, j + 1) == skip_redirect_ops(b, index as int),
                    words_from(b, 0, Seq::empty()) == words_from(b, i0, strings_view(words@)),
                decreases bytes.len() - index,
            {
                index += 1;
            }
            proof {
                lemma_shell_word_progress(b, index as int);
            }
            match shell_word_at(command, index) {
                Err(e) => return Err(e),
                Ok((w, next)) => {
                    assert((shell_word_spec(b, index as int)->Ok_0).1 == next as int);
                    index = next;
                },
            }
        } else {
            proof {
                lemma_shell_word_progress(b, index as int);
            }
            match shell_word_at(command, index) {
                Err(e) => return Err(e),
                Ok((Some(word), next)) => {
                    assert(shell_word_spec(b, index as int) == Ok::<(Option<Seq<char>>, int), Seq<char>>((Some(word@), next as int)));
                    proof {
                        lemma_strings_view_push(words@, word);
                    }
                    words.push(word);
                    index = next;
                },
                Ok((None, _)) => {
                    index = index + 1;
                },
            }
        }
    }
    Ok(words)
}


/// The redirection targets named in the command text from `i` on, given the
/// quoting state, appended to `acc`. With `input` the operator is `<` (and
/// `<<`, `<<<` name no file; `<>` names one); otherwise it is `>` (also `>>`
/// and `>|`). Operators inside quotes or after a backslash do not count.
pub open spec fn redirect_targets(
    b: Seq<u8>,
    i: int,
    sq: bool,
    dq: bool,
    esc: bool,
    acc: Seq<Seq<char>>,
    input: bool,
) -> Result<Seq<Seq<char>>, Seq<char>>
    decreases b.len() - i,
{
    if i < 0 || i >= b.len() {
        Ok(acc)
    } else {
        let c = b[i];
        if sq {
            redirect_targets(b, i + 1, c != 0x27, dq, esc, acc, input)
        } else if dq {
            if esc {
                redirect_targets(b, i + 1, sq, dq, false, acc, input)
            } else if c == 0x5c {
                redirect_targets(b, i + 1, sq, dq, true, acc, input)
            } else if c == 0x22 {
                redirect_targets(b, i + 1, sq, false, esc, acc, input)
            } else {
                redirect_targets(b, i + 1, sq, dq, esc, acc, input)
            }
        } else if esc {
            redirect_targets(b, i + 1, sq, dq, false, acc, input)
        } else if c == 0x5c {
            redirect_targets(b, i + 1, sq, dq, true, acc, input)
        } else if c == 0x27 {
            redirect_targets(b, i + 1, true, dq, esc, acc, input)
        } else if c == 0x22 {
            redirect_targets(b, i + 1, sq, true, esc, acc, input)
        } else if input && c == 0x3c && i + 1 < b.len() && b[i + 1] == 0x3c {
            redirect_targets(b, i + 2, sq, dq, esc, acc, input)
        } else if (input && c == 0x3c) || (!input && c == 0x3e) {
            let ts = if i + 1 < b.len() && ((input && b[i + 1] == 0x3e) || (!input && (b[i + 1]
                == 0x3e || b[i + 1] == 0x7c))) {
                i + 2
            } else {
                i + 1
            };
            match shell_word_spec(b, ts) {
                Err(e) => Err(e),
                Ok((None, _)) => Err(
                    if input {
                        "command input redirection is missing a target path"@
                    } else {
                        "command output redirection is missing a target path"@
                    },
                ),
                Ok((Some(t), n)) => {
                    proof {
                        lemma_shell_word_progress(b, ts);
                    }
                    redirect_targets(b, n, sq, dq, esc, acc.push(t), input)
                },
            }
        } else {
            redirect_targets(b, i + 1, sq, dq, esc, acc, input)
        }
    }
}

fn redirection_targets(command: &str, input: bool) -> (r: Result<Vec<String>, String>)
    ensures
        strings_result_view(r) == redirect_targets(
            command.spec_bytes(),
            0,
            false,
            false,
            false,
            Seq::empty(),
            input,
        ),
{
    let bytes = command.as_bytes();
    let ghost b = bytes@;
    let mut targets: Vec<String> = Vec::new();
    let mut index: usize = 0;
    let mut single_quoted = false;
    let mut double_quoted = false;
    let mut escaped = false;
    proof {
        assert(strings_view(targets@) =~= Seq::<Seq<char>>::empty());
    }
    while index < bytes.len()
        invariant
            bytes@ == b,
            b == command.spec_bytes(),
            index <= b.len(),
            redirect_targets(b, 0, false, false, false, Seq::empty(), input) == redirect_targets(
                b,
                index as int,
                single_quoted,
                double_quoted,
                escaped,
                strings_view(targets@),
                input,
            ),
        decreases b.len() - index,
    {
        let byte = bytes[index];
        if single_quoted {
            if byte == 0x27 {
                single_quoted = false;
            }
            index += 1;
            continue;
        }
        if double_quoted {
            if escaped {
                escaped = false;
                index += 1;
                continue;
            }
            if byte == 0x5c {
                escaped = true;
            } else if byte == 0x22 {
                double_quoted = false;
            }
            index += 1;
            continue;
        }
        if escaped {
            escaped = false;
            index += 1;
            continue;
        }
        if byte == 0x5c {
            escaped = true;
            index += 1;
        } else if byte == 0x27 {
            single_quoted = true;
            index += 1;
        } else if byte == 0x22 {
            double_quoted = true;
            index += 1;
        } else if input && byte == 0x3c && index + 1 < bytes.len() && bytes[index + 1] == 0x3c {
            index += 2;
        } else if (input && byte == 0x3c) || (!input && byte == 0x3e) {
            let mut target_start = index + 1;
            if target_start < bytes.len() && ((input && bytes[target_start] == 0x3e) || (!input
                && (bytes[target_start] == 0x3e || bytes[target_start] == 0x7c))) {
                target_start += 1;
            }
            proof {
                lemma_shell_word_progress(b, target_start as int);
            }
            match shell_word_at(command, target_start) {
                Err(e) => return Err(e),
                Ok((None, _)) => {
                    if input {
                        return Err("command input redirection is missing a target path".to_owned());
                    } else {
                        return Err("command output redirection is missing a target path".to_owned());
                    }
                },
                Ok((Some(target), next)) => {
                    assert((shell_word_spec(b, target_start as int)->Ok_0).1 == next as int);
                    proof {
                        lemma_strings_view_push(targets@, target);
                    }
                    targets.push(target);
                    index = next;
                },
            }
        } else {
            index += 1;
        }
    }
    Ok(targets)
}

/// The targets of the command's output redirections (`>`, `>>`, `>|`),
/// quoting and escapes honoured.
pub fn command_output_redirection_targets(command: &str) -> (r: Result<Vec<String>, String>)
    ensures
        strings_result_view(r) == redirect_targets(
            command.spec_bytes(),
            0,
            false,
            false,
            false,
            Seq::empty(),
            false,
        ),
{
    redirection_targets(command, false)
}

/// The targets of the command's input redirections (`<`, `<>`; here-docs and
/// here-strings name no file), quoting and escapes honoured.
pub fn command_input_redirection_targets(command: &str) -> (r: Result<Vec<String>, String>)
    ensures
        strings_result_view(r) == redirect_targets(
            command.spec_bytes(),
            0,
            false,
            false,
            false,
            Seq::empty(),
            true,
        ),
{
    redirection_targets(command, true)
}


/// A `[` or `]` byte at `index` that delimits a `[ ... ]` test command rather
/// than a glob: `[` opens the command (only whitespace before it, whitespace
/// after it); `]` closes it (only whitespace after it, whitespace before it,
/// and the command starts with `[ `).
pub open spec fn bracket_delimiter(b: Seq<u8>, index: int, byte: u8) -> bool {
    if byte == 0x5b {
        ws_utf8(b.subrange(0, index)) && index + 1 < b.len() && is_ascii_ws_byte(b[index + 1])
    } else if byte == 0x5d {
        &&& ws_utf8(b.subrange(index + 1, b.len() as int))
        &&& trim_start_utf8(b).len() >= 2
        &&& trim_start_utf8(b)[0] == 0x5b
        &&& trim_start_utf8(b)[1] == 0x20
        &&& index > 0
        &&& is_ascii_ws_byte(b[index - 1])
    } else {
        false
    }
}

/// The bytes of `b[i..]` with leading whitespace removed.
fn trim_start_from(b: &[u8], i: usize) -> (r: Vec<u8>)
    requires
        i <= b@.len(),
    ensures
        r@ == trim_start_utf8(b@.subrange(i as int, b@.len() as int)),
{
    let mut i = i;
    let ghost i0 = i;
    while i < b.len()
        invariant_except_break
            i0 <= i <= b@.len(),
            trim_start_utf8(b@.subrange(i0 as int, b@.len() as int)) == trim_start_utf8(
                b@.subrange(i as int, b@.len() as int),
            ),
        ensures
            i0 <= i <= b@.len(),
            trim_start_utf8(b@.subrange(i0 as int, b@.len() as int)) == b@.subrange(
                i as int,
                b@.len() as int,
            ),
        decreases b@.len() - i,
    {
        let n = ws_prefix_len_at(b, i);
        if n == 0 {
            break;
        }
        assert(b@.subrange(i as int, b@.len() as int).subrange(n as int, b@.len() - i)
            =~= b@.subrange(i + n, b@.len() as int));
        i += n;
    }
    slice_range(b, i, b.len())
}

/// Whether the `[` or `]` at `index` delimits a `[ ... ]` test command.
pub fn is_shell_test_bracket_delimiter(command: &str, index: usize, byte: u8) -> (r: bool)
    requires
        index < command.spec_bytes().len(),
    ensures
        r == bracket_delimiter(command.spec_bytes(), index as int, byte),
{
    let bytes = command.as_bytes();
    assert(bytes@.len() == bytes.len());
    if byte == 0x5b {
        ws_utf8_range(bytes, 0, index) && index + 1 < bytes.len() && is_ascii_ws(bytes[index + 1])
    } else if byte == 0x5d {
        if !ws_utf8_range(bytes, index + 1, bytes.len()) {
            return false;
        }
        let trimmed = trim_start_from(bytes, 0);
        assert(bytes@.subrange(0, bytes@.len() as int) =~= bytes@);
        trimmed.len() >= 2 && trimmed[0] == 0x5b && trimmed[1] == 0x20 && index > 0
            && is_ascii_ws(bytes[index - 1])
    } else {
        false
    }
}

/// The message refusing a shell control operator.
pub open spec fn control_operator_message(c: u8) -> Seq<char> {
    "shell control operator `"@ + seq![byte_char(c)] + "` is not permitted"@
}

/// The first reason the command text from `i` on (with the given quoting
/// state) would make the shell expand, substitute or chain something, or
/// `None` when it is a plain command.
pub open spec fn arg_violation(b: Seq<u8>, i: int, sq: bool, dq: bool, esc: bool) -> Option<Seq<char>>
    decreases b.len() - i,
{
    if i < 0 || i >= b.len() {
        if sq || dq {
            Some("command has an unterminated quote"@)
        } else if esc {
            Some("command has a trailing escape"@)
        } else {
            None
        }
    } else {
        let c = b[i];
        let dollar_paren = c == 0x24 && i + 1 < b.len() && b[i + 1] == 0x28;
        if sq {
            arg_violation(b, i + 1, c != 0x27, dq, esc)
        } else if esc {
            arg_violation(b, i + 1, sq, dq, false)
        } else if dq {
            if c == 0x5c {
                arg_violation(b, i + 1, sq, dq, true)
            } else if c == 0x22 {
                arg_violation(b, i + 1, sq, false, esc)
            } else if c == 0x60 {
                Some("command substitution with backticks is not permitted"@)
            } else if dollar_paren {
                Some("command substitution with `$(` is not permitted"@)
            } else if c == 0x24 {
                Some("shell variable expansion is not permitted"@)
            } else {
                arg_violation(b, i + 1, sq, dq, esc)
            }
        } else if c == 0x5c {
            arg_violation(b, i + 1, sq, dq, true)
        } else if c == 0x27 {
            arg_violation(b, i + 1, true, dq, esc)
        } else if c == 0x22 {
            arg_violation(b, i + 1, sq, true, esc)
        } else if c == 0x60 {
            Some("command substitution with backticks is not permitted"@)
        } else if dollar_paren {
            Some("command substitution with `$(` is not permitted"@)
        } else if c == 0x24 {
            Some("shell variable expansion is not permitted"@)
        } else if c == 0x2a || c == 0x3f {
            Some("shell glob expansion is not permitted"@)
        } else if (c == 0x5b || c == 0x5d) && !bracket_delimiter(b, i, c) {
            Some("shell glob expansion is not permitted"@)
        } else if c == 0x7b || c == 0x7d {
            Some("shell brace expansion is not permitted"@)
        } else if c == 0x7e {
            Some("shell tilde expansion is not permitted"@)
        } else if c == 0x3b || c == 0x7c || c == 0x26 || c == 0x28 || c == 0x29 {
            Some(control_operator_message(c))
        } else if c == 0x0a || c == 0x0d {
            if ws_utf8(b.subrange(i, b.len() as int)) {
                None
            } else {
                Some("shell command separators are not permitted"@)
            }
        } else {
            arg_violation(b, i + 1, sq, dq, esc)
        }
    }
}

/// A view of an optional message.
pub open spec fn opt_string_view(o: Option<String>) -> Option<Seq<char>> {
    match o {
        Some(s) => Some(s@),
        None => None,
    }
}

/// The reason the shell would expand, substitute or chain something in the
/// command (variables, `$(..)`, backticks, globs, braces, `~`, `;`, `|`,
/// `&`, parentheses, extra lines, open quotes, a trailing escape), or `None`.
pub fn command_argument_policy_violation(command: &str) -> (r: Option<String>)
    ensures
        opt_string_view(r) == arg_violation(command.spec_bytes(), 0, false, false, false),
{
    let bytes = command.as_bytes();
    let ghost b = bytes@;
    let mut index: usize = 0;
    let mut single_quoted = false;
    let mut double_quoted = false;
    let mut escaped = false;
    while index < bytes.len()
        invariant
            bytes@ == b,
            b == command.spec_bytes(),
            index <= b.len(),
            arg_violation(b, 0, false, false, false) == arg_violation(
                b,
                index as int,
                single_quoted,
                double_quoted,
                escaped,
            ),
        decreases b.len() - index,
    {
        let byte = bytes[index];
        let dollar_paren = byte == 0x24 && index + 1 < bytes.len() && bytes[index + 1] == 0x28;
        if single_quoted {
            if byte == 0x27 {
                single_quoted = false;
            }
            index += 1;
            continue;
        }
        if escaped {
            escaped = false;
            index += 1;
            continue;
        }
        if double_quoted {
            if byte == 0x5c {
                escaped = true;
                index += 1;
                continue;
            } else if byte == 0x22 {
                double_quoted = false;
                index += 1;
                continue;
            } else if byte == 0x60 {
                return Some("command substitution with backticks is not permitted".to_owned());
            } else if dollar_paren {
                return Some("command substitution with `$(` is not permitted".to_owned());
            } else if byte == 0x24 {
                return Some("shell variable expansion is not permitted".to_owned());
            } else {
                index += 1;
                continue;
            }
        }
        if byte == 0x5c {
            escaped = true;
        } else if byte == 0x27 {
            single_quoted = true;
        } else if byte == 0x22 {
            double_quoted = true;
        } else if byte == 0x60 {
            return Some("command substitution with backticks is not permitted".to_owned());
        } else if dollar_paren {
            return Some("command substitution with `$(` is not permitted".to_owned());
        } else if byte == 0x24 {
            return Some("shell variable expansion is not permitted".to_owned());
        } else if byte == 0x2a || byte == 0x3f {
            return Some("shell glob expansion is not permitted".to_owned());
        } else if (byte == 0x5b || byte == 0x5d) && !is_shell_test_bracket_delimiter(
            command,
            index,
            byte,
        ) {
            return Some("shell glob expansion is not permitted".to_owned());
        } else if byte == 0x7b || byte == 0x7d {
            return Some("shell brace expansion is not permitted".to_owned());
        } else if byte == 0x7e {
            return Some("shell tilde expansion is not permitted".to_owned());
        } else if byte == 0x3b || byte == 0x7c || byte == 0x26 || byte == 0x28 || byte == 0x29 {
            let mut message = "shell control operator `".to_owned();
            push_char(&mut message, byte as char);
            message.append("` is not permitted");
            return Some(message);
        } else if byte == 0x0a || byte == 0x0d {
            if ws_utf8_range(bytes, index, bytes.len()) {
                return None;
            }
            return Some("shell command separators are not permitted".to_owned());
        }
        index += 1;
    }
    if single_quoted || double_quoted {
        return Some("command has an unterminated quote".to_owned());
    }
    if escaped {
        return Some("command has a trailing escape".to_owned());
    }
    None
}


/// The path has a `..` component (its `/`-separated parts include `..`).
pub open spec fn has_parent_component(cs: Seq<char>) -> bool {
    exists|i: int|
        0 <= i && i + 2 <= cs.len() && #[trigger] cs[i] == '.' && cs[i + 1] == '.' && (i == 0
            || cs[i - 1] == '/') && (i + 2 == cs.len() || cs[i + 2] == '/')
}

/// A path argument leaves the workspace: it is `~`, starts with `~/` or `/`,
/// or climbs with `..`.
pub open spec fn escapes_workspace(cs: Seq<char>) -> bool {
    &&& cs.len() > 0
    &&& {
        ||| cs == seq!['~']
        ||| (cs.len() >= 2 && cs[0] == '~' && cs[1] == '/')
        ||| cs[0] == '/'
        ||| has_parent_component(cs)
    }
}

/// Whether a path argument leaves the workspace.
pub fn path_argument_escapes_workspace(value: &str) -> (r: bool)
    ensures
        r == escapes_workspace(value@),
{
    let cs = chars_of(value);
    if cs.len() == 0 {
        return false;
    }
    if (cs.len() == 1 && cs[0] == '~') || (cs.len() >= 2 && cs[0] == '~' && cs[1] == '/')
        || cs[0] == '/' {
        proof {
            if cs.len() == 1 && cs[0] == '~' {
                assert(cs@ =~= seq!['~']);
            }
        }
        return true;
    }
    let climbs = path_has_parent_component(&cs);
    proof {
        if cs@ == seq!['~'] {
            assert(cs@[0] == '~');
        }
    }
    climbs
}

/// Whether a path has a `..` component.
pub fn path_has_parent_component(cs: &Vec<char>) -> (r: bool)
    ensures
        r == has_parent_component(cs@),
{
    let mut i: usize = 0;
    while i < cs.len() && cs.len() - i >= 2
        invariant
            i <= cs.len(),
            forall|j: int|
                0 <= j < i ==> !(j + 2 <= cs@.len() && #[trigger] cs@[j] == '.' && cs@[j + 1] == '.'
                    && (j == 0 || cs@[j - 1] == '/') && (j + 2 == cs@.len() || cs@[j + 2] == '/')),
        decreases cs.len() - i,
    {
        if cs[i] == '.' && cs[i + 1] == '.' && (i == 0 || cs[i - 1] == '/') && (i + 2 == cs.len()
            || cs[i + 2] == '/') {
            return true;
        }
        i += 1;
    }
    false
}

/// Index of the first `=` in `cs`, if any.
pub open spec fn first_equals(cs: Seq<char>) -> Option<int> {
    if exists|k: int| 0 <= k < cs.len() && cs[k] == '=' {
        Some(choose|k: int| 0 <= k < cs.len() && cs[k] == '=' && forall|j: int| 0 <= j < k ==> cs[j] != '=')
    } else {
        None
    }
}

/// Why a command word may not be used as a path argument: it, or the value
/// after its first `=`, leaves the workspace.
pub open spec fn path_argument_violation(cs: Seq<char>) -> Option<Seq<char>> {
    if escapes_workspace(cs) {
        Some("must stay within the workspace"@)
    } else if first_equals(cs) matches Some(k) && escapes_workspace(cs.subrange(k + 1, cs.len() as int)) {
        Some("must stay within the workspace"@)
    } else {
        None
    }
}

/// Why a command word may not be used as a path argument, if it may not.
pub fn command_path_argument_policy_violation(word: &str) -> (r: Option<String>)
    ensures
        opt_string_view(r) == path_argument_violation(word@),
{
    if path_argument_escapes_workspace(word) {
        return Some("must stay within the workspace".to_owned());
    }
    let cs = chars_of(word);
    let mut k: usize = 0;
    while k < cs.len() && cs[k] != '='
        invariant
            cs@ == word@,
            k <= cs.len(),
            forall|j: int| 0 <= j < k ==> cs@[j] != '=',
        decreases cs.len() - k,
    {
        k += 1;
    }
    if k < cs.len() {
        let ghost wk = k as int;
        assert(exists|x: int| 0 <= x < cs@.len() && cs@[x] == '=') by {
            assert(cs@[wk] == '=');
        }
        let ghost chosen = choose|x: int| 0 <= x < cs@.len() && cs@[x] == '=' && forall|j: int| 0 <= j < x ==> cs@[j] != '=';
        assert(0 <= wk < cs@.len() && cs@[wk] == '=' && forall|j: int| 0 <= j < wk ==> cs@[j] != '=');
        proof {
            if chosen < wk {
                assert(cs@[chosen] != '=');
            }
            if chosen > wk {
                assert(cs@[wk] != '=');
            }
        }
        assert(first_equals(word@) == Some(wk));
        let rest = crate::text::chars_slice(&cs, k + 1, cs.len());
        let rest_str = crate::text::string_from_chars(&rest);
        if path_argument_escapes_workspace(rest_str.as_str()) {
            return Some("must stay within the workspace".to_owned());
        }
    } else {
        assert(first_equals(word@) is None);
    }
    None
}

/// A redirection target that names a file descriptor (`&-` or `&` and digits).
pub open spec fn fd_target(cs: Seq<char>) -> bool {
    &&& cs.len() >= 1
    &&& cs[0] == '&'
    &&& (cs.subrange(1, cs.len() as int) == seq!['-'] || forall|i: int|
        1 <= i < cs.len() ==> '0' <= #[trigger] cs[i] <= '9')
}

/// Whether a redirection target names a file descriptor rather than a file.
pub fn is_fd_redirection_target(target: &str) -> (r: bool)
    ensures
        r == fd_target(target@),
{
    let cs = chars_of(target);
    if cs.len() == 0 || cs[0] != '&' {
        return false;
    }
    if cs.len() == 2 && cs[1] == '-' {
        assert(cs@.subrange(1, 2) =~= seq!['-']);
        return true;
    }
    proof {
        if cs@.subrange(1, cs@.len() as int) == seq!['-'] {
            assert(seq!['-'].len() == 1 && seq!['-'][0] == '-');
            assert(cs@.subrange(1, cs@.len() as int).len() == 1);
            assert(cs@[1] == cs@.subrange(1, cs@.len() as int)[0]);
        }
    }
    let mut i: usize = 1;
    while i < cs.len()
        invariant
            cs@ == target@,
            cs@[0] == '&',
            cs@.subrange(1, cs@.len() as int) != seq!['-'],
            1 <= i <= cs.len(),
            forall|j: int| 1 <= j < i ==> '0' <= #[trigger] cs@[j] <= '9',
        decreases cs.len() - i,
    {
        if !('0' <= cs[i] && cs[i] <= '9') {
            assert(!('0' <= cs@[i as int] <= '9'));
            return false;
        }
        i += 1;
    }
    true
}

} // verus!
