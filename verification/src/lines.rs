//! Line-oriented views of text: `str::lines`, line windows with offsets and
//! limits, and the short renderings the harness prompt uses.
use vstd::prelude::*;
use crate::text::{
    chars_of, decimal, split_chars, split_on, string_from_chars, trim_chars, trim_spec,
    u64_to_decimal,
};
use crate::turn::join_on;

verus! {

/// One piece of a `\n` split as a line: the `\r` of a `\r\n` ending dropped
/// (only pieces followed by `\n` have one).
pub open spec fn line_piece(piece: Seq<char>, followed_by_newline: bool) -> Seq<char> {
    if followed_by_newline && piece.len() > 0 && piece.last() == '\r' {
        piece.drop_last()
    } else {
        piece
    }
}

/// The lines of a text as `str::lines` yields them: split at `\n` or `\r\n`,
/// with no empty line after a final line ending (and none for empty text).
pub open spec fn lines_spec(cs: Seq<char>) -> Seq<Seq<char>> {
    let pieces = split_on(cs, seq!['\n']);
    let n = if pieces.last().len() == 0 { pieces.len() - 1 } else { pieces.len() as int };
    Seq::new(n as nat, |i: int| line_piece(pieces[i], i < pieces.len() - 1))
}

/// The lines of a text.
pub fn lines_of(s: &str) -> (r: Vec<Vec<char>>)
    ensures
        r@.map_values(|v: Vec<char>| v@) == lines_spec(s@),
{
    let cs = chars_of(s);
    let nl = vec!['\n'];
    assert(nl@ =~= seq!['\n']);
    let pieces = split_chars(&cs, &nl);
    let ghost pv = pieces@.map_values(|v: Vec<char>| v@);
    proof {
        crate::text::lemma_split_on_props(cs@, seq!['\n']);
    }
    let last = pieces.len() - 1;
    let n = if pieces[last].len() == 0 { last } else { pieces.len() };
    let mut out: Vec<Vec<char>> = Vec::new();
    let mut i: usize = 0;
    while i < n
        invariant
            i <= n,
            n <= pieces@.len(),
            last == pieces@.len() - 1,
            pv == pieces@.map_values(|v: Vec<char>| v@),
            out@.len() == i,
            forall|k: int| 0 <= k < i ==> #[trigger] out@[k]@ == line_piece(pv[k], k < pv.len() - 1),
        decreases n - i,
    {
        let piece = &pieces[i];
        if i < last && piece.len() > 0 && piece[piece.len() - 1] == '\r' {
            let cut = crate::text::chars_slice(piece, 0, piece.len() - 1);
            assert(cut@ =~= piece@.drop_last());
            out.push(cut);
        } else {
            out.push(piece.clone());
        }
        i += 1;
    }
    assert(out@.map_values(|v: Vec<char>| v@) =~= lines_spec(s@));
    out
}

/// The lines `ls[from..to]` joined with `\n`.
fn join_lines(ls: &Vec<Vec<char>>, from: usize, to: usize) -> (r: String)
    requires
        from <= to <= ls@.len(),
    ensures
        r@ == join_on(ls@.map_values(|v: Vec<char>| v@).subrange(from as int, to as int), seq!['\n']),
{
    let ghost lv = ls@.map_values(|v: Vec<char>| v@);
    let mut out = String::new();
    let mut i = from;
    assert(lv.subrange(from as int, from as int) =~= Seq::<Seq<char>>::empty());
    while i < to
        invariant
            from <= i <= to <= ls@.len(),
            lv == ls@.map_values(|v: Vec<char>| v@),
            out@ == join_on(lv.subrange(from as int, i as int), seq!['\n']),
        decreases to - i,
    {
        let ghost prev = lv.subrange(from as int, i as int);
        assert(lv.subrange(from as int, i + 1).drop_last() =~= prev);
        assert(lv.subrange(from as int, i + 1).last() == ls@[i as int]@);
        if i > from {
            crate::text::push_char(&mut out, '\n');
        }
        let piece = string_from_chars(&ls[i]);
        let ghost before = out@;
        out.append(piece.as_str());
        proof {
            if i == from {
                assert(lv.subrange(from as int, i + 1).len() == 1);
                assert(before =~= Seq::<char>::empty());
                assert(out@ =~= ls@[i as int]@);
            }
        }
        i += 1;
    }
    out
}

/// The text of lines `offset..offset + limit` (1-based offset; either bound
/// optional): the whole text when neither is given, empty past the end.
pub open spec fn sliced_lines(cs: Seq<char>, offset: Option<usize>, limit: Option<usize>) -> Seq<char> {
    if offset is None && limit is None {
        cs
    } else {
        let ls = lines_spec(cs);
        let start = match offset {
            Some(o) => if o >= 1 { o - 1 } else { 0 },
            None => 0,
        };
        let end = match limit {
            Some(l) => if start + l <= ls.len() { start + l } else { ls.len() as int },
            None => ls.len() as int,
        };
        if start >= ls.len() {
            Seq::empty()
        } else {
            join_on(ls.subrange(start, end), seq!['\n'])
        }
    }
}

/// Applies a 1-based line offset and a line limit to file content.
pub fn slice_lines(content: &str, offset: Option<usize>, limit: Option<usize>) -> (r: String)
    requires
        ({
            let start = match offset {
                Some(o) => if o >= 1 { o - 1 } else { 0 },
                None => 0,
            };
            limit matches Some(l) ==> start + l <= usize::MAX
        }),
    ensures
        r@ == sliced_lines(content@, offset, limit),
{
    if offset.is_none() && limit.is_none() {
        return content.to_owned();
    }
    let start: usize = match offset {
        Some(o) => if o >= 1 { o - 1 } else { 0 },
        None => 0,
    };
    let ls = lines_of(content);
    let end = match limit {
        Some(l) => if start + l <= ls.len() { start + l } else { ls.len() },
        None => ls.len(),
    };
    if start >= ls.len() {
        return String::new();
    }
    join_lines(&ls, start, end)
}

/// The default number of lines a `read` returns.
pub const DEFAULT_READ_LINE_LIMIT: usize = 2000;

/// The result of a `read` line window: the lines from the 1-based `offset`
/// (default 1), at most `limit` (default [`DEFAULT_READ_LINE_LIMIT`]) of
/// them, with a continuation notice when lines remain; an error when the
/// offset is past the last line.
pub open spec fn line_window(cs: Seq<char>, offset: Option<usize>, limit: Option<usize>) -> Result<Seq<char>, Seq<char>> {
    let ls = lines_spec(cs);
    let total = ls.len() as int;
    if offset matches Some(o) && o > total {
        Err("Offset "@ + decimal(offset->Some_0 as nat) + " is beyond end of file ("@ + decimal(total as nat) + " lines total)"@)
    } else {
        let start = match offset {
            Some(o) => if o >= 1 { o - 1 } else { 0 },
            None => 0,
        };
        let window = match limit {
            Some(l) => l as int,
            None => DEFAULT_READ_LINE_LIMIT as int,
        };
        let end = if start + window <= total { start + window } else { total };
        let out = join_on(ls.subrange(start, end), seq!['\n']);
        let remaining = total - end;
        if remaining > 0 {
            if limit is Some {
                Ok(out + "\n["@ + decimal(remaining as nat) + " more lines in file. Use offset="@ + decimal((end + 1) as nat) + " to continue.]"@)
            } else {
                Ok(out + "\n[Showing lines "@ + decimal((start + 1) as nat) + "-"@ + decimal(end as nat) + " of "@ + decimal(total as nat) + ". Use offset="@ + decimal((end + 1) as nat) + " to continue.]"@)
            }
        } else {
            Ok(out)
        }
    }
}

/// A view of a text result.
pub open spec fn text_result_view(r: Result<String, String>) -> Result<Seq<char>, Seq<char>> {
    match r {
        Ok(s) => Ok(s@),
        Err(e) => Err(e@),
    }
}

/// Applies the `read` line window.
pub fn read_line_window(content: &str, offset: Option<usize>, limit: Option<usize>) -> (r: Result<String, String>)
    requires
        ({
            let start = match offset {
                Some(o) => if o >= 1 { o - 1 } else { 0 },
                None => 0,
            };
            let window = match limit {
                Some(l) => l as int,
                None => DEFAULT_READ_LINE_LIMIT as int,
            };
            start + window <= usize::MAX
        }),
    ensures
        text_result_view(r) == line_window(content@, offset, limit),
{
    let ls = lines_of(content);
    let total = ls.len();
    match offset {
        Some(requested) => {
            if requested > total {
                let mut m = "Offset ".to_owned();
                m.append(u64_to_decimal(requested as u64).as_str());
                m.append(" is beyond end of file (");
                m.append(u64_to_decimal(total as u64).as_str());
                m.append(" lines total)");
                return Err(m);
            }
        },
        None => {},
    }
    let start: usize = match offset {
        Some(o) => if o >= 1 { o - 1 } else { 0 },
        None => 0,
    };
    let window = match limit {
        Some(l) => l,
        None => DEFAULT_READ_LINE_LIMIT,
    };
    let end = if start + window <= total { start + window } else { total };
    let mut out = join_lines(&ls, start, end);
    let remaining = total - end;
    if remaining > 0 {
        if limit.is_some() {
            out.append("\n[");
            out.append(u64_to_decimal(remaining as u64).as_str());
            out.append(" more lines in file. Use offset=");
            out.append(u64_to_decimal((end + 1) as u64).as_str());
            out.append(" to continue.]");
        } else {
            out.append("\n[Showing lines ");
            out.append(u64_to_decimal((start + 1) as u64).as_str());
            out.append("-");
            out.append(u64_to_decimal(end as u64).as_str());
            out.append(" of ");
            out.append(u64_to_decimal(total as u64).as_str());
            out.append(". Use offset=");
            out.append(u64_to_decimal((end + 1) as u64).as_str());
            out.append(" to continue.]");
        }
    }
    Ok(out)
}

/// The first line of a description that is not blank after trimming,
/// trimmed; empty when there is none.
pub open spec fn first_line_spec(cs: Seq<char>) -> Seq<char> {
    let ls = lines_spec(cs);
    if exists|i: int| 0 <= i < ls.len() && trim_spec(ls[i]).len() > 0 {
        trim_spec(ls[choose|i: int| 0 <= i < ls.len() && trim_spec(ls[i]).len() > 0 && forall|j: int| 0 <= j < i ==> trim_spec(#[trigger] ls[j]).len() == 0])
    } else {
        Seq::empty()
    }
}

/// The first non-blank line of a tool description, for one-line prompt
/// snippets.
pub fn first_line(description: &str) -> (r: String)
    ensures
        r@ == first_line_spec(description@),
{
    let ls = lines_of(description);
    let ghost lv = ls@.map_values(|v: Vec<char>| v@);
    let mut i: usize = 0;
    while i < ls.len()
        invariant
            i <= ls@.len(),
            lv == ls@.map_values(|v: Vec<char>| v@),
            lv == lines_spec(description@),
            forall|j: int| 0 <= j < i ==> trim_spec(#[trigger] lv[j]).len() == 0,
        decreases ls.len() - i,
    {
        let t = trim_chars(&ls[i]);
        if t.len() > 0 {
            let ghost w = i as int;
            assert(trim_spec(lv[w]).len() > 0);
            let ghost c = choose|k: int| 0 <= k < lv.len() && trim_spec(lv[k]).len() > 0 && forall|j: int| 0 <= j < k ==> trim_spec(#[trigger] lv[j]).len() == 0;
            proof {
                assert(0 <= w < lv.len() && trim_spec(lv[w]).len() > 0 && forall|j: int| 0 <= j < w ==> trim_spec(#[trigger] lv[j]).len() == 0);
                if c < w {
                    assert(trim_spec(lv[c]).len() == 0);
                }
                if c > w {
                    assert(trim_spec(lv[w]).len() == 0);
                }
            }
            return string_from_chars(&t);
        }
        i += 1;
    }
    String::new()
}

/// One entry of the `<available_skills>` catalogue.
#[derive(Clone, Debug)]
pub struct SkillCatalogueEntry {
    pub name: String,
    pub description: String,
    pub location: String,
}

/// The catalogue block of one skill.
pub open spec fn skill_block(s: SkillCatalogueEntry) -> Seq<char> {
    "\n  <skill name=\""@ + s.name@ + "\" location=\""@ + s.location@ + "\">\n  "@ + s.description@
        + "\n  </skill>"@
}

/// The blocks of the skills, in order.
pub open spec fn skill_blocks(skills: Seq<SkillCatalogueEntry>) -> Seq<char>
    decreases skills.len(),
{
    if skills.len() == 0 {
        Seq::empty()
    } else {
        skill_blocks(skills.drop_last()) + skill_block(skills.last())
    }
}

/// Renders the `<available_skills>` catalogue: a header, one block per skill
/// with its name, location and description, and the closing tag.
pub fn render_available_skills(skills: &[SkillCatalogueEntry]) -> (r: String)
    ensures
        r@ == "Available skills \u{2014} read a skill's location to load its full instructions:\n<available_skills>"@
            + skill_blocks(skills@) + "\n</available_skills>"@,
{
    let mut body = "Available skills \u{2014} read a skill's location to load its full instructions:\n<available_skills>".to_owned();
    let ghost header = body@;
    let mut i: usize = 0;
    assert(skills@.subrange(0, 0) =~= Seq::<SkillCatalogueEntry>::empty());
    while i < skills.len()
        invariant
            i <= skills@.len(),
            body@ == header + skill_blocks(skills@.subrange(0, i as int)),
        decreases skills.len() - i,
    {
        let skill = &skills[i];
        assert(skills@.subrange(0, i + 1).drop_last() =~= skills@.subrange(0, i as int));
        body.append("\n  <skill name=\"");
        body.append(skill.name.as_str());
        body.append("\" location=\"");
        body.append(skill.location.as_str());
        body.append("\">\n  ");
        body.append(skill.description.as_str());
        body.append("\n  </skill>");
        i += 1;
    }
    assert(skills@.subrange(0, skills@.len() as int) =~= skills@);
    body.append("\n</available_skills>");
    body
}


/// A `read` shows at most its window of lines: for content of `n` lines, a
/// 1-based offset `o <= n` (default 1) and a window `w` (the limit, default
/// [`DEFAULT_READ_LINE_LIMIT`]), the text is exactly lines `o ..= min(o-1+w, n)`
/// joined by newlines when they reach the end; otherwise it is lines
/// `o ..= o-1+w` followed by a continuation notice that names offset `o+w`.
/// An offset past the last line is refused.
pub proof fn law_read_window_shows_at_most_the_limit(cs: Seq<char>, offset: Option<usize>, limit: Option<usize>) -> (p: Seq<char>)
    ensures
        (offset matches Some(o) && o > lines_spec(cs).len()) ==> line_window(cs, offset, limit) is Err,
        !(offset matches Some(o) && o > lines_spec(cs).len()) ==> ({
            let ls = lines_spec(cs);
            let n = ls.len() as int;
            let start: int = match offset {
                Some(o) => if o >= 1 { o - 1 } else { 0 },
                None => 0,
            };
            let w: int = match limit {
                Some(l) => l as int,
                None => 2000,
            };
            &&& 0 <= start <= n
            &&& line_window(cs, offset, limit) is Ok
            &&& start + w >= n ==> line_window(cs, offset, limit) == Ok::<Seq<char>, Seq<char>>(
                join_on(ls.subrange(start, n), seq!['\n']),
            )
            &&& start + w < n ==> line_window(cs, offset, limit) == Ok::<Seq<char>, Seq<char>>(
                    join_on(ls.subrange(start, start + w), seq!['\n']) + "\n["@ + p + "Use offset="@ + decimal(
                        (start + w + 1) as nat,
                    ) + " to continue.]"@,
                )
        }),
{
    let ls = lines_spec(cs);
    let n = ls.len() as int;
    let start: int = match offset {
        Some(o) => if o >= 1 { o - 1 } else { 0 },
        None => 0,
    };
    let w: int = match limit {
        Some(l) => l as int,
        None => 2000,
    };
    if offset matches Some(o) && o > n {
        return Seq::empty();
    }
    if start + w < n {
        let out = join_on(ls.subrange(start, start + w), seq!['\n']);
        let d = decimal((start + w + 1) as nat);
        reveal_strlit("\n[");
        reveal_strlit("Use offset=");
        reveal_strlit(" to continue.]");
        if limit is Some {
            reveal_strlit(" more lines in file. Use offset=");
            reveal_strlit(" more lines in file. ");
            let p = decimal((n - (start + w)) as nat) + " more lines in file. "@;
            assert(" more lines in file. Use offset="@ =~= " more lines in file. "@ + "Use offset="@);
            assert(out + "\n["@ + decimal((n - (start + w)) as nat) + " more lines in file. Use offset="@ + d + " to continue.]"@
                =~= out + "\n["@ + p + "Use offset="@ + d + " to continue.]"@);
            p
        } else {
            reveal_strlit("Showing lines ");
            reveal_strlit("\n[Showing lines ");
            reveal_strlit(". Use offset=");
            reveal_strlit(". ");
            let p = "Showing lines "@ + decimal((start + 1) as nat) + "-"@ + decimal((start + w) as nat) + " of "@ + decimal(n as nat) + ". "@;
            assert("\n[Showing lines "@ =~= "\n["@ + "Showing lines "@);
            assert(". Use offset="@ =~= ". "@ + "Use offset="@);
            assert(out + "\n[Showing lines "@ + decimal((start + 1) as nat) + "-"@ + decimal((start + w) as nat) + " of "@ + decimal(n as nat)
                + ". Use offset="@ + d + " to continue.]"@ =~= out + "\n["@ + p + "Use offset="@ + d + " to continue.]"@);
            p
        }
    } else {
        Seq::empty()
    }
}

} // verus!
