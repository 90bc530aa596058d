//! The system-prompt bundles of an owned harness turn: persona, one-line
//! tool snippets, guidelines, date, working directory, project context and
//! the skills catalogue.
use vstd::prelude::*;
use crate::lines::{first_line, first_line_spec, render_available_skills, skill_blocks, SkillCatalogueEntry};
use crate::text::{chars_of, char_is_white_space, is_white_space, string_from_chars, trim_end_spec};
use crate::tools::{has_read_class_tool, tool_names, ToolSpec};
use crate::harness::TOOL_READ;

verus! {

/// What a prompt bundle holds.
#[derive(Clone, Copy, Debug, PartialEq, Eq, Structural)]
pub enum BundleKind {
    Persona,
    Tools,
    Guidelines,
    Date,
    Cwd,
    ProjectContext,
    AvailableSkills,
}

/// One bundle of the system prompt: its kind, where it comes from, its
/// version and its text.
#[derive(Clone, Debug)]
pub struct ContextBundle {
    pub kind: BundleKind,
    pub source: String,
    pub version: String,
    pub body: String,
}

/// The persona of the owned harness.
pub const OWNED_PERSONA: &'static str = "You are an expert coding assistant operating inside the WhippleScript owned agent harness. You help by reading files, running commands, editing code, and writing new files. Use only the provided tools and the authority granted for this turn to do the task.";

/// The guidelines bundle, as its text before trailing whitespace is trimmed.
pub const OWNED_GUIDELINES_TEXT: &'static str = "Guidelines:\n- Be concise in your responses.\n- Show file paths clearly when working with files.\n- Use only the tools provided for this turn; do not assume tools you were not given.\n- When finished, reply with a short summary and make no further tool calls.\n";

/// A bundle, as the contracts read it.
pub open spec fn bundle_view(b: ContextBundle) -> (BundleKind, Seq<char>, Seq<char>, Seq<char>) {
    (b.kind, b.source@, b.version@, b.body@)
}

/// The one-line snippets of the tools.
pub open spec fn tool_lines(tools: Seq<ToolSpec>) -> Seq<char>
    decreases tools.len(),
{
    if tools.len() == 0 {
        Seq::empty()
    } else {
        tool_lines(tools.drop_last()) + "- "@ + tools.last().name@ + ": "@ + first_line_spec(tools.last().description@) + "\n"@
    }
}

/// The bundles of a turn, in order: the persona; the tools' one-line
/// snippets where there are tools; the guidelines; the date; the working
/// directory; the project context where there is one; the skills catalogue
/// where there are skills and a `read` tool to load them.
pub open spec fn owned_bundles_spec(
    tools: Seq<ToolSpec>,
    date: Seq<char>,
    cwd: Seq<char>,
    skills: Seq<SkillCatalogueEntry>,
    project_context: Option<Seq<char>>,
) -> Seq<(BundleKind, Seq<char>, Seq<char>, Seq<char>)> {
    let persona = seq![(BundleKind::Persona, "builtin:persona"@, "v1"@, OWNED_PERSONA@)];
    let with_tools = if tools.len() > 0 {
        persona.push((BundleKind::Tools, "builtin:tools"@, "v1"@, trim_end_spec("Available tools:\n"@ + tool_lines(tools))))
    } else {
        persona
    };
    let fixed = with_tools.push((BundleKind::Guidelines, "builtin:guidelines"@, "v1"@, trim_end_spec(OWNED_GUIDELINES_TEXT@))).push(
        (BundleKind::Date, "host:clock"@, "v1"@, "Current date: "@ + date),
    ).push((BundleKind::Cwd, "host:cwd"@, "v1"@, "Current working directory: "@ + cwd));
    let with_project = match project_context {
        Some(p) => fixed.push((BundleKind::ProjectContext, "fs:project-instructions"@, "v1"@, p)),
        None => fixed,
    };
    if skills.len() > 0 && tool_names(tools).contains(TOOL_READ@) {
        with_project.push(
            (
                BundleKind::AvailableSkills,
                "registry:skills"@,
                "v1"@,
                "Available skills \u{2014} read a skill's location to load its full instructions:\n<available_skills>"@
                    + skill_blocks(skills) + "\n</available_skills>"@,
            ),
        )
    } else {
        with_project
    }
}

/// `s` without trailing whitespace.
fn trim_end_string(s: &str) -> (r: String)
    ensures
        r@ == trim_end_spec(s@),
{
    let cs = chars_of(s);
    let mut end = cs.len();
    assert(cs@.subrange(0, cs@.len() as int) =~= cs@);
    while end > 0 && char_is_white_space(cs[end - 1])
        invariant
            end <= cs.len(),
            cs@ == s@,
            trim_end_spec(cs@) == trim_end_spec(cs@.subrange(0, end as int)),
        decreases end,
    {
        assert(cs@.subrange(0, end as int).drop_last() =~= cs@.subrange(0, end - 1));
        end -= 1;
    }
    let kept = crate::text::chars_slice(&cs, 0, end);
    string_from_chars(&kept)
}

/// The one-line snippets of the tools.
fn tool_lines_text(tools: &Vec<ToolSpec>) -> (r: String)
    ensures
        r@ == tool_lines(tools@),
{
    let mut body = String::new();
    proof {
        reveal_strlit("");
    }
    let mut i: usize = 0;
    while i < tools.len()
        invariant
            i <= tools.len(),
            body@ == tool_lines(tools@.subrange(0, i as int)),
        decreases tools.len() - i,
    {
        proof {
            assert(tools@.subrange(0, i + 1).drop_last() =~= tools@.subrange(0, i as int));
            assert(tools@.subrange(0, i + 1).last() == tools@[i as int]);
        }
        body.append("- ");
        body.append(tools[i].name.as_str());
        body.append(": ");
        let line = first_line(tools[i].description.as_str());
        body.append(line.as_str());
        body.append("\n");
        i += 1;
    }
    assert(tools@.subrange(0, tools.len() as int) =~= tools@);
    body
}

fn bundle(kind: BundleKind, source: &str, body: String) -> (r: ContextBundle)
    ensures
        bundle_view(r) == (kind, source@, "v1"@, body@),
{
    ContextBundle { kind, source: source.to_owned(), version: "v1".to_owned(), body }
}

/// The bundles of an owned harness turn. `project_context` is the rendered
/// project instructions, where the host found any.
pub fn owned_context_bundles(
    tools: &Vec<ToolSpec>,
    date: &str,
    cwd: &str,
    skills: &[SkillCatalogueEntry],
    project_context: Option<String>,
) -> (r: Vec<ContextBundle>)
    ensures
        r@.map_values(|b: ContextBundle| bundle_view(b)) == owned_bundles_spec(
            tools@,
            date@,
            cwd@,
            skills@,
            match project_context {
                Some(p) => Some(p@),
                None => None,
            },
        ),
{
    let ghost pc = match &project_context {
        Some(p) => Some(p@),
        None => None::<Seq<char>>,
    };
    let mut bundles: Vec<ContextBundle> = Vec::new();
    bundles.push(bundle(BundleKind::Persona, "builtin:persona", OWNED_PERSONA.to_owned()));
    if tools.len() > 0 {
        let mut body = "Available tools:\n".to_owned();
        let lines = tool_lines_text(tools);
        body.append(lines.as_str());
        bundles.push(bundle(BundleKind::Tools, "builtin:tools", trim_end_string(body.as_str())));
    }
    bundles.push(bundle(BundleKind::Guidelines, "builtin:guidelines", trim_end_string(OWNED_GUIDELINES_TEXT)));
    let mut date_body = "Current date: ".to_owned();
    date_body.append(date);
    bundles.push(bundle(BundleKind::Date, "host:clock", date_body));
    let mut cwd_body = "Current working directory: ".to_owned();
    cwd_body.append(cwd);
    bundles.push(bundle(BundleKind::Cwd, "host:cwd", cwd_body));
    match project_context {
        Some(p) => {
            bundles.push(bundle(BundleKind::ProjectContext, "fs:project-instructions", p));
        },
        None => {},
    }
    if skills.len() > 0 && has_read_class_tool(tools) {
        bundles.push(bundle(BundleKind::AvailableSkills, "registry:skills", render_available_skills(skills)));
    }
    proof {
        let v = bundles@.map_values(|b: ContextBundle| bundle_view(b));
        assert(v =~= owned_bundles_spec(tools@, date@, cwd@, skills@, pc));
    }
    bundles
}

} // verus!
