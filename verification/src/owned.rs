//! The decisions that set up an owned harness turn: the live model the
//! operator selected, the workflow tools the turn may invoke, the policy
//! it runs under and the tools the model is offered.
use vstd::prelude::*;
use crate::executor::WorkflowToolEntry;
use crate::harness::{
    builtin_caps, builtin_profile_name, caps_and, opt_str_view, registered_caps, required_caps, required_recognized,
    tool_allowed, HarnessProfilePolicy, RegisteredProfilePolicy, ToolCaps,
};
use crate::selection::{number_u64, parse_u64_text, CoerceProvider};
use crate::text::str_eq;
use crate::tools::{
    any_read_grant, any_write_grant, file_tool_catalogue, file_tool_specs_for_turn, tools_view,
    tracker_tool_catalogue, tracker_tool_specs_for_turn, turn_allows_file_tool, turn_allows_tracker_tool,
    workflow_tool_specs_for_policy, ToolSpec,
};
use crate::turn::TurnToolAccess;

verus! {

/// The live model provider a harness provider name selects: none for an
/// unset or empty name, `openai` or `anthropic`, an error for anything else.
pub open spec fn harness_provider_spec(name: Option<Seq<char>>) -> Result<Option<CoerceProvider>, Seq<char>> {
    match name {
        None => Ok(None),
        Some(n) => if n.len() == 0 {
            Ok(None)
        } else if n == "openai"@ {
            Ok(Some(CoerceProvider::OpenAi))
        } else if n == "anthropic"@ {
            Ok(Some(CoerceProvider::Anthropic))
        } else {
            Err("unknown WHIPPLESCRIPT_HARNESS_PROVIDER `"@ + n + "` (expected `openai` or `anthropic`)"@)
        },
    }
}

/// The live model provider the harness provider setting selects (`None`:
/// the credential-free fixture client).
pub fn harness_provider(name: Option<&str>) -> (r: Result<Option<CoerceProvider>, String>)
    ensures
        match harness_provider_spec(crate::harness::opt_str_view(name)) {
            Ok(p) => r == Ok::<Option<CoerceProvider>, String>(p),
            Err(e) => r matches Err(m) && m@ == e,
        },
{
    let n = match name {
        None => {
            return Ok(None);
        },
        Some(n) => n,
    };
    if n.is_empty() {
        return Ok(None);
    }
    if str_eq(n, "openai") {
        Ok(Some(CoerceProvider::OpenAi))
    } else if str_eq(n, "anthropic") {
        Ok(Some(CoerceProvider::Anthropic))
    } else {
        let mut m = "unknown WHIPPLESCRIPT_HARNESS_PROVIDER `".to_owned();
        m.append(n);
        m.append("` (expected `openai` or `anthropic`)");
        Err(m)
    }
}

/// The configuration of the live harness model client.
#[derive(Clone, Debug)]
pub struct HarnessModelConfig {
    pub provider: CoerceProvider,
    pub api_key: String,
    pub model: String,
    pub base_url: String,
    pub max_tokens: u64,
    pub timeout_secs: u64,
}

/// A setting that is set and not empty.
pub open spec fn nonempty_setting(s: Option<String>) -> Option<Seq<char>> {
    match s {
        Some(v) => if v@.len() > 0 {
            Some(v@)
        } else {
            None
        },
        None => None,
    }
}

/// A number setting, where it parses.
pub open spec fn number_setting(s: Option<String>) -> Option<u64> {
    match s {
        Some(v) => number_u64(v@),
        None => None,
    }
}

/// The live model configuration from the harness settings, once the
/// provider is selected: its credential is required, and so is a model;
/// the base URL defaults to the provider's, the token budget to 4096 and
/// the timeout to 120 seconds where they are unset or do not parse.
pub open spec fn harness_model_spec(
    provider: CoerceProvider,
    provider_name: Seq<char>,
    credential: Option<String>,
    model: Option<String>,
    base_url: Option<String>,
    default_base_url: Seq<char>,
    max_tokens: Option<String>,
    timeout_secs: Option<String>,
) -> Result<(CoerceProvider, Seq<char>, Seq<char>, Seq<char>, u64, u64), Seq<char>> {
    match credential {
        None => Err("WHIPPLESCRIPT_HARNESS_PROVIDER="@ + provider_name + " is set but no credential resolved"@),
        Some(key) => match nonempty_setting(model) {
            None => Err("WHIPPLESCRIPT_HARNESS_MODEL is required when WHIPPLESCRIPT_HARNESS_PROVIDER is set"@),
            Some(m) => Ok(
                (
                    provider,
                    key@,
                    m,
                    match nonempty_setting(base_url) {
                        Some(u) => u,
                        None => default_base_url,
                    },
                    match number_setting(max_tokens) {
                        Some(t) => t,
                        None => 4096,
                    },
                    match number_setting(timeout_secs) {
                        Some(t) => t,
                        None => 120,
                    },
                ),
            ),
        },
    }
}

/// The view of a harness model configuration.
pub open spec fn harness_model_view(c: HarnessModelConfig) -> (CoerceProvider, Seq<char>, Seq<char>, Seq<char>, u64, u64) {
    (c.provider, c.api_key@, c.model@, c.base_url@, c.max_tokens, c.timeout_secs)
}

/// A number setting, where it parses.
fn number_setting_of(s: &Option<String>) -> (r: Option<u64>)
    ensures
        r == number_setting(*s),
{
    match s {
        Some(v) => parse_u64_text(v.as_str()),
        None => None,
    }
}

/// The live harness model configuration for the selected provider, from
/// its resolved credential and the harness settings.
pub fn harness_model_config(
    provider: CoerceProvider,
    provider_name: &str,
    credential: Option<String>,
    model: Option<String>,
    base_url: Option<String>,
    default_base_url: &str,
    max_tokens: Option<String>,
    timeout_secs: Option<String>,
) -> (r: Result<HarnessModelConfig, String>)
    ensures
        match harness_model_spec(
            provider,
            provider_name@,
            credential,
            model,
            base_url,
            default_base_url@,
            max_tokens,
            timeout_secs,
        ) {
            Ok(c) => r matches Ok(x) && harness_model_view(x) == c,
            Err(e) => r matches Err(m) && m@ == e,
        },
{
    let api_key = match credential {
        Some(k) => k,
        None => {
            let mut m = "WHIPPLESCRIPT_HARNESS_PROVIDER=".to_owned();
            m.append(provider_name);
            m.append(" is set but no credential resolved");
            return Err(m);
        },
    };
    let model = match model {
        Some(m) => if m.as_str().is_empty() {
            return Err("WHIPPLESCRIPT_HARNESS_MODEL is required when WHIPPLESCRIPT_HARNESS_PROVIDER is set".to_owned());
        } else {
            m
        },
        None => {
            return Err("WHIPPLESCRIPT_HARNESS_MODEL is required when WHIPPLESCRIPT_HARNESS_PROVIDER is set".to_owned());
        },
    };
    let base_url = match base_url {
        Some(u) => if u.as_str().is_empty() {
            default_base_url.to_owned()
        } else {
            u
        },
        None => default_base_url.to_owned(),
    };
    let max_tokens = match number_setting_of(&max_tokens) {
        Some(t) => t,
        None => 4096,
    };
    let timeout_secs = match number_setting_of(&timeout_secs) {
        Some(t) => t,
        None => 120,
    };
    Ok(HarnessModelConfig { provider, api_key, model, base_url, max_tokens, timeout_secs })
}

/// A workflow tool entry as the contracts read it.
pub open spec fn entry_view(e: WorkflowToolEntry) -> (Seq<char>, Seq<char>, Seq<char>, Seq<char>) {
    (e.name@, e.path@, e.root@, e.package_id@)
}

/// The views of workflow tool entries.
pub open spec fn entries_view(v: Seq<WorkflowToolEntry>) -> Seq<(Seq<char>, Seq<char>, Seq<char>, Seq<char>)> {
    v.map_values(|e: WorkflowToolEntry| entry_view(e))
}

/// The names of workflow tool entries.
pub open spec fn entry_names(v: Seq<(Seq<char>, Seq<char>, Seq<char>, Seq<char>)>) -> Seq<Seq<char>> {
    v.map_values(|e: (Seq<char>, Seq<char>, Seq<char>, Seq<char>)| e.0)
}

/// The tools the agent's grant offers, then each operator-configured tool
/// (spec and entry paired in order) whose name is not yet taken: the grant
/// wins on a name collision, and a name is offered once.
pub open spec fn merged_tools(
    specs: Seq<(Seq<char>, Seq<char>, Seq<char>)>,
    entries: Seq<(Seq<char>, Seq<char>, Seq<char>, Seq<char>)>,
    env_specs: Seq<(Seq<char>, Seq<char>, Seq<char>)>,
    env_entries: Seq<(Seq<char>, Seq<char>, Seq<char>, Seq<char>)>,
    n: nat,
) -> (Seq<(Seq<char>, Seq<char>, Seq<char>)>, Seq<(Seq<char>, Seq<char>, Seq<char>, Seq<char>)>)
    decreases n,
{
    if n == 0 {
        (specs, entries)
    } else {
        let (s, e) = merged_tools(specs, entries, env_specs, env_entries, (n - 1) as nat);
        let entry = env_entries[n - 1];
        if entry_names(e).contains(entry.0) {
            (s, e)
        } else {
            (s.push(env_specs[n - 1]), e.push(entry))
        }
    }
}

/// A copy of a workflow tool entry.
fn copy_entry(e: &WorkflowToolEntry) -> (r: WorkflowToolEntry)
    ensures
        entry_view(r) == entry_view(*e),
{
    WorkflowToolEntry {
        name: e.name.clone(),
        path: e.path.clone(),
        root: e.root.clone(),
        package_id: e.package_id.clone(),
    }
}

/// Whether some entry is named `name`.
fn has_entry_named(entries: &Vec<WorkflowToolEntry>, name: &str) -> (r: bool)
    ensures
        r == entry_names(entries_view(entries@)).contains(name@),
{
    let mut i: usize = 0;
    while i < entries.len()
        invariant
            i <= entries.len(),
            forall|j: int| 0 <= j < i ==> (#[trigger] entries@[j]).name@ != name@,
        decreases entries.len() - i,
    {
        if str_eq(entries[i].name.as_str(), name) {
            assert(entry_names(entries_view(entries@))[i as int] == name@);
            return true;
        }
        i += 1;
    }
    assert forall|j: int| 0 <= j < entry_names(entries_view(entries@)).len() implies entry_names(
        entries_view(entries@),
    )[j] != name@ by {
        assert(entry_names(entries_view(entries@))[j] == entries@[j].name@);
    }
    false
}

/// The workflow tools of a turn: those the agent's grant offers, then the
/// operator-configured ones whose names are not yet taken.
pub fn merge_workflow_tools(
    specs: Vec<ToolSpec>,
    entries: Vec<WorkflowToolEntry>,
    env_specs: &Vec<ToolSpec>,
    env_entries: &Vec<WorkflowToolEntry>,
) -> (r: (Vec<ToolSpec>, Vec<WorkflowToolEntry>))
    ensures
        (tools_view(r.0@), entries_view(r.1@)) == merged_tools(
            tools_view(specs@),
            entries_view(entries@),
            tools_view(env_specs@),
            entries_view(env_entries@),
            if env_specs@.len() <= env_entries@.len() {
                env_specs@.len()
            } else {
                env_entries@.len()
            },
        ),
{
    let ghost s0 = tools_view(specs@);
    let ghost e0 = entries_view(entries@);
    let mut specs = specs;
    let mut entries = entries;
    let n = if env_specs.len() <= env_entries.len() {
        env_specs.len()
    } else {
        env_entries.len()
    };
    let mut i: usize = 0;
    while i < n
        invariant
            i <= n,
            n <= env_specs@.len(),
            n <= env_entries@.len(),
            (tools_view(specs@), entries_view(entries@)) == merged_tools(
                s0,
                e0,
                tools_view(env_specs@),
                entries_view(env_entries@),
                i as nat,
            ),
        decreases n - i,
    {
        let taken = has_entry_named(&entries, env_entries[i].name.as_str());
        if !taken {
            let ghost before_s = tools_view(specs@);
            let ghost before_e = entries_view(entries@);
            specs.push(env_specs[i].copy());
            entries.push(copy_entry(&env_entries[i]));
            assert(tools_view(specs@) =~= before_s.push(tools_view(env_specs@)[i as int]));
            assert(entries_view(entries@) =~= before_e.push(entries_view(env_entries@)[i as int]));
        }
        i += 1;
    }
    (specs, entries)
}

/// The authority of a profile, narrowed by its registered policy where
/// there is one.
pub open spec fn profile_caps(profile: Option<Seq<char>>, registered: Option<RegisteredProfilePolicy>) -> ToolCaps {
    match registered {
        None => builtin_caps(profile),
        Some(reg) => caps_and(builtin_caps(profile), registered_caps(reg.enforcement_mode@, reg.allowed_capabilities@)),
    }
}

/// The profile name a turn's policy reports.
pub open spec fn turn_profile_name(profile: Option<Seq<char>>, registered: Option<RegisteredProfilePolicy>) -> Option<Seq<char>> {
    match registered {
        None => builtin_profile_name(profile),
        Some(_) => match builtin_profile_name(profile) {
            Some(n) => Some(n),
            None => profile,
        },
    }
}

/// The policy a turn runs under: the profile's, narrowed by its registered
/// policy, and by the effect's required capabilities where they name any
/// the harness knows.
pub fn owned_turn_policy(
    profile: Option<&str>,
    registered: Option<&RegisteredProfilePolicy>,
    required: &[String],
) -> (r: HarnessProfilePolicy)
    ensures
        crate::harness::opt_string_seq(r.profile) == turn_profile_name(
            opt_str_view(profile),
            match registered {
                Some(x) => Some(*x),
                None => None,
            },
        ),
        r.caps() == if required_recognized(required@) {
            caps_and(
                profile_caps(
                    opt_str_view(profile),
                    match registered {
                        Some(x) => Some(*x),
                        None => None,
                    },
                ),
                required_caps(required@),
            )
        } else {
            profile_caps(
                opt_str_view(profile),
                match registered {
                    Some(x) => Some(*x),
                    None => None,
                },
            )
        },
{
    let base = HarnessProfilePolicy::for_profile_with_registry(profile, registered);
    match HarnessProfilePolicy::from_required_capabilities(required) {
        Some(required_policy) => base.intersect(&required_policy),
        None => base,
    }
}

/// The file tools a turn offers: those its policy and its grants allow.
pub open spec fn offered_file_tools(policy: HarnessProfilePolicy, access: TurnToolAccess) -> Seq<(Seq<char>, Seq<char>, Seq<char>)> {
    file_tool_catalogue().filter(|t: (Seq<char>, Seq<char>, Seq<char>)| tool_allowed(policy.caps(), t.0)).filter(
        |t: (Seq<char>, Seq<char>, Seq<char>)|
            turn_allows_file_tool(t.0, any_read_grant(access.file), any_write_grant(access.file), access.command_run),
    )
}

/// The tracker tools a turn offers: those its policy and its grants allow.
pub open spec fn offered_tracker_tools(policy: HarnessProfilePolicy, access: TurnToolAccess) -> Seq<(Seq<char>, Seq<char>, Seq<char>)> {
    tracker_tool_catalogue().filter(|t: (Seq<char>, Seq<char>, Seq<char>)| turn_allows_tracker_tool(t.0, policy, access))
}

/// The tools a turn offers the model: the file tools its policy and grants
/// allow; the tracker tools they allow where a tracker queue is configured;
/// the workflow tools where there are any and the policy may invoke them.
pub fn owned_turn_tools(
    policy: &HarnessProfilePolicy,
    access: &TurnToolAccess,
    tracker_configured: bool,
    workflow_specs: Vec<ToolSpec>,
) -> (r: Vec<ToolSpec>)
    ensures
        tools_view(r@) == offered_file_tools(*policy, *access) + (if tracker_configured {
            offered_tracker_tools(*policy, *access)
        } else {
            Seq::empty()
        }) + (if workflow_specs@.len() > 0 && policy.workflow_invoke {
            tools_view(workflow_specs@)
        } else {
            Seq::empty()
        }),
{
    let mut tools = file_tool_specs_for_turn(policy, access);
    let ghost file_part = tools_view(tools@);
    if tracker_configured {
        let mut tracker = tracker_tool_specs_for_turn(policy, access);
        let ghost t = tools_view(tracker@);
        let ghost before = tools_view(tools@);
        tools.append(&mut tracker);
        assert(tools_view(tools@) =~= before + t);
    } else {
        assert(file_part + Seq::<(Seq<char>, Seq<char>, Seq<char>)>::empty() =~= file_part);
    }
    let ghost mid = tools_view(tools@);
    if workflow_specs.len() > 0 {
        let mut offered = workflow_tool_specs_for_policy(policy, workflow_specs);
        let ghost w = tools_view(offered@);
        tools.append(&mut offered);
        assert(tools_view(tools@) =~= mid + w);
    } else {
        assert(mid + Seq::<(Seq<char>, Seq<char>, Seq<char>)>::empty() =~= mid);
    }
    tools
}

/// The model-step budget of an owned turn when the operator sets none.
pub const OWNED_MAX_STEPS: usize = 16;

/// The `usize` a text parses to as `str::parse` reads it: an optional `+`,
/// then at least one ASCII digit, with a value that fits.
pub open spec fn parsed_usize(t: Seq<char>) -> Option<usize> {
    let digits = if t.len() > 0 && t[0] == '+' { t.drop_first() } else { t };
    match number_u64(digits) {
        Some(v) => if v <= usize::MAX { Some(v as usize) } else { None },
        None => None,
    }
}

/// The per-turn model-step budget from `WHIPPLESCRIPT_HARNESS_MAX_STEPS`: a
/// positive integer it holds, else the default.
pub fn owned_max_steps_from_value(raw: Option<&str>) -> (r: usize)
    ensures
        r == match raw {
            Some(t) => match parsed_usize(t@) {
                Some(n) => if n > 0 { n } else { OWNED_MAX_STEPS },
                None => OWNED_MAX_STEPS,
            },
            None => OWNED_MAX_STEPS,
        },
{
    let t = match raw {
        None => {
            return OWNED_MAX_STEPS;
        },
        Some(t) => t,
    };
    let cs = crate::text::chars_of(t);
    let digits = if cs.len() > 0 && cs[0] == '+' {
        let rest = crate::text::chars_slice(&cs, 1, cs.len());
        assert(rest@ =~= t@.drop_first());
        crate::text::string_from_chars(&rest)
    } else {
        t.to_owned()
    };
    match parse_u64_text(digits.as_str()) {
        Some(v) => if v <= usize::MAX as u64 && v > 0 {
            v as usize
        } else {
            OWNED_MAX_STEPS
        },
        None => OWNED_MAX_STEPS,
    }
}


/// How an owned turn's conversation is compacted, as the agent declares it.
#[derive(Clone, Copy, Debug, PartialEq, Eq, Structural)]
pub enum CompactionKind {
    HardReset,
    ToolResults,
    NoCompaction,
    TurnSummarizing,
}

/// The compaction the agent's declared strategy selects: `hard_reset`,
/// `tool_results` and `none` by name, turn summarization otherwise.
pub fn compaction_kind(strategy: Option<&str>) -> (r: CompactionKind)
    ensures
        r == match strategy {
            Some(s) => if s@ == "hard_reset"@ {
                CompactionKind::HardReset
            } else if s@ == "tool_results"@ {
                CompactionKind::ToolResults
            } else if s@ == "none"@ {
                CompactionKind::NoCompaction
            } else {
                CompactionKind::TurnSummarizing
            },
            None => CompactionKind::TurnSummarizing,
        },
{
    match strategy {
        Some(s) => if str_eq(s, "hard_reset") {
            CompactionKind::HardReset
        } else if str_eq(s, "tool_results") {
            CompactionKind::ToolResults
        } else if str_eq(s, "none") {
            CompactionKind::NoCompaction
        } else {
            CompactionKind::TurnSummarizing
        },
        None => CompactionKind::TurnSummarizing,
    }
}

/// The unit of work an owned turn's workspace lease is held for: the root
/// of the unit it runs inside, else the turn itself; and whether the turn
/// is that root.
pub fn owned_work_unit(work_unit_root: Option<&str>, instance_id: &str) -> (r: (String, bool))
    ensures
        r.0@ == match work_unit_root {
            Some(w) => w@,
            None => instance_id@,
        },
        r.1 == (work_unit_root is None),
{
    match work_unit_root {
        Some(w) => (w.to_owned(), false),
        None => (instance_id.to_owned(), true),
    }
}

/// What an owned turn does once it has asked for the workspace lease.
pub enum LeaseDecision {
    /// The lease is held: the turn runs.
    Run,
    /// Another turn holds the workspace: the effect is blocked, recoverably,
    /// for this reason kind and message.
    Block { reason: String, message: String },
}

/// The decision after asking for the workspace lease keyed by `key`.
pub fn lease_decision(held: bool, key: &str) -> (r: LeaseDecision)
    ensures
        held ==> r is Run,
        !held ==> (r matches LeaseDecision::Block { reason, message } && reason@ == "workspace_lease"@ && message@
            == "workspace `"@ + key@ + "` is held by another agent turn"@),
{
    if held {
        LeaseDecision::Run
    } else {
        let mut message = "workspace `".to_owned();
        message.append(key);
        message.append("` is held by another agent turn");
        LeaseDecision::Block { reason: "workspace_lease".to_owned(), message }
    }
}

} // verus!
