//! Effects that the runtime carries out itself for native agents: a
//! `start` queues an agent invocation, a `send` queues a message, both
//! accepted at once; and the `maxActive` ceiling a start must respect.
use vstd::prelude::*;
use crate::events::{EffectOutcome, EffectOutcomeStatus, EffectRequest, WorkflowEvent};
use crate::json::{Json, JsonValue};
use crate::status::AgentInvocationStatus;
use crate::text::{decimal, str_eq, u64_to_decimal};

verus! {

/// What the workflow declares of an agent, as the runtime reads it: its
/// name, its `maxActive` ceiling, its profile, and whether an adapter
/// runs it (otherwise the runtime does).
#[derive(Clone, Debug)]
pub struct DeclaredAgent {
    pub name: String,
    pub max_active: Option<u32>,
    pub profile: Option<String>,
    pub adapter: bool,
}

/// The first declaration of the named agent.
pub open spec fn declared(agents: Seq<DeclaredAgent>, name: Seq<char>) -> Option<DeclaredAgent>
    decreases agents.len(),
{
    if agents.len() == 0 {
        None
    } else if agents[0].name@ == name {
        Some(agents[0])
    } else {
        declared(agents.drop_first(), name)
    }
}

/// The first declaration of the named agent.
pub fn find_agent<'a>(agents: &'a Vec<DeclaredAgent>, name: &str) -> (r: Option<&'a DeclaredAgent>)
    ensures
        match r {
            Some(a) => declared(agents@, name@) == Some(*a),
            None => declared(agents@, name@) is None,
        },
{
    let mut i: usize = 0;
    assert(agents@.subrange(0, agents@.len() as int) =~= agents@);
    while i < agents.len()
        invariant
            i <= agents.len(),
            declared(agents@, name@) == declared(agents@.subrange(i as int, agents@.len() as int), name@),
        decreases agents.len() - i,
    {
        proof {
            assert(agents@.subrange(i as int, agents@.len() as int).drop_first() =~= agents@.subrange(
                i + 1,
                agents@.len() as int,
            ));
        }
        if str_eq(agents[i].name.as_str(), name) {
            return Some(&agents[i]);
        }
        i += 1;
    }
    None
}

/// A `start` or `send` whose target is a declared agent the runtime runs.
pub open spec fn is_native_agent_spec(agents: Seq<DeclaredAgent>, effect: EffectRequest) -> bool {
    (effect.effect@ == "start"@ || effect.effect@ == "send"@) && match effect.target {
        Some(t) => match declared(agents, t@) {
            Some(a) => !a.adapter,
            None => false,
        },
        None => false,
    }
}

/// Whether the runtime carries out the effect for a native agent.
pub fn is_native_agent_effect(agents: &Vec<DeclaredAgent>, effect: &EffectRequest) -> (r: bool)
    ensures
        r == is_native_agent_spec(agents@, *effect),
{
    if !(str_eq(effect.effect.as_str(), "start") || str_eq(effect.effect.as_str(), "send")) {
        return false;
    }
    match &effect.target {
        Some(t) => match find_agent(agents, t.as_str()) {
            Some(a) => !a.adapter,
            None => false,
        },
        None => false,
    }
}

/// The outcome the runtime reports for a native agent effect, completed at
/// `now` (milliseconds): accepted, with the idempotency key as invocation
/// id for a `start`.
pub fn native_agent_effect_outcome(effect: &EffectRequest, now: u64) -> (r: EffectOutcome)
    ensures
        r.effect_id@ == effect.effect_id@,
        r.status == EffectOutcomeStatus::Accepted,
        r.accepted,
        effect.effect@ == "start"@ ==> (r.invocation_id matches Some(i) && i@ == effect.idempotency_key@),
        effect.effect@ != "start"@ ==> r.invocation_id is None,
        crate::order::views(r.required_capabilities@) == crate::order::views(effect.required_capabilities@),
        r.output is None,
        r.error is None,
        r.completed_at matches Some(c) && c@ == decimal(now as nat),
{
    let invocation_id = if str_eq(effect.effect.as_str(), "start") {
        Some(effect.idempotency_key.clone())
    } else {
        None
    };
    let mut caps: Vec<String> = Vec::new();
    let mut i: usize = 0;
    while i < effect.required_capabilities.len()
        invariant
            i <= effect.required_capabilities.len(),
            crate::order::views(caps@) == crate::order::views(effect.required_capabilities@).subrange(0, i as int),
        decreases effect.required_capabilities.len() - i,
    {
        let ghost before = caps@;
        caps.push(effect.required_capabilities[i].clone());
        proof {
            assert(crate::order::views(caps@) =~= crate::order::views(before).push(effect.required_capabilities@[i as int]@));
            assert(crate::order::views(effect.required_capabilities@).subrange(0, i + 1) =~= crate::order::views(
                effect.required_capabilities@,
            ).subrange(0, i as int).push(effect.required_capabilities@[i as int]@));
        }
        i += 1;
    }
    assert(crate::order::views(effect.required_capabilities@).subrange(0, effect.required_capabilities.len() as int)
        =~= crate::order::views(effect.required_capabilities@));
    EffectOutcome {
        effect_id: effect.effect_id.clone(),
        status: EffectOutcomeStatus::Accepted,
        accepted: true,
        invocation_id,
        required_capabilities: caps,
        output: None,
        error: None,
        completed_at: Some(u64_to_decimal(now)),
    }
}

/// A native agent invocation as the store keeps it.
#[derive(Debug)]
pub struct AgentInvocationRecord {
    pub workflow_id: String,
    pub invocation_id: String,
    pub agent: String,
    pub effect_id: String,
    pub transition_id: String,
    pub event_id: Option<String>,
    pub idempotency_key: String,
    pub input: Json,
    pub requested_profile: Option<String>,
    pub resolved_profile: Option<String>,
    pub profile_enforcement: Option<String>,
    pub status: AgentInvocationStatus,
    pub claimed_by: Option<String>,
    pub claim_expires_at: Option<String>,
    pub provider: Option<String>,
    pub provider_run_id: Option<String>,
    pub run_dir: Option<String>,
    pub stdout_path: Option<String>,
    pub stderr_path: Option<String>,
    pub exit_code: Option<i32>,
    pub error: Option<String>,
    pub created_at: String,
    pub updated_at: String,
}

/// What the store records when a claimed invocation starts running: the
/// provider that runs it, the provider's run id, the profile it resolved to
/// and how it is enforced, and where its run directory and output go.
#[derive(Clone, Copy, Debug)]
pub struct AgentInvocationStartedUpdate<'a> {
    pub invocation_id: &'a str,
    pub provider: Option<&'a str>,
    pub provider_run_id: Option<&'a str>,
    pub resolved_profile: Option<&'a str>,
    pub profile_enforcement: Option<&'a str>,
    pub run_dir: Option<&'a str>,
    pub stdout_path: Option<&'a str>,
    pub stderr_path: Option<&'a str>,
}

/// A message to a native agent as the store keeps it.
#[derive(Debug)]
pub struct AgentMessageRecord {
    pub workflow_id: String,
    pub message_id: String,
    pub agent: String,
    pub invocation_id: Option<String>,
    pub effect_id: String,
    pub transition_id: String,
    pub event_id: Option<String>,
    pub idempotency_key: String,
    pub message: Json,
    pub status: String,
    pub created_at: String,
    pub updated_at: String,
}

/// The member `key` of the effect's arguments, or the arguments themselves
/// where there is none.
pub open spec fn member_or_args(args: Json, key: Seq<char>) -> JsonValue {
    match args.get_spec(key) {
        Some(v) => v.value(),
        None => args.value(),
    }
}

/// The optional text of an optional string.
pub open spec fn opt_text(o: Option<String>) -> Option<Seq<char>> {
    match o {
        Some(s) => Some(s@),
        None => None,
    }
}

/// The queued invocation a native `start` creates at `now` (milliseconds):
/// keyed by the effect's idempotency key, with the agent's declared profile
/// requested and the effect's `input` (or all its arguments) as input.
pub open spec fn invocation_ok(agents: Seq<DeclaredAgent>, effect: EffectRequest, event: WorkflowEvent, now: u64, r: AgentInvocationRecord) -> bool {
    &&& r.workflow_id@ == effect.workflow_id@
    &&& r.invocation_id@ == effect.idempotency_key@
    &&& Some(r.agent@) == opt_text(effect.target)
    &&& r.effect_id@ == effect.effect_id@
    &&& r.transition_id@ == effect.transition_id@
    &&& r.event_id matches Some(e) && e@ == event.event_id@
    &&& r.idempotency_key@ == effect.idempotency_key@
    &&& r.input.value() == member_or_args(effect.args, "input"@)
    &&& opt_text(r.requested_profile) == match declared(agents, r.agent@) {
        Some(a) => opt_text(a.profile),
        None => None,
    }
    &&& r.resolved_profile is None && r.profile_enforcement is None
    &&& r.status == AgentInvocationStatus::Queued
    &&& r.claimed_by is None && r.claim_expires_at is None && r.provider is None && r.provider_run_id is None
    &&& r.run_dir is None && r.stdout_path is None && r.stderr_path is None && r.exit_code is None
    &&& r.error is None
    &&& r.created_at@ == decimal(now as nat) && r.updated_at@ == decimal(now as nat)
}

fn clone_opt(o: &Option<String>) -> (r: Option<String>)
    ensures
        opt_text(r) == opt_text(*o),
{
    match o {
        Some(s) => Some(s.clone()),
        None => None,
    }
}

/// The argument member `key`, or all the arguments.
fn member_or_all(args: &Json, key: &str) -> (r: Json)
    ensures
        r.value() == member_or_args(*args, key@),
{
    match args.get(key) {
        Some(v) => v.deep_clone(),
        None => args.deep_clone(),
    }
}

/// The invocation a native agent `start` queues, at `now` (milliseconds);
/// none for any other effect.
pub fn native_agent_invocation_from_effect(
    agents: &Vec<DeclaredAgent>,
    effect: &EffectRequest,
    event: &WorkflowEvent,
    now: u64,
) -> (r: Option<AgentInvocationRecord>)
    ensures
        (effect.effect@ == "start"@ && is_native_agent_spec(agents@, *effect)) ==> (r matches Some(rec)
            && invocation_ok(agents@, *effect, *event, now, rec)),
        !(effect.effect@ == "start"@ && is_native_agent_spec(agents@, *effect)) ==> r is None,
{
    if !str_eq(effect.effect.as_str(), "start") || !is_native_agent_effect(agents, effect) {
        return None;
    }
    let agent = match &effect.target {
        Some(t) => t.clone(),
        None => {
            return None;
        },
    };
    let requested_profile = match find_agent(agents, agent.as_str()) {
        Some(a) => clone_opt(&a.profile),
        None => None,
    };
    let input = member_or_all(&effect.args, "input");
    let now_text = u64_to_decimal(now);
    Some(AgentInvocationRecord {
        workflow_id: effect.workflow_id.clone(),
        invocation_id: effect.idempotency_key.clone(),
        agent,
        effect_id: effect.effect_id.clone(),
        transition_id: effect.transition_id.clone(),
        event_id: Some(event.event_id.clone()),
        idempotency_key: effect.idempotency_key.clone(),
        input,
        requested_profile,
        resolved_profile: None,
        profile_enforcement: None,
        status: AgentInvocationStatus::Queued,
        claimed_by: None,
        claim_expires_at: None,
        provider: None,
        provider_run_id: None,
        run_dir: None,
        stdout_path: None,
        stderr_path: None,
        exit_code: None,
        error: None,
        created_at: now_text.clone(),
        updated_at: now_text,
    })
}

/// The queued message a native `send` creates at `now` (milliseconds):
/// keyed by the effect's idempotency key, with the effect's `message` (or
/// all its arguments).
pub open spec fn message_ok(effect: EffectRequest, event: WorkflowEvent, now: u64, r: AgentMessageRecord) -> bool {
    &&& r.workflow_id@ == effect.workflow_id@
    &&& r.message_id@ == effect.idempotency_key@
    &&& Some(r.agent@) == opt_text(effect.target)
    &&& r.invocation_id is None
    &&& r.effect_id@ == effect.effect_id@
    &&& r.transition_id@ == effect.transition_id@
    &&& r.event_id matches Some(e) && e@ == event.event_id@
    &&& r.idempotency_key@ == effect.idempotency_key@
    &&& r.message.value() == member_or_args(effect.args, "message"@)
    &&& r.status@ == "queued"@
    &&& r.created_at@ == decimal(now as nat) && r.updated_at@ == decimal(now as nat)
}

/// The message a native agent `send` queues, at `now` (milliseconds); none
/// for any other effect.
pub fn native_agent_message_from_effect(
    agents: &Vec<DeclaredAgent>,
    effect: &EffectRequest,
    event: &WorkflowEvent,
    now: u64,
) -> (r: Option<AgentMessageRecord>)
    ensures
        (effect.effect@ == "send"@ && is_native_agent_spec(agents@, *effect)) ==> (r matches Some(rec)
            && message_ok(*effect, *event, now, rec)),
        !(effect.effect@ == "send"@ && is_native_agent_spec(agents@, *effect)) ==> r is None,
{
    if !str_eq(effect.effect.as_str(), "send") || !is_native_agent_effect(agents, effect) {
        return None;
    }
    let agent = match &effect.target {
        Some(t) => t.clone(),
        None => {
            return None;
        },
    };
    let message = member_or_all(&effect.args, "message");
    let now_text = u64_to_decimal(now);
    Some(AgentMessageRecord {
        workflow_id: effect.workflow_id.clone(),
        message_id: effect.idempotency_key.clone(),
        agent,
        invocation_id: None,
        effect_id: effect.effect_id.clone(),
        transition_id: effect.transition_id.clone(),
        event_id: Some(event.event_id.clone()),
        idempotency_key: effect.idempotency_key.clone(),
        message,
        status: "queued".to_owned(),
        created_at: now_text.clone(),
        updated_at: now_text,
    })
}

/// Why a `start` may not proceed, given its agent's active invocations: the
/// agent is at its declared `maxActive`.
pub open spec fn capacity_spec(agents: Seq<DeclaredAgent>, effect: EffectRequest, active: u32) -> Option<Seq<char>> {
    if effect.effect@ != "start"@ {
        None
    } else {
        match effect.target {
            None => None,
            Some(t) => match declared(agents, t@) {
                Some(a) => match a.max_active {
                    Some(max) => if active >= max {
                        Some(
                            "agent `"@ + t@ + "` is at maxActive "@ + decimal(max as nat) + "; active invocations: "@
                                + decimal(active as nat),
                        )
                    } else {
                        None
                    },
                    None => None,
                },
                None => None,
            },
        }
    }
}

/// Whether a `start` would exceed its agent's ceiling, given the number of
/// its active invocations.
pub fn start_capacity_error(agents: &Vec<DeclaredAgent>, effect: &EffectRequest, active: u32) -> (r: Option<String>)
    ensures
        opt_text(r) == capacity_spec(agents@, *effect, active),
{
    if !str_eq(effect.effect.as_str(), "start") {
        return None;
    }
    let agent = match &effect.target {
        Some(t) => t,
        None => {
            return None;
        },
    };
    let max = match find_agent(agents, agent.as_str()) {
        Some(a) => match a.max_active {
            Some(m) => m,
            None => {
                return None;
            },
        },
        None => {
            return None;
        },
    };
    if active >= max {
        let mut m = "agent `".to_owned();
        m.append(agent.as_str());
        m.append("` is at maxActive ");
        let mx = u64_to_decimal(max as u64);
        m.append(mx.as_str());
        m.append("; active invocations: ");
        let ac = u64_to_decimal(active as u64);
        m.append(ac.as_str());
        Some(m)
    } else {
        None
    }
}

} // verus!
