//! What the status projection reports about agent invocations and queued
//! events, and the lifecycle names of a native agent invocation.
use vstd::prelude::*;
use crate::events::{EventSource, WorkflowEvent, WorkflowLogRecord};
use crate::invocations::{active_invocation_counts, finished_subtracted, log_counts, subtract_finished_events};
use crate::text::str_eq;

verus! {

/// An agent with invocations still running, and its declared ceiling.
#[derive(Clone, Debug)]
pub struct ActiveInvocation {
    pub agent: String,
    pub count: u32,
    pub max: Option<u32>,
}

/// A queued event as the status projection lists it.
#[derive(Clone, Debug)]
pub struct QueuedEventSummary {
    pub event_id: String,
    pub event_type: String,
    pub source: Option<EventSource>,
    pub attempt_count: u32,
}

/// Where a native agent invocation stands.
#[derive(Clone, Copy, Debug, PartialEq, Eq, Structural)]
pub enum AgentInvocationStatus {
    Queued,
    Claimed,
    Running,
    Succeeded,
    Failed,
    Cancelled,
    TimedOut,
    CompletionRejected,
}

/// The stored name of an invocation status.
pub open spec fn agent_invocation_status_spec(status: AgentInvocationStatus) -> Seq<char> {
    match status {
        AgentInvocationStatus::Queued => "queued"@,
        AgentInvocationStatus::Claimed => "claimed"@,
        AgentInvocationStatus::Running => "running"@,
        AgentInvocationStatus::Succeeded => "succeeded"@,
        AgentInvocationStatus::Failed => "failed"@,
        AgentInvocationStatus::Cancelled => "cancelled"@,
        AgentInvocationStatus::TimedOut => "timed_out"@,
        AgentInvocationStatus::CompletionRejected => "completion_rejected"@,
    }
}

/// The stored name of an invocation status.
pub fn agent_invocation_status_name(status: &AgentInvocationStatus) -> (r: &'static str)
    ensures
        r@ == agent_invocation_status_spec(*status),
{
    match status {
        AgentInvocationStatus::Queued => "queued",
        AgentInvocationStatus::Claimed => "claimed",
        AgentInvocationStatus::Running => "running",
        AgentInvocationStatus::Succeeded => "succeeded",
        AgentInvocationStatus::Failed => "failed",
        AgentInvocationStatus::Cancelled => "cancelled",
        AgentInvocationStatus::TimedOut => "timed_out",
        AgentInvocationStatus::CompletionRejected => "completion_rejected",
    }
}

/// The status a stored name stands for; an unknown name reads as `Failed`.
pub open spec fn agent_invocation_status_parse(name: Seq<char>) -> AgentInvocationStatus {
    if name == "queued"@ {
        AgentInvocationStatus::Queued
    } else if name == "claimed"@ {
        AgentInvocationStatus::Claimed
    } else if name == "running"@ {
        AgentInvocationStatus::Running
    } else if name == "succeeded"@ {
        AgentInvocationStatus::Succeeded
    } else if name == "failed"@ {
        AgentInvocationStatus::Failed
    } else if name == "cancelled"@ {
        AgentInvocationStatus::Cancelled
    } else if name == "timed_out"@ {
        AgentInvocationStatus::TimedOut
    } else if name == "completion_rejected"@ {
        AgentInvocationStatus::CompletionRejected
    } else {
        AgentInvocationStatus::Failed
    }
}

/// The status a stored name stands for; an unknown name reads as `Failed`.
pub fn agent_invocation_status_from_name(status: &str) -> (r: AgentInvocationStatus)
    ensures
        r == agent_invocation_status_parse(status@),
{
    if str_eq(status, "queued") {
        AgentInvocationStatus::Queued
    } else if str_eq(status, "claimed") {
        AgentInvocationStatus::Claimed
    } else if str_eq(status, "running") {
        AgentInvocationStatus::Running
    } else if str_eq(status, "succeeded") {
        AgentInvocationStatus::Succeeded
    } else if str_eq(status, "failed") {
        AgentInvocationStatus::Failed
    } else if str_eq(status, "cancelled") {
        AgentInvocationStatus::Cancelled
    } else if str_eq(status, "timed_out") {
        AgentInvocationStatus::TimedOut
    } else if str_eq(status, "completion_rejected") {
        AgentInvocationStatus::CompletionRejected
    } else {
        AgentInvocationStatus::Failed
    }
}

/// Reading back the stored name of a status gives the status.
pub proof fn lemma_agent_invocation_status_round_trip(status: AgentInvocationStatus)
    ensures
        agent_invocation_status_parse(agent_invocation_status_spec(status)) == status,
{
    reveal_strlit("queued");
    reveal_strlit("claimed");
    reveal_strlit("running");
    reveal_strlit("succeeded");
    reveal_strlit("failed");
    reveal_strlit("cancelled");
    reveal_strlit("timed_out");
    reveal_strlit("completion_rejected");
    match status {
        AgentInvocationStatus::Queued => {
        },
        AgentInvocationStatus::Claimed => {
            assert("claimed"@.len() != "queued"@.len());
        },
        AgentInvocationStatus::Running => {
            assert("running"@.len() != "queued"@.len());
            assert("running"@[0] != "claimed"@[0]);
        },
        AgentInvocationStatus::Succeeded => {
            assert("succeeded"@.len() != "queued"@.len());
            assert("succeeded"@.len() != "claimed"@.len());
            assert("succeeded"@.len() != "running"@.len());
        },
        AgentInvocationStatus::Failed => {
            assert("failed"@[0] != "queued"@[0]);
            assert("failed"@.len() != "claimed"@.len());
            assert("failed"@.len() != "running"@.len());
            assert("failed"@.len() != "succeeded"@.len());
        },
        AgentInvocationStatus::Cancelled => {
            assert("cancelled"@.len() != "queued"@.len());
            assert("cancelled"@.len() != "claimed"@.len());
            assert("cancelled"@.len() != "running"@.len());
            assert("cancelled"@[0] != "succeeded"@[0]);
            assert("cancelled"@.len() != "failed"@.len());
        },
        AgentInvocationStatus::TimedOut => {
            assert("timed_out"@.len() != "queued"@.len());
            assert("timed_out"@.len() != "claimed"@.len());
            assert("timed_out"@.len() != "running"@.len());
            assert("timed_out"@[0] != "succeeded"@[0]);
            assert("timed_out"@.len() != "failed"@.len());
            assert("timed_out"@[0] != "cancelled"@[0]);
        },
        AgentInvocationStatus::CompletionRejected => {
            assert("completion_rejected"@.len() != "queued"@.len());
            assert("completion_rejected"@.len() != "claimed"@.len());
            assert("completion_rejected"@.len() != "running"@.len());
            assert("completion_rejected"@.len() != "succeeded"@.len());
            assert("completion_rejected"@.len() != "failed"@.len());
            assert("completion_rejected"@.len() != "cancelled"@.len());
            assert("completion_rejected"@.len() != "timed_out"@.len());
        },
    }
}

/// The ceiling declared for `agent`: the `max_active` of its first entry in
/// `limits`, if any.
pub open spec fn declared_max(limits: Seq<(String, Option<u32>)>, agent: Seq<char>) -> Option<u32>
    decreases limits.len(),
{
    if limits.len() == 0 {
        None
    } else if limits[0].0@ == agent {
        limits[0].1
    } else {
        declared_max(limits.drop_first(), agent)
    }
}

/// The entries of `counts` above zero, each with its agent's declared
/// ceiling, in order.
pub open spec fn active_entries(counts: Seq<(String, u32)>, limits: Seq<(String, Option<u32>)>) -> Seq<(Seq<char>, u32, Option<u32>)>
    decreases counts.len(),
{
    if counts.len() == 0 {
        Seq::empty()
    } else {
        let rest = active_entries(counts.drop_last(), limits);
        let last = counts.last();
        if last.1 > 0 {
            rest.push((last.0@, last.1, declared_max(limits, last.0@)))
        } else {
            rest
        }
    }
}

/// The view of a list of active invocations.
pub open spec fn active_view(v: Seq<ActiveInvocation>) -> Seq<(Seq<char>, u32, Option<u32>)> {
    v.map_values(|a: ActiveInvocation| (a.agent@, a.count, a.max))
}

/// The declared ceiling of one agent.
fn lookup_max(limits: &Vec<(String, Option<u32>)>, agent: &str) -> (r: Option<u32>)
    ensures
        r == declared_max(limits@, agent@),
{
    let mut i: usize = 0;
    assert(limits@.subrange(0, limits@.len() as int) =~= limits@);
    while i < limits.len()
        invariant
            i <= limits.len(),
            declared_max(limits@, agent@) == declared_max(limits@.subrange(i as int, limits@.len() as int), agent@),
        decreases limits.len() - i,
    {
        proof {
            assert(limits@.subrange(i as int, limits@.len() as int).drop_first() =~= limits@.subrange(i + 1, limits@.len() as int));
        }
        if str_eq(limits[i].0.as_str(), agent) {
            return limits[i].1;
        }
        i += 1;
    }
    None
}

/// The active invocations the status reports: the agent counts the native
/// store holds, less the `finished` events, or where it holds none, those
/// the workflow log shows; each agent above zero, with the ceiling its
/// declaration in `limits` gives.
pub fn project_active_invocations(
    limits: &Vec<(String, Option<u32>)>,
    records: &Vec<WorkflowLogRecord>,
    events: &Vec<WorkflowEvent>,
    native_active_by_agent: Vec<(String, u32)>,
) -> (r: Vec<ActiveInvocation>)
    requires
        records.len() <= u32::MAX,
        events.len() <= u32::MAX,
    ensures
        native_active_by_agent.len() == 0 ==> exists|counts: Seq<(String, u32)>|
            #[trigger] log_counts(records@, events@, counts) && active_view(r@) == active_entries(counts, limits@),
        native_active_by_agent.len() > 0 ==> exists|counts: Seq<(String, u32)>|
            #[trigger] finished_subtracted(native_active_by_agent@, events@, counts) && active_view(r@)
                == active_entries(counts, limits@),
{
    let counts = if native_active_by_agent.len() == 0 {
        active_invocation_counts(records, events)
    } else {
        subtract_finished_events(native_active_by_agent, events)
    };
    let ghost counts_view = counts@;
    let mut r: Vec<ActiveInvocation> = Vec::new();
    let mut i: usize = 0;
    while i < counts.len()
        invariant
            i <= counts.len(),
            counts@ == counts_view,
            active_view(r@) == active_entries(counts@.subrange(0, i as int), limits@),
        decreases counts.len() - i,
    {
        proof {
            assert(counts@.subrange(0, i + 1).drop_last() =~= counts@.subrange(0, i as int));
        }
        if counts[i].1 > 0 {
            let max = lookup_max(limits, counts[i].0.as_str());
            let ghost before = r@;
            r.push(ActiveInvocation { agent: counts[i].0.clone(), count: counts[i].1, max });
            proof {
                assert(active_view(r@) =~= active_view(before).push((counts@[i as int].0@, counts@[i as int].1, max)));
            }
        }
        i += 1;
    }
    assert(counts@.subrange(0, counts@.len() as int) =~= counts@);
    r
}

} // verus!
