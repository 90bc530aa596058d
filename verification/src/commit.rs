//! What processing one event writes to the workflow log: the transition
//! and its intended effects, how each effect's dispatch is decided and
//! recorded, and the diagnostic of an ignored or failed event.
use vstd::prelude::*;
use crate::errors::{interpreter_message, EventProcessingStatus, InterpreterError};
use crate::events::{
    effect_log_status, effect_log_status_spec, EffectDispatcher, request_view, EffectError, EffectOutcome, EffectOutcomeStatus,
    EffectRequest, EffectStatus, EventStatus, WorkflowEvent, WorkflowLogRecord,
};
use crate::native::{native_agent_effect_outcome, DeclaredAgent};
use crate::order::{copy_strings, views};

verus! {

/// What interpreting one event produced: whether it was handled, the
/// transition it took, the effects it asks for and, for an ignored event,
/// why.
#[derive(Debug)]
pub struct EventProcessingOutcome {
    pub status: EventProcessingStatus,
    pub transition_id: String,
    pub from_state: String,
    pub to_state: String,
    pub effects: Vec<EffectRequest>,
    pub reason: Option<String>,
}

/// What an effect error reads as.
pub open spec fn effect_error_text(e: EffectError) -> Seq<char> {
    match e {
        EffectError::Unsupported(x) => "effect `"@ + x@ + "` is not supported by this adapter"@,
        EffectError::RuntimeRejected(x) => x@,
        EffectError::CapabilityDenied { message, .. } => message@,
    }
}

/// What an effect error reads as.
pub fn effect_error_message(e: &EffectError) -> (r: String)
    ensures
        r@ == effect_error_text(*e),
{
    match e {
        EffectError::Unsupported(x) => {
            let mut m = "effect `".to_owned();
            m.append(x.as_str());
            m.append("` is not supported by this adapter");
            m
        },
        EffectError::RuntimeRejected(x) => x.clone(),
        EffectError::CapabilityDenied { message, .. } => message.clone(),
    }
}


/// The optional text of an optional string.
pub open spec fn opt_view(o: Option<String>) -> Option<Seq<char>> {
    match o {
        Some(s) => Some(s@),
        None => None,
    }
}

/// A copy of an optional string.
fn copy_opt(o: &Option<String>) -> (r: Option<String>)
    ensures
        opt_view(r) == opt_view(*o),
{
    match o {
        Some(s) => Some(s.clone()),
        None => None,
    }
}

/// `r` records `effect` of the transition with the given status and
/// outcome.
pub open spec fn effect_record_of(
    r: WorkflowLogRecord,
    workflow_id: Seq<char>,
    transition_id: Seq<char>,
    effect: EffectRequest,
    status: EffectStatus,
) -> bool {
    match r {
        WorkflowLogRecord::Effect {
            effect_id,
            workflow_id: w,
            transition_id: t,
            idempotency_key,
            effect: name,
            category,
            target,
            args,
            required_capabilities,
            status: s,
            ..
        } => {
            &&& effect_id@ == effect.effect_id@
            &&& w@ == workflow_id
            &&& t@ == transition_id
            &&& opt_view(idempotency_key) == Some(effect.idempotency_key@)
            &&& name@ == effect.effect@
            &&& category == effect.category
            &&& opt_view(target) == opt_view(effect.target)
            &&& args.value() == effect.args.value()
            &&& views(required_capabilities@) == views(effect.required_capabilities@)
            &&& s == status
        },
        _ => false,
    }
}

/// The outcome an effect record carries.
pub open spec fn record_outcome(r: WorkflowLogRecord) -> Option<EffectOutcome> {
    match r {
        WorkflowLogRecord::Effect { outcome, .. } => outcome,
        _ => None,
    }
}

/// The record of an effect of a transition, with its status and outcome.
fn effect_record(
    workflow_id: &str,
    transition_id: &str,
    effect: &EffectRequest,
    status: EffectStatus,
    outcome: Option<EffectOutcome>,
) -> (r: WorkflowLogRecord)
    ensures
        effect_record_of(r, workflow_id@, transition_id@, *effect, status),
        record_outcome(r) == outcome,
{
    WorkflowLogRecord::Effect {
        effect_id: effect.effect_id.clone(),
        workflow_id: workflow_id.to_owned(),
        transition_id: transition_id.to_owned(),
        idempotency_key: Some(effect.idempotency_key.clone()),
        effect: effect.effect.clone(),
        category: effect.category,
        target: copy_opt(&effect.target),
        args: effect.args.deep_clone(),
        required_capabilities: copy_strings(&effect.required_capabilities),
        status,
        outcome,
    }
}

/// `r` records the transition an event took.
pub open spec fn transition_record_of(r: WorkflowLogRecord, workflow_id: Seq<char>, outcome: EventProcessingOutcome, event: WorkflowEvent) -> bool {
    match r {
        WorkflowLogRecord::Transition { transition_id, workflow_id: w, from_state, to_state, event_type, event_id } => {
            &&& transition_id@ == outcome.transition_id@
            &&& w@ == workflow_id
            &&& from_state@ == outcome.from_state@
            &&& to_state@ == outcome.to_state@
            &&& opt_view(event_type) == Some(event.event_type@)
            &&& opt_view(event_id) == Some(event.event_id@)
        },
        _ => false,
    }
}

/// What a handled event commits with the new state: the transition, then
/// each of its effects as intended, in order.
pub fn processed_commit_records(
    workflow_id: &str,
    outcome: &EventProcessingOutcome,
    event: &WorkflowEvent,
) -> (r: Vec<WorkflowLogRecord>)
    ensures
        r@.len() == outcome.effects@.len() + 1,
        transition_record_of(r@[0], workflow_id@, *outcome, *event),
        forall|i: int|
            0 <= i < outcome.effects@.len() ==> effect_record_of(
                #[trigger] r@[i + 1],
                workflow_id@,
                outcome.transition_id@,
                outcome.effects@[i],
                EffectStatus::Intended,
            ) && record_outcome(r@[i + 1]) is None,
{
    let mut r: Vec<WorkflowLogRecord> = Vec::new();
    r.push(
        WorkflowLogRecord::Transition {
            transition_id: outcome.transition_id.clone(),
            workflow_id: workflow_id.to_owned(),
            from_state: outcome.from_state.clone(),
            to_state: outcome.to_state.clone(),
            event_type: Some(event.event_type.clone()),
            event_id: Some(event.event_id.clone()),
        },
    );
    let mut i: usize = 0;
    while i < outcome.effects.len()
        invariant
            i <= outcome.effects@.len(),
            r@.len() == i + 1,
            transition_record_of(r@[0], workflow_id@, *outcome, *event),
            forall|k: int|
                0 <= k < i ==> effect_record_of(
                    #[trigger] r@[k + 1],
                    workflow_id@,
                    outcome.transition_id@,
                    outcome.effects@[k],
                    EffectStatus::Intended,
                ) && record_outcome(r@[k + 1]) is None,
        decreases outcome.effects.len() - i,
    {
        let record = effect_record(
            workflow_id,
            outcome.transition_id.as_str(),
            &outcome.effects[i],
            EffectStatus::Intended,
            None,
        );
        r.push(record);
        i += 1;
    }
    r
}

/// The outcome recorded for an effect whose dispatch failed: failed, not
/// accepted, with the error's text and the capabilities the error names,
/// else those the effect required.
pub open spec fn failed_outcome_of(o: EffectOutcome, effect: EffectRequest, error: EffectError) -> bool {
    &&& o.effect_id@ == effect.effect_id@
    &&& o.status == EffectOutcomeStatus::Failed
    &&& !o.accepted
    &&& o.invocation_id is None
    &&& views(o.required_capabilities@) == (match error {
        EffectError::CapabilityDenied { required_capabilities, .. } => if required_capabilities@.len() > 0 {
            views(required_capabilities@)
        } else {
            views(effect.required_capabilities@)
        },
        _ => views(effect.required_capabilities@),
    })
    &&& o.output is None
    &&& opt_view(o.error) == Some(effect_error_text(error))
    &&& o.completed_at is None
}

/// The outcome recorded for an effect whose dispatch failed.
pub fn failed_effect_outcome(effect: &EffectRequest, error: &EffectError) -> (r: EffectOutcome)
    ensures
        failed_outcome_of(r, *effect, *error),
{
    let named = error.required_capabilities();
    let required_capabilities = if named.len() == 0 {
        copy_strings(&effect.required_capabilities)
    } else {
        let mut v: Vec<String> = Vec::new();
        let mut i: usize = 0;
        while i < named.len()
            invariant
                i <= named@.len(),
                views(v@) == views(named@).subrange(0, i as int),
            decreases named.len() - i,
        {
            let ghost before = v@;
            v.push(named[i].clone());
            assert(views(v@) =~= views(before).push(named@[i as int]@));
            assert(views(named@).subrange(0, i + 1) =~= views(named@).subrange(0, i as int).push(named@[i as int]@));
            i += 1;
        }
        assert(views(named@).subrange(0, named@.len() as int) =~= views(named@));
        v
    };
    EffectOutcome {
        effect_id: effect.effect_id.clone(),
        status: EffectOutcomeStatus::Failed,
        accepted: false,
        invocation_id: None,
        required_capabilities,
        output: None,
        error: Some(effect_error_message(error)),
        completed_at: None,
    }
}

/// The record of an effect once its dispatch is decided: an outcome is
/// recorded with the status it maps to; an error as a failed outcome.
pub fn dispatched_effect_record(
    workflow_id: &str,
    transition_id: &str,
    effect: &EffectRequest,
    result: Result<EffectOutcome, EffectError>,
) -> (r: WorkflowLogRecord)
    ensures
        match result {
            Ok(o) => effect_record_of(r, workflow_id@, transition_id@, *effect, effect_log_status_spec(o.status))
                && record_outcome(r) == Some(o),
            Err(e) => effect_record_of(r, workflow_id@, transition_id@, *effect, EffectStatus::Failed) && (
            record_outcome(r) matches Some(o) && failed_outcome_of(o, *effect, e)),
        },
{
    match result {
        Ok(outcome) => {
            let status = effect_log_status(outcome.status);
            effect_record(workflow_id, transition_id, effect, status, Some(outcome))
        },
        Err(error) => {
            let failed = failed_effect_outcome(effect, &error);
            effect_record(workflow_id, transition_id, effect, EffectStatus::Failed, Some(failed))
        },
    }
}

/// How an effect is dispatched: one over its agent's capacity is rejected
/// with the capacity error; a native agent effect is accepted at once;
/// any other goes to the dispatcher.
pub fn dispatch_effect<D: EffectDispatcher>(
    dispatcher: &mut D,
    agents: &Vec<DeclaredAgent>,
    effect: &EffectRequest,
    capacity_error: Option<String>,
    now: u64,
) -> (r: Result<EffectOutcome, EffectError>)
    ensures
        capacity_error matches Some(e) ==> (r matches Err(EffectError::RuntimeRejected(m)) && m@ == e@),
        capacity_error is None && crate::native::is_native_agent_spec(agents@, *effect) ==> (r matches Ok(o) && o.status
            == EffectOutcomeStatus::Accepted && o.accepted && o.effect_id@ == effect.effect_id@),
        capacity_error is None && !crate::native::is_native_agent_spec(agents@, *effect) ==> exists|q: EffectRequest|
            request_view(q) == request_view(*effect) && #[trigger] old(dispatcher).dispatched(q, r),
{
    if let Some(e) = capacity_error {
        return Err(EffectError::RuntimeRejected(e));
    }
    if crate::native::is_native_agent_effect(agents, effect) {
        return Ok(native_agent_effect_outcome(effect, now));
    }
    let request = EffectRequest {
        effect_id: effect.effect_id.clone(),
        workflow_id: effect.workflow_id.clone(),
        transition_id: effect.transition_id.clone(),
        idempotency_key: effect.idempotency_key.clone(),
        effect: effect.effect.clone(),
        category: effect.category,
        target: copy_opt(&effect.target),
        args: effect.args.deep_clone(),
        required_capabilities: copy_strings(&effect.required_capabilities),
        timeout_ms: effect.timeout_ms,
    };
    let ghost q = request;
    assert(request_view(q).required_capabilities =~= request_view(*effect).required_capabilities);
    assert(request_view(q) == request_view(*effect));
    let r = dispatcher.dispatch(request);
    assert(old(dispatcher).dispatched(q, r));
    r
}

/// What an ignored event records: its reason (`event ignored` where it has
/// none) as a diagnostic, and as the event's last error.
pub fn ignored_event_diagnostic(reason: &Option<String>) -> (r: (WorkflowLogRecord, String))
    ensures
        r.0 matches WorkflowLogRecord::Diagnostic { message } && message@ == r.1@,
        r.1@ == match opt_view(*reason) {
            Some(x) => x,
            None => "event ignored"@,
        },
{
    let text = match reason {
        Some(x) => x.clone(),
        None => "event ignored".to_owned(),
    };
    (WorkflowLogRecord::Diagnostic { message: text.clone() }, text)
}

/// What a failed event records: the interpreter's error as a diagnostic,
/// and as the event's last error.
pub fn failed_event_diagnostic(error: &InterpreterError) -> (r: (WorkflowLogRecord, String))
    ensures
        r.0 matches WorkflowLogRecord::Diagnostic { message } && message@ == r.1@,
        r.1@ == interpreter_message(*error),
{
    let text = error.message();
    (WorkflowLogRecord::Diagnostic { message: text.clone() }, text)
}

/// Why an ignored event was ignored, as recorded.
pub open spec fn ignored_reason(reason: Option<String>) -> Seq<char> {
    match opt_view(reason) {
        Some(x) => x,
        None => "event ignored"@,
    }
}

/// The records are one diagnostic with this text.
pub open spec fn diagnostic_only(records: Seq<WorkflowLogRecord>, text: Seq<char>) -> bool {
    records.len() == 1 && (records[0] matches WorkflowLogRecord::Diagnostic { message } && message@ == text)
}

/// What the runtime writes to the store for the event it took from the
/// queue.
pub enum StoreAction {
    /// Commit the event with this status (and, for an ignored event, why)
    /// together with these log records and the interpreter's new state.
    Commit { status: EventStatus, last_error: Option<String>, records: Vec<WorkflowLogRecord> },
    /// Mark the event failed with this error and append these records; the
    /// interpreter's state is not saved, so it stays as it was.
    Fail { last_error: String, records: Vec<WorkflowLogRecord> },
}

/// What the runtime writes for one turn of its loop: nothing when no event
/// was queued; otherwise, for the event taken and what interpreting it gave,
/// one store action. A handled event commits the transition and its
/// intended effects; an ignored event commits its reason; a failure marks
/// the event failed without the state.
pub fn runtime_step(
    workflow_id: &str,
    next: &Option<(WorkflowEvent, Result<EventProcessingOutcome, InterpreterError>)>,
) -> (r: Vec<StoreAction>)
    ensures
        next is None ==> r@.len() == 0,
        next matches Some((event, processed)) ==> r@.len() == 1 && match processed {
            Ok(outcome) => match outcome.status {
                EventProcessingStatus::Processed => r@[0] matches StoreAction::Commit { status, last_error, records }
                    && status == EventStatus::Processed && last_error is None
                    && records@.len() == outcome.effects@.len() + 1
                    && transition_record_of(records@[0], workflow_id@, *outcome, *event)
                    && forall|i: int| 0 <= i < outcome.effects@.len() ==> effect_record_of(
                        #[trigger] records@[i + 1],
                        workflow_id@,
                        outcome.transition_id@,
                        outcome.effects@[i],
                        EffectStatus::Intended,
                    ) && record_outcome(records@[i + 1]) is None,
                EventProcessingStatus::Ignored => r@[0] matches StoreAction::Commit { status, last_error, records }
                    && status == EventStatus::Ignored && (last_error matches Some(m) && m@ == ignored_reason(
                    outcome.reason,
                ) && diagnostic_only(records@, m@)),
            },
            Err(e) => r@[0] matches StoreAction::Fail { last_error, records } && last_error@ == interpreter_message(*e)
                && diagnostic_only(records@, last_error@),
        },
{
    let mut actions: Vec<StoreAction> = Vec::new();
    match next {
        None => {},
        Some((event, processed)) => match processed {
            Ok(outcome) => match outcome.status {
                EventProcessingStatus::Processed => {
                    let records = processed_commit_records(workflow_id, outcome, event);
                    actions.push(StoreAction::Commit { status: EventStatus::Processed, last_error: None, records });
                },
                EventProcessingStatus::Ignored => {
                    let (record, reason) = ignored_event_diagnostic(&outcome.reason);
                    let mut records: Vec<WorkflowLogRecord> = Vec::new();
                    records.push(record);
                    actions.push(
                        StoreAction::Commit { status: EventStatus::Ignored, last_error: Some(reason), records },
                    );
                },
            },
            Err(e) => {
                let (record, message) = failed_event_diagnostic(e);
                let mut records: Vec<WorkflowLogRecord> = Vec::new();
                records.push(record);
                actions.push(StoreAction::Fail { last_error: message, records });
            },
        },
    }
    actions
}

} // verus!
