//! Workflow events, their lifecycle in the durable queue, the append-only
//! workflow log, and effect requests and outcomes.
use vstd::prelude::*;
use crate::json::{Json, JsonValue};

verus! {

/// Who raised an event.
#[derive(Clone, Debug)]
pub struct EventSource {
    pub kind: String,
    pub name: Option<String>,
}

/// Where an event stands in the durable queue.
#[derive(Clone, Copy, Debug, PartialEq, Eq, Structural)]
pub enum EventStatus {
    Queued,
    Processing,
    Processed,
    Ignored,
    Failed,
    DeadLettered,
}

/// One workflow event with its queue bookkeeping.
#[derive(Debug)]
pub struct WorkflowEvent {
    pub event_id: String,
    pub workflow_id: String,
    pub event_type: String,
    pub payload: Json,
    pub source: Option<EventSource>,
    pub occurred_at: Option<String>,
    pub enqueued_at: Option<String>,
    pub correlation_id: Option<String>,
    pub causation_id: Option<String>,
    pub dedupe_key: Option<String>,
    pub status: EventStatus,
    pub attempt_count: u32,
    pub last_error: Option<String>,
}

/// The stored name of an event status.
pub open spec fn event_status_spec(status: EventStatus) -> Seq<char> {
    match status {
        EventStatus::Queued => "queued"@,
        EventStatus::Processing => "processing"@,
        EventStatus::Processed => "processed"@,
        EventStatus::Ignored => "ignored"@,
        EventStatus::Failed => "failed"@,
        EventStatus::DeadLettered => "dead_lettered"@,
    }
}

/// The stored name of an event status.
pub fn event_status_name(status: EventStatus) -> (r: &'static str)
    ensures
        r@ == event_status_spec(status),
{
    match status {
        EventStatus::Queued => "queued",
        EventStatus::Processing => "processing",
        EventStatus::Processed => "processed",
        EventStatus::Ignored => "ignored",
        EventStatus::Failed => "failed",
        EventStatus::DeadLettered => "dead_lettered",
    }
}

/// The event a worker takes from the queue: now processing, with one more
/// attempt counted (saturating).
pub fn dequeued_event(event: WorkflowEvent) -> (r: WorkflowEvent)
    ensures
        r == (WorkflowEvent {
            status: EventStatus::Processing,
            attempt_count: if event.attempt_count < u32::MAX { (event.attempt_count + 1) as u32 } else { u32::MAX },
            ..event
        }),
{
    let attempts = event.attempt_count.saturating_add(1);
    WorkflowEvent { status: EventStatus::Processing, attempt_count: attempts, ..event }
}

/// An event that was processing when its worker stopped, queued again.
pub fn recovered_event(event: WorkflowEvent) -> (r: WorkflowEvent)
    ensures
        r == (WorkflowEvent { status: EventStatus::Queued, ..event }),
{
    WorkflowEvent { status: EventStatus::Queued, ..event }
}

/// The event with a new status.
pub fn with_status(event: WorkflowEvent, status: EventStatus) -> (r: WorkflowEvent)
    ensures
        r == (WorkflowEvent { status, ..event }),
{
    WorkflowEvent { status, ..event }
}

/// Only failed and dead-lettered events may be retried.
pub open spec fn retryable(status: EventStatus) -> bool {
    status == EventStatus::Failed || status == EventStatus::DeadLettered
}

/// A failed or dead-lettered event queued again with its error cleared; any
/// other event is refused with its status.
pub fn requeued_for_retry(event: WorkflowEvent) -> (r: Result<WorkflowEvent, EventStatus>)
    ensures
        retryable(event.status) ==> r == Ok::<WorkflowEvent, EventStatus>(WorkflowEvent {
            status: EventStatus::Queued,
            last_error: None,
            ..event
        }),
        !retryable(event.status) ==> r == Err::<WorkflowEvent, EventStatus>(event.status),
{
    match event.status {
        EventStatus::Failed | EventStatus::DeadLettered => Ok(
            WorkflowEvent { status: EventStatus::Queued, last_error: None, ..event },
        ),
        status => Err(status),
    }
}

/// An in-memory FIFO queue of workflow events.
#[derive(Debug)]
pub struct InMemoryEventQueue {
    pub events: Vec<WorkflowEvent>,
}

impl View for InMemoryEventQueue {
    type V = Seq<WorkflowEvent>;

    open spec fn view(&self) -> Seq<WorkflowEvent> {
        self.events@
    }
}

impl InMemoryEventQueue {
    /// An empty queue.
    pub fn new() -> (q: Self)
        ensures
            q@ == Seq::<WorkflowEvent>::empty(),
    {
        InMemoryEventQueue { events: Vec::new() }
    }

    /// Adds an event at the back.
    pub fn push(&mut self, event: WorkflowEvent)
        ensures
            final(self)@ == old(self)@.push(event),
    {
        self.events.push(event);
    }

    /// Takes the event at the front, if any.
    pub fn pop_front(&mut self) -> (r: Option<WorkflowEvent>)
        ensures
            old(self)@.len() == 0 ==> r is None && final(self)@ == old(self)@,
            old(self)@.len() > 0 ==> r == Some(old(self)@[0]) && final(self)@ == old(self)@.drop_first(),
    {
        if self.events.len() == 0 {
            None
        } else {
            let e = self.events.remove(0);
            assert(self.events@ =~= old(self)@.drop_first());
            Some(e)
        }
    }
}

/// Where an effect stands in the workflow log.
#[derive(Clone, Copy, Debug, PartialEq, Eq, Structural)]
pub enum EffectStatus {
    Intended,
    Dispatched,
    Succeeded,
    Failed,
}

/// What kind of work an effect asks for.
#[derive(Clone, Copy, Debug, PartialEq, Eq, Structural)]
pub enum EffectCategory {
    Context,
    SyncValue,
    AsyncInvocation,
    Message,
    HumanObligation,
    Event,
    Timer,
    Terminal,
}

/// How an effect dispatch ended.
#[derive(Clone, Copy, Debug, PartialEq, Eq, Structural)]
pub enum EffectOutcomeStatus {
    Accepted,
    Rejected,
    Succeeded,
    Failed,
}

/// An effect the interpreter asks the dispatcher to perform.
#[derive(Debug)]
pub struct EffectRequest {
    pub effect_id: String,
    pub workflow_id: String,
    pub transition_id: String,
    pub idempotency_key: String,
    pub effect: String,
    pub category: EffectCategory,
    pub target: Option<String>,
    pub args: Json,
    pub required_capabilities: Vec<String>,
    pub timeout_ms: Option<u64>,
}

/// What a dispatcher reports for an effect.
#[derive(Debug)]
pub struct EffectOutcome {
    pub effect_id: String,
    pub status: EffectOutcomeStatus,
    pub accepted: bool,
    pub invocation_id: Option<String>,
    pub required_capabilities: Vec<String>,
    pub output: Option<Json>,
    pub error: Option<String>,
    pub completed_at: Option<String>,
}

/// One record of the append-only workflow log.
#[derive(Debug)]
pub enum WorkflowLogRecord {
    Transition {
        transition_id: String,
        workflow_id: String,
        from_state: String,
        to_state: String,
        event_type: Option<String>,
        event_id: Option<String>,
    },
    Effect {
        effect_id: String,
        workflow_id: String,
        transition_id: String,
        idempotency_key: Option<String>,
        effect: String,
        category: EffectCategory,
        target: Option<String>,
        args: Json,
        required_capabilities: Vec<String>,
        status: EffectStatus,
        outcome: Option<EffectOutcome>,
    },
    Diagnostic { message: String },
}

/// An append-only log of workflow records.
#[derive(Debug)]
pub struct AppendOnlyLog {
    pub records: Vec<WorkflowLogRecord>,
}

impl View for AppendOnlyLog {
    type V = Seq<WorkflowLogRecord>;

    open spec fn view(&self) -> Seq<WorkflowLogRecord> {
        self.records@
    }
}

impl AppendOnlyLog {
    /// An empty log.
    pub fn new() -> (l: Self)
        ensures
            l@ == Seq::<WorkflowLogRecord>::empty(),
    {
        AppendOnlyLog { records: Vec::new() }
    }

    /// Appends a record at the end.
    pub fn append(&mut self, record: WorkflowLogRecord)
        ensures
            final(self)@ == old(self)@.push(record),
    {
        self.records.push(record);
    }

    /// The records, oldest first.
    pub fn records(&self) -> (r: &[WorkflowLogRecord])
        ensures
            r@ == self@,
    {
        self.records.as_slice()
    }
}

/// The log status an effect outcome records: accepted effects are
/// dispatched, succeeded ones succeeded, rejected and failed ones failed.
pub open spec fn effect_log_status_spec(status: EffectOutcomeStatus) -> EffectStatus {
    match status {
        EffectOutcomeStatus::Accepted => EffectStatus::Dispatched,
        EffectOutcomeStatus::Succeeded => EffectStatus::Succeeded,
        EffectOutcomeStatus::Rejected => EffectStatus::Failed,
        EffectOutcomeStatus::Failed => EffectStatus::Failed,
    }
}

/// The log status an effect outcome records.
pub fn effect_log_status(status: EffectOutcomeStatus) -> (r: EffectStatus)
    ensures
        r == effect_log_status_spec(status),
{
    match status {
        EffectOutcomeStatus::Accepted => EffectStatus::Dispatched,
        EffectOutcomeStatus::Succeeded => EffectStatus::Succeeded,
        EffectOutcomeStatus::Rejected | EffectOutcomeStatus::Failed => EffectStatus::Failed,
    }
}

/// Why an effect could not be dispatched.
#[derive(Debug)]
pub enum EffectError {
    Unsupported(String),
    RuntimeRejected(String),
    CapabilityDenied { message: String, required_capabilities: Vec<String> },
}

impl EffectError {
    /// The capabilities a denied effect required (none for other errors).
    pub fn required_capabilities(&self) -> (r: &[String])
        ensures
            match self {
                EffectError::CapabilityDenied { required_capabilities, .. } => r@ == required_capabilities@,
                _ => r@.len() == 0,
            },
    {
        match self {
            EffectError::CapabilityDenied { required_capabilities, .. } => required_capabilities.as_slice(),
            _ => &[],
        }
    }
}

/// What an effect request says, as the contracts read it.
pub struct EffectRequestView {
    pub effect_id: Seq<char>,
    pub workflow_id: Seq<char>,
    pub transition_id: Seq<char>,
    pub idempotency_key: Seq<char>,
    pub effect: Seq<char>,
    pub category: EffectCategory,
    pub target: Option<Seq<char>>,
    pub args: JsonValue,
    pub required_capabilities: Seq<Seq<char>>,
    pub timeout_ms: Option<u64>,
}

/// The view of an effect request.
pub open spec fn request_view(q: EffectRequest) -> EffectRequestView {
    EffectRequestView {
        effect_id: q.effect_id@,
        workflow_id: q.workflow_id@,
        transition_id: q.transition_id@,
        idempotency_key: q.idempotency_key@,
        effect: q.effect@,
        category: q.category,
        target: match q.target {
            Some(t) => Some(t@),
            None => None,
        },
        args: q.args.value(),
        required_capabilities: q.required_capabilities@.map_values(|c: String| c@),
        timeout_ms: q.timeout_ms,
    }
}

/// Performs effects for the interpreter.
pub trait EffectDispatcher {
    /// Whether `r` is an answer this dispatcher, as it stands, gives to
    /// `request`.
    spec fn dispatched(&self, request: EffectRequest, r: Result<EffectOutcome, EffectError>) -> bool;

    /// Performs the effect a request asks for.
    fn dispatch(&mut self, request: EffectRequest) -> (r: Result<EffectOutcome, EffectError>)
        ensures
            old(self).dispatched(request, r),
    ;
}

/// A dispatcher that reports every effect as succeeded at once.
#[derive(Debug)]
pub struct NoopEffectDispatcher;

impl EffectDispatcher for NoopEffectDispatcher {
    /// Succeeds with the request's effect id, its idempotency key as the
    /// invocation id and its required capabilities.
    open spec fn dispatched(&self, request: EffectRequest, r: Result<EffectOutcome, EffectError>) -> bool {
        r matches Ok(o) && o.effect_id == request.effect_id && o.status == EffectOutcomeStatus::Succeeded
            && o.accepted && o.invocation_id == Some(request.idempotency_key) && o.required_capabilities
            == request.required_capabilities && o.output is None && o.error is None && o.completed_at is None
    }

    fn dispatch(&mut self, request: EffectRequest) -> (r: Result<EffectOutcome, EffectError>)
        ensures
            r matches Ok(o) && o.effect_id == request.effect_id && o.status
                == EffectOutcomeStatus::Succeeded && o.accepted && o.invocation_id == Some(
                request.idempotency_key,
            ) && o.required_capabilities == request.required_capabilities && o.output is None
                && o.error is None && o.completed_at is None,
    {
        Ok(
            EffectOutcome {
                effect_id: request.effect_id,
                status: EffectOutcomeStatus::Succeeded,
                accepted: true,
                invocation_id: Some(request.idempotency_key),
                required_capabilities: request.required_capabilities,
                output: None,
                error: None,
                completed_at: None,
            },
        )
    }
}

} // verus!
