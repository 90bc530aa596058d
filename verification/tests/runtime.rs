use whipplescript::projection::{project_status, StoredWorkflow, QUEUED_EVENT_LIMIT};
use whipplescript::status::QueuedEventSummary;
use whipplescript::commit::{
    dispatch_effect, dispatched_effect_record, effect_error_message, failed_event_diagnostic,
    ignored_event_diagnostic, processed_commit_records, runtime_step, EventProcessingOutcome, StoreAction,
};
use whipplescript::errors::{EventProcessingStatus, InterpreterError};
use whipplescript::native::DeclaredAgent;
use whipplescript::events::{
    dequeued_event, effect_log_status, EffectError, EffectRequest, NoopEffectDispatcher, event_status_name, recovered_event, requeued_for_retry, AppendOnlyLog,
    EffectCategory, EffectOutcome, EffectOutcomeStatus, EffectStatus, EventStatus, InMemoryEventQueue,
    WorkflowEvent, WorkflowLogRecord,
};
use whipplescript::invocations::{active_invocation_counts, matching_finished_agent, subtract_finished_events};
use whipplescript::json::Json;
use whipplescript::status::{
    agent_invocation_status_from_name, agent_invocation_status_name, project_active_invocations,
    AgentInvocationStatus,
};

fn event(event_id: &str, event_type: &str, payload: Json, status: EventStatus) -> WorkflowEvent {
    WorkflowEvent {
        event_id: event_id.to_string(),
        workflow_id: "Harness".to_string(),
        event_type: event_type.to_string(),
        payload,
        source: None,
        occurred_at: None,
        enqueued_at: None,
        correlation_id: None,
        causation_id: None,
        dedupe_key: None,
        status,
        attempt_count: 0,
        last_error: None,
    }
}

fn named(name: &str) -> Json {
    Json::Object(vec![("name".to_owned(), Json::Str(name.to_owned()))])
}

fn finished(id: &str, name: &str) -> WorkflowEvent {
    event(id, "finished", named(name), EventStatus::Processed)
}

fn start(effect_id: &str, agent: &str, accepted: bool) -> WorkflowLogRecord {
    WorkflowLogRecord::Effect {
        effect_id: effect_id.to_owned(),
        workflow_id: "Harness".to_owned(),
        transition_id: "tr-1".to_owned(),
        idempotency_key: None,
        effect: "start".to_owned(),
        category: EffectCategory::AsyncInvocation,
        target: Some(agent.to_owned()),
        args: Json::Null,
        required_capabilities: Vec::new(),
        status: EffectStatus::Dispatched,
        outcome: Some(EffectOutcome {
            effect_id: effect_id.to_owned(),
            status: if accepted { EffectOutcomeStatus::Accepted } else { EffectOutcomeStatus::Rejected },
            accepted,
            invocation_id: None,
            required_capabilities: Vec::new(),
            output: None,
            error: None,
            completed_at: None,
        }),
    }
}

#[test]
fn finished_event_matching_allows_hyphenated_agent_names() {
    let agents = vec!["worker-team".to_owned(), "worker".to_owned()];
    assert_eq!(matching_finished_agent("worker-team-1", &agents), Some(0));
    assert_eq!(matching_finished_agent("worker-1", &agents), Some(1));
    assert_eq!(matching_finished_agent("worker", &agents), Some(1));
    assert_eq!(matching_finished_agent("quality-1", &agents), None);
    assert_eq!(matching_finished_agent("workerteam", &agents), None);

    let records = vec![start("eff-1", "worker-team", true)];
    let counts = active_invocation_counts(&records, &Vec::new());
    assert_eq!(counts, vec![("worker-team".to_owned(), 1)]);
    let counts = active_invocation_counts(&records, &vec![finished("evt-finished", "worker-team-1")]);
    assert_eq!(counts, vec![("worker-team".to_owned(), 0)]);
}

#[test]
fn projected_status_subtracts_processed_finished_events_from_active_invocations() {
    let records = vec![start("eff-1", "worker", true)];
    let limits = vec![("worker".to_owned(), Some(2))];
    let active = project_active_invocations(&limits, &records, &Vec::new(), Vec::new());
    assert_eq!(active.len(), 1);
    assert_eq!(active[0].agent, "worker");
    assert_eq!(active[0].count, 1);
    assert_eq!(active[0].max, Some(2));
    let active = project_active_invocations(&limits, &records, &vec![finished("evt", "worker-1")], Vec::new());
    assert!(active.is_empty());
}

#[test]
fn active_projection_uses_latest_start_outcome_per_effect() {
    // A start re-dispatched for one effect counts once, by its latest outcome.
    let records = vec![start("eff-1", "worker", true), start("eff-1", "worker", false), start("eff-2", "worker", true)];
    assert_eq!(active_invocation_counts(&records, &Vec::new()), vec![("worker".to_owned(), 1)]);
    let records = vec![start("eff-1", "worker", false), start("eff-1", "worker", true)];
    assert_eq!(active_invocation_counts(&records, &Vec::new()), vec![("worker".to_owned(), 1)]);
}

#[test]
fn unprocessed_finished_events_do_not_count() {
    let records = vec![start("eff-1", "worker", true)];
    let queued = event("evt", "finished", named("worker"), EventStatus::Queued);
    assert_eq!(active_invocation_counts(&records, &vec![queued]), vec![("worker".to_owned(), 1)]);
}

#[test]
fn native_counts_are_lowered_by_finished_events_never_below_zero() {
    let native = vec![("alpha".to_owned(), 2), ("beta".to_owned(), 1)];
    let events = vec![finished("e1", "beta"), finished("e2", "beta-2"), finished("e3", "alpha-x")];
    assert_eq!(
        subtract_finished_events(native, &events),
        vec![("alpha".to_owned(), 1), ("beta".to_owned(), 0)]
    );
    let active = project_active_invocations(
        &Vec::new(),
        &Vec::new(),
        &events,
        vec![("alpha".to_owned(), 2), ("beta".to_owned(), 1)],
    );
    assert_eq!(active.len(), 1);
    assert_eq!(active[0].agent, "alpha");
    assert_eq!(active[0].count, 1);
    assert_eq!(active[0].max, None);
}

#[test]
fn agent_invocation_status_names_round_trip() {
    for status in [
        AgentInvocationStatus::Queued,
        AgentInvocationStatus::Claimed,
        AgentInvocationStatus::Running,
        AgentInvocationStatus::Succeeded,
        AgentInvocationStatus::Failed,
        AgentInvocationStatus::Cancelled,
        AgentInvocationStatus::TimedOut,
        AgentInvocationStatus::CompletionRejected,
    ] {
        assert_eq!(agent_invocation_status_from_name(agent_invocation_status_name(&status)), status);
    }
    assert_eq!(agent_invocation_status_name(&AgentInvocationStatus::TimedOut), "timed_out");
}

#[test]
fn event_lifecycle_counts_attempts_and_retries_only_failures() {
    let queued = event("evt_1", "tick", Json::Null, EventStatus::Queued);
    let processing = dequeued_event(queued);
    assert_eq!(processing.status, EventStatus::Processing);
    assert_eq!(processing.attempt_count, 1);
    let again = dequeued_event(recovered_event(processing));
    assert_eq!(again.status, EventStatus::Processing);
    assert_eq!(again.attempt_count, 2);
    assert_eq!(event_status_name(EventStatus::DeadLettered), "dead_lettered");

    let mut failed = event("evt_failed", "tick", Json::Null, EventStatus::Failed);
    failed.last_error = Some("temporary failure".to_owned());
    let retried = requeued_for_retry(failed).expect("failed event retries");
    assert_eq!(retried.status, EventStatus::Queued);
    assert_eq!(retried.last_error, None);
    let dead = event("evt_dead", "tick", Json::Null, EventStatus::DeadLettered);
    assert!(requeued_for_retry(dead).is_ok());
    let queued = event("evt_queued", "tick", Json::Null, EventStatus::Queued);
    assert_eq!(requeued_for_retry(queued).err(), Some(EventStatus::Queued));
}

#[test]
fn in_memory_queue_is_first_in_first_out() {
    let mut queue = InMemoryEventQueue::new();
    queue.push(event("a", "tick", Json::Null, EventStatus::Queued));
    queue.push(event("b", "tick", Json::Null, EventStatus::Queued));
    assert_eq!(queue.pop_front().expect("first").event_id, "a");
    assert_eq!(queue.pop_front().expect("second").event_id, "b");
    assert!(queue.pop_front().is_none());
}

#[test]
fn append_only_log_keeps_records_in_order() {
    let mut log = AppendOnlyLog::new();
    log.append(WorkflowLogRecord::Diagnostic { message: "one".to_owned() });
    log.append(WorkflowLogRecord::Diagnostic { message: "two".to_owned() });
    let records = log.records();
    assert_eq!(records.len(), 2);
    assert!(matches!(&records[1], WorkflowLogRecord::Diagnostic { message } if message == "two"));
}

#[test]
fn effect_outcomes_map_to_log_statuses() {
    assert_eq!(effect_log_status(EffectOutcomeStatus::Accepted), EffectStatus::Dispatched);
    assert_eq!(effect_log_status(EffectOutcomeStatus::Succeeded), EffectStatus::Succeeded);
    assert_eq!(effect_log_status(EffectOutcomeStatus::Rejected), EffectStatus::Failed);
    assert_eq!(effect_log_status(EffectOutcomeStatus::Failed), EffectStatus::Failed);
}

fn effect_request(effect_id: &str, effect: &str, target: Option<&str>) -> EffectRequest {
    EffectRequest {
        effect_id: effect_id.to_owned(),
        workflow_id: "Harness".to_owned(),
        transition_id: "tr-1".to_owned(),
        idempotency_key: format!("Harness/evt-1/tr-1/{effect}"),
        effect: effect.to_owned(),
        category: EffectCategory::AsyncInvocation,
        target: target.map(str::to_owned),
        args: Json::Null,
        required_capabilities: vec!["agent.start".to_owned()],
        timeout_ms: None,
    }
}

#[test]
fn processed_events_commit_the_transition_then_intended_effects() {
    let outcome = EventProcessingOutcome {
        status: EventProcessingStatus::Processed,
        transition_id: "tr-1".to_owned(),
        from_state: "waiting".to_owned(),
        to_state: "complete".to_owned(),
        effects: vec![effect_request("eff-1", "start", Some("worker")), effect_request("eff-2", "raise", None)],
        reason: None,
    };
    let source = event("evt-1", "start", Json::Null, EventStatus::Processing);
    let records = processed_commit_records("Harness", &outcome, &source);
    assert_eq!(records.len(), 3);
    assert!(matches!(&records[0], WorkflowLogRecord::Transition { from_state, to_state, event_id, .. }
        if from_state == "waiting" && to_state == "complete" && event_id.as_deref() == Some("evt-1")));
    assert!(matches!(&records[2], WorkflowLogRecord::Effect { effect_id, status: EffectStatus::Intended, outcome: None, .. }
        if effect_id == "eff-2"));
}

#[test]
fn runtime_maps_failed_dispatch_outcomes_to_failed_effect_logs() {
    let effect = effect_request("eff-1", "start", Some("worker"));
    let denied = EffectError::CapabilityDenied {
        message: "capability denied".to_owned(),
        required_capabilities: vec!["agent.tell".to_owned()],
    };
    let record = dispatched_effect_record("Harness", "tr-1", &effect, Err(denied));
    match record {
        WorkflowLogRecord::Effect { status, outcome: Some(outcome), .. } => {
            assert_eq!(status, EffectStatus::Failed);
            assert!(!outcome.accepted);
            assert_eq!(outcome.status, EffectOutcomeStatus::Failed);
            assert_eq!(outcome.error.as_deref(), Some("capability denied"));
            assert_eq!(outcome.required_capabilities, vec!["agent.tell".to_owned()]);
        }
        other => panic!("unexpected record {other:?}"),
    }
    let unsupported = dispatched_effect_record("Harness", "tr-1", &effect, Err(EffectError::Unsupported("start".to_owned())));
    match unsupported {
        WorkflowLogRecord::Effect { outcome: Some(outcome), .. } => {
            assert_eq!(outcome.required_capabilities, vec!["agent.start".to_owned()]);
            assert_eq!(outcome.error.as_deref(), Some("effect `start` is not supported by this adapter"));
        }
        other => panic!("unexpected record {other:?}"),
    }
}

#[test]
fn runtime_blocks_start_effects_when_agent_is_at_max_active() {
    let agents = vec![DeclaredAgent { name: "worker".to_owned(), max_active: Some(1), profile: None, adapter: false }];
    let effect = effect_request("eff-2", "start", Some("worker"));
    let capacity = whipplescript::native::start_capacity_error(&agents, &effect, 1);
    assert!(capacity.is_some());
    let result = dispatch_effect(&mut NoopEffectDispatcher, &agents, &effect, capacity, 7);
    match result {
        Err(EffectError::RuntimeRejected(message)) => assert!(message.contains("worker"), "{message}"),
        other => panic!("unexpected dispatch {other:?}"),
    }
    let accepted = dispatch_effect(&mut NoopEffectDispatcher, &agents, &effect, None, 7).expect("native start");
    assert!(accepted.accepted);
    assert_eq!(accepted.status, EffectOutcomeStatus::Accepted);
    assert_eq!(accepted.invocation_id.as_deref(), Some("Harness/evt-1/tr-1/start"));
    let other = effect_request("eff-3", "notify", None);
    let dispatched = dispatch_effect(&mut NoopEffectDispatcher, &agents, &other, None, 7).expect("noop succeeds");
    assert_eq!(dispatched.status, EffectOutcomeStatus::Succeeded);
}

#[test]
fn ignored_and_failed_events_record_a_diagnostic() {
    let (record, last_error) = ignored_event_diagnostic(&None);
    assert_eq!(last_error, "event ignored");
    assert!(matches!(record, WorkflowLogRecord::Diagnostic { message } if message == "event ignored"));
    let (_, reason) = ignored_event_diagnostic(&Some("no matching handler".to_owned()));
    assert_eq!(reason, "no matching handler");
    let (_, failure) = failed_event_diagnostic(&InterpreterError::UnknownCurrentState("nowhere".to_owned()));
    assert_eq!(failure, "current state `nowhere` is not declared");
    assert_eq!(effect_error_message(&EffectError::RuntimeRejected("busy".to_owned())), "busy");
}

#[test]
fn runtime_step_writes_one_action_per_event_taken() {
    assert!(runtime_step("Harness", &None).is_empty());
    let handled = EventProcessingOutcome {
        status: EventProcessingStatus::Processed,
        transition_id: "tr-1".to_owned(),
        from_state: "waiting".to_owned(),
        to_state: "complete".to_owned(),
        effects: vec![effect_request("eff-1", "start", Some("worker"))],
        reason: None,
    };
    let taken = event("evt-1", "start", Json::Null, EventStatus::Processing);
    let actions = runtime_step("Harness", &Some((taken, Ok(handled))));
    assert_eq!(actions.len(), 1);
    assert!(matches!(&actions[0], StoreAction::Commit { status: EventStatus::Processed, last_error: None, records } if records.len() == 2));

    let ignored = EventProcessingOutcome {
        status: EventProcessingStatus::Ignored,
        transition_id: String::new(),
        from_state: "waiting".to_owned(),
        to_state: "waiting".to_owned(),
        effects: vec![],
        reason: None,
    };
    let taken = event("evt-2", "noise", Json::Null, EventStatus::Processing);
    let actions = runtime_step("Harness", &Some((taken, Ok(ignored))));
    assert!(matches!(&actions[0], StoreAction::Commit { status: EventStatus::Ignored, last_error: Some(reason), records }
        if reason == "event ignored" && records.len() == 1));

    let taken = event("evt-3", "go", Json::Null, EventStatus::Processing);
    let actions = runtime_step("Harness", &Some((taken, Err(InterpreterError::GuardNotBoolean))));
    assert!(matches!(&actions[0], StoreAction::Fail { last_error, records }
        if last_error == "guard expression did not evaluate to a boolean" && records.len() == 1));
}

#[test]
fn status_view_lists_the_first_twenty_queued_events_in_enqueue_order() {
    let queued: Vec<QueuedEventSummary> = (0..25)
        .map(|i| QueuedEventSummary {
            event_id: format!("evt-{i}"),
            event_type: "tick".to_owned(),
            source: None,
            attempt_count: 0,
        })
        .collect();
    let stored = StoredWorkflow {
        state: None,
        pending_events: 25,
        queued_events: queued,
        events: Vec::new(),
        records: Vec::new(),
        native_active: Vec::new(),
        latest_coerce_calls: Vec::new(),
        latest_coerce_failures: Vec::new(),
    };
    let status = project_status("Flow", "waiting".to_owned(), Vec::new(), &Vec::new(), stored);
    assert_eq!(QUEUED_EVENT_LIMIT, 20);
    assert_eq!(status.pending_events, 25);
    assert_eq!(status.queued_events.len(), 20);
    assert_eq!(status.queued_events[0].event_id, "evt-0");
    assert_eq!(status.queued_events[19].event_id, "evt-19");
    assert_eq!(status.current_state, "waiting");
}
