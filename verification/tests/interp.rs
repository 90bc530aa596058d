use whipplescript::cases::CasePattern;
use whipplescript::errors::{EventProcessingStatus, InterpreterError};
use whipplescript::events::{EventStatus, WorkflowEvent};
use whipplescript::expr::Expr;
use whipplescript::interp::{initial_context_from_initializers, process_event, static_initializer_value, Interpreter, InterpreterState, Machine};
use whipplescript::json::Json;
use whipplescript::statechart::{Always, CaseArm, EffectArg, Handler, StateNode, Step};

fn workflow_event(workflow_id: &str, event_id: &str, event_type: &str, payload: Json) -> WorkflowEvent {
    WorkflowEvent {
        event_id: event_id.to_string(),
        workflow_id: workflow_id.to_string(),
        event_type: event_type.to_string(),
        payload,
        source: None,
        occurred_at: None,
        enqueued_at: None,
        correlation_id: None,
        causation_id: None,
        dedupe_key: None,
        status: EventStatus::Queued,
        attempt_count: 0,
        last_error: None,
    }
}

fn empty() -> Json {
    Json::Object(Vec::new())
}

fn num(n: &str) -> Json {
    Json::Number(n.to_owned())
}

fn text(s: &str) -> Json {
    Json::Str(s.to_owned())
}

fn path(p: &str) -> Expr {
    Expr::Path(p.to_owned())
}

fn literal(j: Json) -> Expr {
    Expr::Literal(j)
}

fn state(name: &str) -> StateNode {
    StateNode {
        name: name.to_owned(),
        initial: None,
        entry: Vec::new(),
        on: Vec::new(),
        always: Vec::new(),
        states: Vec::new(),
    }
}

fn on(event: &str, binding: Option<&str>, guard: Option<Expr>, steps: Vec<Step>) -> Handler {
    Handler {
        event: event.to_owned(),
        binding: binding.map(str::to_owned),
        guard,
        transition: None,
        steps,
    }
}

fn goto(target: &str) -> Step {
    Step::Goto { target: Some(target.to_owned()) }
}

fn stay() -> Step {
    Step::Goto { target: None }
}

fn send(agent: &str, message: &str) -> Step {
    Step::Effect {
        effect: "send".to_owned(),
        args: vec![
            ("agent".to_owned(), EffectArg::Literal(text(agent))),
            ("message".to_owned(), EffectArg::Literal(text(message))),
        ],
    }
}

fn assign(target: &str, value: Expr) -> Step {
    Step::Assign { target: target.to_owned(), value }
}

fn machine(name: &str, states: Vec<StateNode>, declared: Vec<&str>) -> Machine {
    Machine {
        workflow_name: name.to_owned(),
        states,
        initial: String::new(),
        initializers: Vec::new(),
        declared: declared.into_iter().map(str::to_owned).collect(),
        defaults: Vec::new(),
        invariants: Vec::new(),
    }
}

fn at(current: &str, data: Vec<(&str, Json)>) -> InterpreterState {
    InterpreterState {
        current_state: current.to_owned(),
        data: data.into_iter().map(|(k, v)| (k.to_owned(), v)).collect(),
        last_transition: None,
    }
}

fn data_of(state: &InterpreterState, key: &str) -> Option<String> {
    state.data.iter().find(|(k, _)| k == key).map(|(_, v)| format!("{:?}", v))
}

fn shown(j: Json) -> Option<String> {
    Some(format!("{:?}", j))
}

fn counting_machine(invariant: (&str, Expr)) -> Machine {
    let mut waiting = state("waiting");
    waiting.on = vec![on("go", None, None, vec![assign("data.count", literal(num("2"))), stay()])];
    let mut m = machine("RuntimeInvariant", vec![waiting], vec!["count"]);
    m.invariants = vec![(invariant.0.to_owned(), invariant.1)];
    m
}

#[test]
fn expression_invariant_violation_rolls_back_interpreter_state() {
    let m = counting_machine((
        "countAtMostOne",
        Expr::Lte(Box::new(path("data.count")), Box::new(literal(num("1")))),
    ));
    let mut st = at("waiting", vec![("count", num("0"))]);
    let error = process_event(&m, &mut st, &workflow_event("RuntimeInvariant", "evt_go", "go", empty()), None, "tr".to_owned(), 0)
        .expect_err("invariant violation fails the transition");
    assert!(matches!(error, InterpreterError::InvariantViolated { ref name } if name == "countAtMostOne"));
    assert_eq!(data_of(&st, "count"), shown(num("0")));
    assert_eq!(st.current_state, "waiting");
    assert_eq!(st.last_transition, None);
}

#[test]
fn expression_invariant_must_evaluate_to_boolean() {
    let mut waiting = state("waiting");
    waiting.on = vec![on("go", None, None, vec![stay()])];
    let mut m = machine("RuntimeInvariant", vec![waiting], vec!["count"]);
    m.invariants = vec![("countIsBoolean".to_owned(), path("data.count"))];
    let mut st = at("waiting", vec![("count", num("1"))]);
    let error = process_event(&m, &mut st, &workflow_event("RuntimeInvariant", "evt_go", "go", empty()), None, "tr".to_owned(), 0)
        .expect_err("non-boolean invariant fails the transition");
    assert!(matches!(error, InterpreterError::InvariantNotBoolean { ref name } if name == "countIsBoolean"));
}

#[test]
fn ignores_event_without_current_state_handler() {
    let mut waiting = state("waiting");
    waiting.on = vec![on("start", Some("evt"), None, vec![goto("done")])];
    let m = machine("Minimal", vec![waiting, state("done")], vec![]);
    let mut st = at("waiting", vec![]);
    let outcome = process_event(&m, &mut st, &workflow_event("Minimal", "evt_1", "other", empty()), None, "tr".to_owned(), 0)
        .expect("unknown event is ignored");
    assert_eq!(outcome.status, EventProcessingStatus::Ignored);
    assert_eq!(outcome.from_state, "waiting");
    assert_eq!(outcome.to_state, "waiting");
    assert!(outcome.reason.is_some());
    assert_eq!(st.current_state, "waiting");
    assert_eq!(st.last_transition, None);
}

#[test]
fn respects_event_handler_guards() {
    let mut waiting = state("waiting");
    let guard = Expr::Gt(Box::new(path("evt.count")), Box::new(literal(num("1"))));
    waiting.on = vec![on("go", Some("evt"), Some(guard), vec![goto("done")])];
    let m = machine("Guarded", vec![waiting, state("done")], vec![]);
    let mut st = at("waiting", vec![]);
    let ignored = process_event(
        &m,
        &mut st,
        &workflow_event("Guarded", "evt_guard_1", "go", Json::Object(vec![("count".to_owned(), num("1"))])),
        None,
        "tr-1".to_owned(),
        0,
    )
    .expect("guard false is handled as ignored");
    assert_eq!(ignored.status, EventProcessingStatus::Ignored);
    assert_eq!(ignored.to_state, "waiting");
    let processed = process_event(
        &m,
        &mut st,
        &workflow_event("Guarded", "evt_guard_2", "go", Json::Object(vec![("count".to_owned(), num("2"))])),
        None,
        "tr-2".to_owned(),
        0,
    )
    .expect("guard true processes");
    assert_eq!(processed.status, EventProcessingStatus::Processed);
    assert_eq!(processed.to_state, "done");
}

#[test]
fn executes_case_arm_effects_and_transition() {
    let mut waiting = state("waiting");
    let case = Step::Case {
        subject: path("evt.name"),
        arms: vec![
            CaseArm {
                pattern: CasePattern::Matches { pattern: "worker-*".to_owned() },
                steps: vec![send("director", "worker completed"), goto("done")],
                transition: None,
            },
            CaseArm { pattern: CasePattern::Wildcard, steps: vec![stay()], transition: None },
        ],
    };
    waiting.on = vec![on("run", Some("evt"), None, vec![case])];
    let m = machine("CaseRuntime", vec![waiting, state("done")], vec![]);
    let mut st = at("waiting", vec![]);
    let outcome = process_event(
        &m,
        &mut st,
        &workflow_event("CaseRuntime", "evt_case", "run", Json::Object(vec![("name".to_owned(), text("worker-1"))])),
        None,
        "tr".to_owned(),
        0,
    )
    .expect("case event processes");
    assert_eq!(outcome.status, EventProcessingStatus::Processed);
    assert_eq!(outcome.to_state, "done");
    assert_eq!(outcome.effects.len(), 1);
    assert_eq!(outcome.effects[0].effect, "send");
    assert_eq!(outcome.effects[0].target.as_deref(), Some("director"));
}

fn nested_machine() -> Machine {
    let mut running = state("running");
    running.initial = Some("watching".to_owned());
    running.on = vec![on("tick", None, None, vec![goto("done")])];
    running.states = vec![state("watching")];
    let mut done = state("done");
    done.on = vec![on("reset", None, None, vec![goto("running")])];
    machine("Nested", vec![running, done], vec![])
}

#[test]
fn descends_initial_children_and_uses_parent_handlers() {
    let mut m = nested_machine();
    m.initial = "running".to_owned();
    let mut interpreter = Interpreter::new(m);
    assert_eq!(interpreter.state.current_state, "watching");
    let tick = interpreter
        .process_event(&workflow_event("Nested", "evt_tick", "tick", empty()), None, "tr-1".to_owned(), 0)
        .expect("parent handler processes from child");
    assert_eq!(tick.status, EventProcessingStatus::Processed);
    assert_eq!(tick.from_state, "watching");
    assert_eq!(tick.to_state, "done");
    let reset = interpreter
        .process_event(&workflow_event("Nested", "evt_reset", "reset", empty()), None, "tr-2".to_owned(), 0)
        .expect("compound transition descends to child");
    assert_eq!(reset.status, EventProcessingStatus::Processed);
    assert_eq!(reset.from_state, "done");
    assert_eq!(reset.to_state, "watching");
}

#[test]
fn executes_entry_actions_after_transition() {
    let mut waiting = state("waiting");
    waiting.on = vec![on("go", None, None, vec![goto("choosing")])];
    let mut choosing = state("choosing");
    choosing.entry = vec![send("director", "entered choosing"), goto("done")];
    let m = machine("EntryActions", vec![waiting, choosing, state("done")], vec![]);
    let mut st = at("waiting", vec![]);
    let outcome = process_event(&m, &mut st, &workflow_event("EntryActions", "evt_go", "go", empty()), None, "tr".to_owned(), 0)
        .expect("entry action runs");
    assert_eq!(outcome.status, EventProcessingStatus::Processed);
    assert_eq!(outcome.from_state, "waiting");
    assert_eq!(outcome.to_state, "done");
    assert_eq!(outcome.effects.len(), 1);
    assert_eq!(outcome.effects[0].effect, "send");
    assert_eq!(outcome.effects[0].target.as_deref(), Some("director"));
}

#[test]
fn executes_always_transition_after_handled_event() {
    let mut waiting = state("waiting");
    waiting.on = vec![on("go", Some("evt"), None, vec![assign("data.ready", path("evt.ready")), stay()])];
    waiting.always = vec![Always {
        guard: Some(Expr::Eq(Box::new(path("data.ready")), Box::new(literal(Json::Bool(true))))),
        steps: vec![goto("done")],
        transition: "done".to_owned(),
    }];
    let m = machine("AlwaysRuntime", vec![waiting, state("done")], vec!["ready"]);
    let mut st = at("waiting", vec![]);
    let outcome = process_event(
        &m,
        &mut st,
        &workflow_event("AlwaysRuntime", "evt_go", "go", Json::Object(vec![("ready".to_owned(), Json::Bool(true))])),
        None,
        "tr".to_owned(),
        0,
    )
    .expect("always transition executes");
    assert_eq!(outcome.status, EventProcessingStatus::Processed);
    assert_eq!(outcome.from_state, "waiting");
    assert_eq!(outcome.to_state, "done");
    assert_eq!(data_of(&st, "ready"), shown(Json::Bool(true)));
}

#[test]
fn effects_are_keyed_by_transition_and_step_path() {
    let mut waiting = state("waiting");
    waiting.on = vec![on("go", None, None, vec![send("director", "first"), goto("choosing")])];
    let mut choosing = state("choosing");
    choosing.entry = vec![send("auditor", "second")];
    let m = machine("Paths", vec![waiting, choosing], vec![]);
    let mut st = at("waiting", vec![]);
    let outcome = process_event(&m, &mut st, &workflow_event("Paths", "evt_9", "go", empty()), None, "tr-7".to_owned(), 0)
        .expect("processes");
    let ids: Vec<&str> = outcome.effects.iter().map(|e| e.effect_id.as_str()).collect();
    assert_eq!(ids, vec!["tr-7:handler.0", "tr-7:entry.0.0.0"]);
    assert_eq!(outcome.effects[0].idempotency_key, "Paths:evt_9:tr-7:handler.0");
    assert_eq!(outcome.effects[1].target.as_deref(), Some("auditor"));
    assert_eq!(
        format!("{:?}", outcome.effects[0].args),
        format!("{:?}", Json::Object(vec![("agent".to_owned(), text("director")), ("message".to_owned(), text("first"))]))
    );
    assert_eq!(st.current_state, "choosing");
    assert_eq!(st.last_transition.as_deref(), Some("waiting --go--> choosing"));
}

#[test]
fn entry_steps_that_keep_transitioning_hit_the_limit() {
    let mut waiting = state("waiting");
    waiting.on = vec![on("go", None, None, vec![goto("ping")])];
    let mut ping = state("ping");
    ping.entry = vec![goto("pong")];
    let mut pong = state("pong");
    pong.entry = vec![goto("ping")];
    let m = machine("Loop", vec![waiting, ping, pong], vec![]);
    let mut st = at("waiting", vec![]);
    let error = process_event(&m, &mut st, &workflow_event("Loop", "e", "go", empty()), None, "tr".to_owned(), 0)
        .expect_err("entry loop is cut off");
    assert!(matches!(error, InterpreterError::EntryTransitionLimitExceeded));
    assert_eq!(st.current_state, "waiting");
}

#[test]
fn always_transitions_that_never_settle_hit_the_limit() {
    let mut waiting = state("waiting");
    waiting.on = vec![on("go", None, None, vec![goto("ping")])];
    let mut ping = state("ping");
    ping.always = vec![Always { guard: None, steps: Vec::new(), transition: "pong".to_owned() }];
    let mut pong = state("pong");
    pong.always = vec![Always { guard: None, steps: Vec::new(), transition: "ping".to_owned() }];
    let m = machine("Loop", vec![waiting, ping, pong], vec![]);
    let mut st = at("waiting", vec![]);
    let error = process_event(&m, &mut st, &workflow_event("Loop", "e", "go", empty()), None, "tr".to_owned(), 0)
        .expect_err("always loop is cut off");
    assert!(matches!(error, InterpreterError::AlwaysTransitionLimitExceeded));
    assert_eq!(st.current_state, "waiting");
}

#[test]
fn payload_mismatches_and_unknown_states_are_refused_without_change() {
    let m = nested_machine();
    let mut st = at("watching", vec![]);
    let error = process_event(
        &m,
        &mut st,
        &workflow_event("Nested", "e", "tick", empty()),
        Some("$.x is not declared".to_owned()),
        "tr".to_owned(),
        0,
    )
    .expect_err("payload refused");
    assert!(matches!(
        error,
        InterpreterError::InvalidEventPayload { ref event_type, ref reason } if event_type == "tick" && reason == "$.x is not declared"
    ));
    assert_eq!(st.current_state, "watching");
    let mut lost = at("nowhere", vec![]);
    let error = process_event(&m, &mut lost, &workflow_event("Nested", "e", "tick", empty()), None, "tr".to_owned(), 0)
        .expect_err("unknown state refused");
    assert!(matches!(error, InterpreterError::UnknownCurrentState(ref s) if s == "nowhere"));
    assert_eq!(lost.current_state, "nowhere");
}

#[test]
fn assigning_an_undeclared_field_fails_and_leaves_the_data() {
    let mut waiting = state("waiting");
    waiting.on = vec![on("go", None, None, vec![assign("data.count", literal(num("1"))), assign("data.other", literal(num("2")))])];
    let m = machine("Undeclared", vec![waiting], vec!["count"]);
    let mut st = at("waiting", vec![("count", num("0"))]);
    let error = process_event(&m, &mut st, &workflow_event("Undeclared", "e", "go", empty()), None, "tr".to_owned(), 0)
        .expect_err("undeclared field");
    assert!(matches!(error, InterpreterError::UndeclaredDataField(ref f) if f == "other"));
    assert_eq!(data_of(&st, "count"), shown(num("0")));
}

#[test]
fn a_new_interpreter_starts_from_its_static_initializers() {
    let inits = vec![
        ("count".to_owned(), literal(num("0"))),
        ("tags".to_owned(), Expr::List(vec![literal(text("a")), literal(text("b"))])),
        ("owner".to_owned(), path("env.user")),
        ("meta".to_owned(), Expr::Object(vec![("z".to_owned(), literal(num("1"))), ("a".to_owned(), literal(Json::Null))])),
        ("count".to_owned(), literal(num("5"))),
    ];
    let data = initial_context_from_initializers(&inits);
    let keys: Vec<&str> = data.iter().map(|(k, _)| k.as_str()).collect();
    // Only static initializers are kept, in key order, a later one replacing an earlier.
    assert_eq!(keys, vec!["count", "meta", "tags"]);
    assert_eq!(format!("{:?}", data[0].1), format!("{:?}", num("5")));
    assert!(static_initializer_value(&path("data.x")).is_none());
    assert!(static_initializer_value(&Expr::List(vec![literal(num("1")), path("data.x")])).is_none());
    let mut m = machine("Init", vec![state("waiting")], vec!["count"]);
    m.initial = "waiting".to_owned();
    m.initializers = inits;
    let interpreter = Interpreter::new(m);
    assert_eq!(interpreter.state.current_state, "waiting");
    assert_eq!(interpreter.state.data.len(), 3);
    assert_eq!(interpreter.state.last_transition, None);
}
