//! Processing one event: the handler the current state chain takes it by,
//! the handler's steps, the transition with its entry steps, the `always`
//! transitions that follow, and the invariants; on any failure the
//! interpreter's state is left as it was.
use vstd::prelude::*;
use crate::builtins::{map_insert, members_of};
use crate::cases::CasePattern;
use crate::commit::EventProcessingOutcome;
use crate::errors::{EventProcessingStatus, InterpreterError};
use crate::events::{request_view, EffectCategory, EffectRequest, EffectRequestView, WorkflowEvent};
use crate::expr::{
    apply_assign, apply_let, assign_spec, check_expression_invariants, env_view, error_view, eval_all, eval_expr, eval_items,
    eval_spec, first_arm, invariants_spec, EnvView, EvalEnv, EvalError, Expr,
};
use crate::json::{Json, JsonValue};
use crate::statechart::{
    chain_handler, chain_in, entry_nodes, find_in, leaf_of, Always, CaseArm, EffectArg, Handler, StateNode, Step,
};
use crate::text::{decimal, str_eq, u64_to_decimal};
use crate::statechart::{copy_members, descend_initial, entry_path, find_state, nodes_of, select_handler, state_chain, unhandled_outcome};

verus! {

/// What the steps of one event see that does not change while they run.
pub struct Ctx {
    pub workflow: Seq<char>,
    pub event_id: Seq<char>,
    pub transition_id: Seq<char>,
    pub payload: JsonValue,
    pub declared: Seq<Seq<char>>,
    pub defaults: Seq<(Seq<char>, JsonValue)>,
    pub now: u64,
}

/// What running steps changes: the workflow data, the step locals, the
/// effects asked for so far, and the transition the last step named.
pub struct Run {
    pub data: Seq<(Seq<char>, JsonValue)>,
    pub locals: Seq<(Seq<char>, JsonValue)>,
    pub effects: Seq<EffectRequestView>,
    pub transition: Option<Seq<char>>,
}

pub open spec fn env_of(ctx: Ctx, binding: Option<Seq<char>>, run: Run) -> EnvView {
    EnvView { locals: run.locals, binding, payload: ctx.payload, data: run.data, now: ctx.now }
}

pub open spec fn opt_seq(o: Option<String>) -> Option<Seq<char>> {
    match o {
        Some(s) => Some(s@),
        None => None,
    }
}

/// The text of the literal string argument `key`.
pub open spec fn arg_text(args: Seq<(String, EffectArg)>, key: Seq<char>) -> Option<Seq<char>>
    decreases args.len(),
{
    if args.len() == 0 {
        None
    } else if args[0].0@ == key {
        match args[0].1 {
            EffectArg::Literal(Json::Str(s)) => Some(s@),
            _ => None,
        }
    } else {
        arg_text(args.drop_first(), key)
    }
}

/// Whether a step of this effect name asks for an effect.
pub open spec fn is_effect_name(e: Seq<char>) -> bool {
    e == "send"@ || e == "start"@ || e == "askHuman"@ || e == "raise"@ || e == "capability_call"@
}

/// The category, target and effect name an effect step asks for.
pub open spec fn effect_kind(e: Seq<char>, args: Seq<(String, EffectArg)>) -> (EffectCategory, Option<Seq<char>>, Seq<char>) {
    if e == "send"@ {
        (EffectCategory::Message, arg_text(args, "agent"@), "send"@)
    } else if e == "start"@ {
        (EffectCategory::AsyncInvocation, arg_text(args, "agent"@), "start"@)
    } else if e == "askHuman"@ {
        (EffectCategory::HumanObligation, None, "askHuman"@)
    } else if e == "raise"@ {
        (EffectCategory::Event, None, "raise"@)
    } else {
        let op = match arg_text(args, "operation"@) {
            Some(o) => o,
            None => "call"@,
        };
        let cap = arg_text(args, "capability"@);
        (
            EffectCategory::SyncValue,
            cap,
            match cap {
                Some(c) => c + "."@ + op,
                None => "capability."@ + op,
            },
        )
    }
}

/// The arguments an effect carries, set in turn onto `acc` as a map sets
/// keys: literals as they are, expressions evaluated.
pub open spec fn effect_args_spec(
    args: Seq<(String, EffectArg)>,
    env: EnvView,
    acc: Seq<(Seq<char>, JsonValue)>,
) -> Result<Seq<(Seq<char>, JsonValue)>, EvalError>
    decreases args.len(),
{
    if args.len() == 0 {
        Ok(acc)
    } else {
        let v: Result<JsonValue, EvalError> = match args[0].1 {
            EffectArg::Literal(j) => Ok(j.value()),
            EffectArg::Eval(e) => eval_spec(e, env),
            EffectArg::EvalList(es) => match eval_all(es@, env) {
                Ok(vs) => Ok(JsonValue::Array(vs)),
                Err(x) => Err(x),
            },
        };
        match v {
            Err(x) => Err(x),
            Ok(v) => effect_args_spec(args.drop_first(), env, map_insert(acc, args[0].0@, v)),
        }
    }
}

/// The request an effect step at `path` makes.
pub open spec fn effect_view(ctx: Ctx, path: Seq<char>, e: Seq<char>, args: Seq<(String, EffectArg)>, members: Seq<(Seq<char>, JsonValue)>) -> EffectRequestView {
    let effect_id = ctx.transition_id + ":"@ + path;
    let kind = effect_kind(e, args);
    EffectRequestView {
        effect_id,
        workflow_id: ctx.workflow,
        transition_id: ctx.transition_id,
        idempotency_key: ctx.workflow + ":"@ + ctx.event_id + ":"@ + effect_id,
        effect: kind.2,
        category: kind.0,
        target: kind.1,
        args: JsonValue::Object(members),
        required_capabilities: Seq::empty(),
        timeout_ms: None,
    }
}

/// The patterns of case arms.
pub open spec fn patterns_of(arms: Seq<CaseArm>) -> Seq<CasePattern> {
    arms.map_values(|a: CaseArm| a.pattern)
}

/// Runs one step at `path`.
pub open spec fn step_spec(s: Step, ctx: Ctx, binding: Option<Seq<char>>, path: Seq<char>, run: Run) -> Result<Run, EvalError>
    decreases s, 0int,
{
    let env = env_of(ctx, binding, run);
    match s {
        Step::Assign { target, value } => match assign_spec(run.data, ctx.declared, ctx.defaults, target@, value, env) {
            Ok(d) => Ok(Run { data: d, ..run }),
            Err(x) => Err(x),
        },
        Step::Let { name, value } => match eval_spec(value, env) {
            Ok(v) => Ok(Run { locals: map_insert(run.locals, name@, v), ..run }),
            Err(x) => Err(x),
        },
        Step::Effect { effect, args } => if is_effect_name(effect@) {
            match effect_args_spec(args@, env, Seq::empty()) {
                Ok(ms) => Ok(Run { effects: run.effects.push(effect_view(ctx, path, effect@, args@, ms)), ..run }),
                Err(x) => Err(x),
            }
        } else {
            Ok(run)
        },
        Step::Goto { target } => Ok(Run { transition: opt_seq(target), ..run }),
        Step::Case { subject, arms } => match eval_spec(subject, env) {
            Err(x) => Err(x),
            Ok(v) => match first_arm(patterns_of(arms@), v) {
                None => Ok(run),
                Some(k) => if 0 <= k < arms@.len() {
                    proof {
                        broadcast use vstd::std_specs::vec::axiom_vec_decreases_to_view, vstd::seq::axiom_seq_index_decreases;
                        assert(decreases_to!(s => arms));
                        assert(decreases_to!(arms => arms@));
                        assert(decreases_to!(arms@ => arms@[k]));
                        assert(decreases_to!(arms@[k] => arms@[k].steps));
                        assert(decreases_to!(arms@[k].steps => arms@[k].steps@));
                    }
                    match steps_spec(arms@[k].steps@, ctx, binding, path + "."@ + decimal(k as nat), 0, Run { transition: None, ..run }) {
                        Err(x) => Err(x),
                        Ok(r2) => Ok(
                            Run {
                                transition: match r2.transition {
                                    Some(t) => Some(t),
                                    None => opt_seq(arms@[k].transition),
                                },
                                ..r2
                            },
                        ),
                    }
                } else {
                    Ok(run)
                },
            },
        },
        Step::Noop => Ok(run),
    }
}

/// Runs `ss[i..]` under `prefix`, stopping after the first step that names
/// a transition.
pub open spec fn steps_spec(ss: Seq<Step>, ctx: Ctx, binding: Option<Seq<char>>, prefix: Seq<char>, i: int, run: Run) -> Result<Run, EvalError>
    decreases ss, ss.len() - i,
{
    if i < 0 || i >= ss.len() {
        Ok(run)
    } else {
        proof {
            broadcast use vstd::seq::axiom_seq_index_decreases;
            assert(decreases_to!(ss => ss[i]));
        }
        match step_spec(ss[i], ctx, binding, prefix + "."@ + decimal(i as nat), run) {
            Err(x) => Err(x),
            Ok(r2) => if r2.transition is Some {
                Ok(r2)
            } else {
                steps_spec(ss, ctx, binding, prefix, i + 1, r2)
            },
        }
    }
}

/// The most entry or always transitions one event may take in a row.
pub const TRANSITION_LIMIT: usize = 16;

/// Runs the entry steps of `nodes[j..]` (the states a transition enters);
/// `count` numbers the states with entry steps. Stops after the first list
/// that names a transition.
pub open spec fn entry_spec(
    nodes: Seq<StateNode>,
    ctx: Ctx,
    binding: Option<Seq<char>>,
    depth: nat,
    j: int,
    count: nat,
    run: Run,
) -> Result<Run, EvalError>
    decreases nodes.len() - j,
{
    if j < 0 || j >= nodes.len() {
        Ok(run)
    } else if nodes[j].entry@.len() == 0 {
        entry_spec(nodes, ctx, binding, depth, j + 1, count, run)
    } else {
        match steps_spec(nodes[j].entry@, ctx, binding, "entry"@ + "."@ + decimal(depth) + "."@ + decimal(count), 0, run) {
            Err(x) => Err(x),
            Ok(r2) => if r2.transition is Some {
                Ok(r2)
            } else {
                entry_spec(nodes, ctx, binding, depth, j + 1, count + 1, r2)
            },
        }
    }
}

/// A transition to `target`: the state settled in is the target's leaf
/// (the target itself where no state has its name), the entered states'
/// entry steps run, and a transition they name is taken in turn, at most
/// [`TRANSITION_LIMIT`] in a row. Gives the state settled in.
pub open spec fn transition_spec(
    target: Seq<char>,
    depth: nat,
    states: Seq<StateNode>,
    ctx: Ctx,
    binding: Option<Seq<char>>,
    run: Run,
) -> Result<(Seq<char>, Run), EvalError>
    decreases TRANSITION_LIMIT - depth,
{
    if depth >= TRANSITION_LIMIT {
        Err(EvalError::EntryTransitionLimitExceeded)
    } else {
        let found = find_in(states, target);
        let current = match found {
            Some(st) => leaf_of(target, st),
            None => target,
        };
        let nodes = match found {
            Some(st) => entry_nodes(st),
            None => Seq::empty(),
        };
        match entry_spec(nodes, ctx, binding, depth, 0, 0, Run { transition: None, ..run }) {
            Err(x) => Err(x),
            Ok(r2) => match r2.transition {
                None => Ok((current, r2)),
                Some(next) => transition_spec(next, depth + 1, states, ctx, binding, Run { transition: None, ..r2 }),
            },
        }
    }
}

/// Whether an optional guard holds.
pub open spec fn guard_spec(guard: Option<Expr>, env: EnvView) -> Result<bool, EvalError> {
    match guard {
        None => Ok(true),
        Some(g) => match eval_spec(g, env) {
            Ok(JsonValue::Bool(b)) => Ok(b),
            Ok(_) => Err(EvalError::GuardNotBoolean),
            Err(x) => Err(x),
        },
    }
}

/// The first of a state's `always` transitions whose guard holds.
pub open spec fn first_always(al: Seq<Always>, env: EnvView) -> Result<Option<Always>, EvalError>
    decreases al.len(),
{
    if al.len() == 0 {
        Ok(None)
    } else {
        match guard_spec(al[0].guard, env) {
            Err(x) => Err(x),
            Ok(true) => Ok(Some(al[0])),
            Ok(false) => first_always(al.drop_first(), env),
        }
    }
}

/// The `always` transition taken from a state chain: the innermost state
/// first.
pub open spec fn chain_always(chain: Seq<StateNode>, env: EnvView) -> Result<Option<Always>, EvalError>
    decreases chain.len(),
{
    if chain.len() == 0 {
        Ok(None)
    } else {
        match first_always(chain.last().always@, env) {
            Err(x) => Err(x),
            Ok(Some(a)) => Ok(Some(a)),
            Ok(None) => chain_always(chain.drop_last(), env),
        }
    }
}

/// The `always` transitions taken from `current`, at most
/// [`TRANSITION_LIMIT`] in a row, with no event binding. Gives the state
/// settled in.
pub open spec fn always_spec(depth: nat, states: Seq<StateNode>, ctx: Ctx, current: Seq<char>, run: Run) -> Result<(Seq<char>, Run), EvalError>
    decreases TRANSITION_LIMIT - depth,
{
    if depth >= TRANSITION_LIMIT {
        Err(EvalError::AlwaysTransitionLimitExceeded)
    } else {
        match chain_in(states, current) {
            None => Err(EvalError::UnknownCurrentState(current)),
            Some(chain) => match chain_always(chain, env_of(ctx, None, run)) {
                Err(x) => Err(x),
                Ok(None) => Ok((current, run)),
                Ok(Some(a)) => match steps_spec(a.steps@, ctx, None, "always"@ + "."@ + decimal(depth), 0, Run { transition: None, ..run }) {
                    Err(x) => Err(x),
                    Ok(r2) => {
                        let target = match r2.transition {
                            Some(t) => t,
                            None => a.transition@,
                        };
                        match transition_spec(target, 0, states, ctx, None, Run { transition: None, ..r2 }) {
                            Err(x) => Err(x),
                            Ok((c2, r3)) => always_spec(depth + 1, states, ctx, c2, r3),
                        }
                    },
                },
            },
        }
    }
}

/// What the steps of one event see, from the machine, the event, the
/// transition's id and the time.
pub open spec fn ctx_of(machine: Machine, event: WorkflowEvent, transition_id: Seq<char>, now: u64) -> Ctx {
    Ctx {
        workflow: machine.workflow_name@,
        event_id: event.event_id@,
        transition_id,
        payload: event.payload.value(),
        declared: crate::order::views(machine.declared@),
        defaults: members_of(machine.defaults@),
        now,
    }
}

/// A workflow as the interpreter runs it: its name, its statechart with
/// the state it starts in, its declared data fields with the schema
/// defaults of those that have one and the expressions that initialise
/// them, and its expression invariants.
pub struct Machine {
    pub workflow_name: String,
    pub states: Vec<StateNode>,
    pub initial: String,
    pub initializers: Vec<(String, Expr)>,
    pub declared: Vec<String>,
    pub defaults: Vec<(String, Json)>,
    pub invariants: Vec<(String, Expr)>,
}

/// What the interpreter holds between events: the current state, the
/// workflow data (in key order) and the last transition taken.
pub struct InterpreterState {
    pub current_state: String,
    pub data: Vec<(String, Json)>,
    pub last_transition: Option<String>,
}

/// The interpreter's state as the contracts read it.
pub struct StateView {
    pub current: Seq<char>,
    pub data: Seq<(Seq<char>, JsonValue)>,
    pub last_transition: Option<Seq<char>>,
}

pub open spec fn state_view(s: InterpreterState) -> StateView {
    StateView { current: s.current_state@, data: members_of(s.data@), last_transition: opt_seq(s.last_transition) }
}

/// An event processing outcome as the contracts read it.
pub struct OutcomeView {
    pub status: EventProcessingStatus,
    pub transition_id: Seq<char>,
    pub from_state: Seq<char>,
    pub to_state: Seq<char>,
    pub effects: Seq<EffectRequestView>,
    pub reason: Option<Seq<char>>,
}

pub open spec fn outcome_view(o: EventProcessingOutcome) -> OutcomeView {
    OutcomeView {
        status: o.status,
        transition_id: o.transition_id@,
        from_state: o.from_state@,
        to_state: o.to_state@,
        effects: o.effects@.map_values(|q: EffectRequest| crate::events::request_view(q)),
        reason: opt_seq(o.reason),
    }
}

/// What processing `event` in `state` gives: a payload that does not fit
/// its declared shape fails; the current state must be a state of the
/// chart; an event no handler takes is ignored and changes nothing;
/// otherwise the handler's steps run (no locals at first, the event under
/// the handler's binding), the transition they or the handler name is
/// taken, then the `always` transitions, and the invariants must hold. The
/// new state records the transition taken.
pub open spec fn process_spec(
    machine: Machine,
    state: StateView,
    event: WorkflowEvent,
    payload_mismatch: Option<Seq<char>>,
    transition_id: Seq<char>,
    now: u64,
) -> Result<(OutcomeView, StateView), EvalError> {
    let ctx = ctx_of(machine, event, transition_id, now);
    let from = state.current;
    match payload_mismatch {
        Some(reason) => Err(EvalError::InvalidEventPayload(event.event_type@, reason)),
        None => match chain_in(machine.states@, from) {
            None => Err(EvalError::UnknownCurrentState(from)),
            Some(chain) => match chain_handler(chain, event.event_type@, ctx.payload, state.data, ctx.now) {
                Err(x) => Err(x),
                Ok(None) => Ok(
                    (
                        OutcomeView {
                            status: EventProcessingStatus::Ignored,
                            transition_id,
                            from_state: from,
                            to_state: from,
                            effects: Seq::empty(),
                            reason: Some("state `"@ + from + "` has no matching handler for event `"@ + event.event_type@ + "`"@),
                        },
                        state,
                    ),
                ),
                Ok(Some(h)) => {
                    let binding = opt_seq(h.binding);
                    let run0 = Run { data: state.data, locals: Seq::empty(), effects: Seq::empty(), transition: None };
                    match steps_spec(h.steps@, ctx, binding, "handler"@, 0, run0) {
                        Err(x) => Err(x),
                        Ok(r1) => {
                            let target = match r1.transition {
                                Some(t) => Some(t),
                                None => opt_seq(h.transition),
                            };
                            let moved: Result<(Seq<char>, Run), EvalError> = match target {
                                None => Ok((from, r1)),
                                Some(t) => transition_spec(t, 0, machine.states@, ctx, binding, Run { transition: None, ..r1 }),
                            };
                            match moved {
                                Err(x) => Err(x),
                                Ok((c1, r2)) => match always_spec(0, machine.states@, ctx, c1, r2) {
                                    Err(x) => Err(x),
                                    Ok((c2, r3)) => match invariants_spec(
                                        machine.invariants@,
                                        EnvView { locals: Seq::empty(), binding: None, payload: ctx.payload, data: r3.data, now: ctx.now },
                                    ) {
                                        Err(x) => Err(x),
                                        Ok(_) => Ok(
                                            (
                                                OutcomeView {
                                                    status: EventProcessingStatus::Processed,
                                                    transition_id,
                                                    from_state: from,
                                                    to_state: c2,
                                                    effects: r3.effects,
                                                    reason: None,
                                                },
                                                StateView {
                                                    current: c2,
                                                    data: r3.data,
                                                    last_transition: Some(from + " --"@ + event.event_type@ + "--> "@ + c2),
                                                },
                                            ),
                                        ),
                                    },
                                },
                            }
                        },
                    }
                },
            },
        },
    }
}

/// What running steps changes, as the interpreter holds it.
pub struct Runner {
    pub data: Vec<(String, Json)>,
    pub locals: Vec<(String, Json)>,
    pub effects: Vec<EffectRequest>,
    pub transition: Option<String>,
}

pub open spec fn run_of(r: Runner) -> Run {
    Run {
        data: members_of(r.data@),
        locals: members_of(r.locals@),
        effects: r.effects@.map_values(|q: EffectRequest| request_view(q)),
        transition: opt_seq(r.transition),
    }
}

fn copy_opt(o: &Option<String>) -> (r: Option<String>)
    ensures
        opt_seq(r) == opt_seq(*o),
{
    match o {
        Some(s) => Some(s.clone()),
        None => None,
    }
}

fn concat(a: &str, b: &str) -> (r: String)
    ensures
        r@ == a@ + b@,
{
    let mut r = a.to_owned();
    r.append(b);
    r
}

/// The expression environment of a step.
fn env_for(machine: &Machine, event: &WorkflowEvent, tid: &str, now: u64, binding: &Option<String>, run: &Runner) -> (r: EvalEnv)
    ensures
        env_view(r) == env_of(ctx_of(*machine, *event, tid@, now), opt_seq(*binding), run_of(*run)),
{
    EvalEnv {
        locals: copy_members(&run.locals),
        event_binding: copy_opt(binding),
        payload: event.payload.deep_clone(),
        data: copy_members(&run.data),
        now,
    }
}

/// The text of the literal string argument `key`.
fn arg_text_exec(args: &Vec<(String, EffectArg)>, key: &str) -> (r: Option<String>)
    ensures
        opt_seq(r) == arg_text(args@, key@),
{
    let mut i: usize = 0;
    assert(args@.subrange(0, args@.len() as int) =~= args@);
    while i < args.len()
        invariant
            i <= args@.len(),
            arg_text(args@, key@) == arg_text(args@.subrange(i as int, args@.len() as int), key@),
        decreases args.len() - i,
    {
        let ghost rest = args@.subrange(i as int, args@.len() as int);
        assert(rest.drop_first() =~= args@.subrange(i + 1, args@.len() as int));
        assert(rest[0] == args@[i as int]);
        if str_eq(args[i].0.as_str(), key) {
            return match &args[i].1 {
                EffectArg::Literal(Json::Str(s)) => Some(s.clone()),
                _ => None,
            };
        }
        i += 1;
    }
    None
}

/// The category, target and effect name of an effect step.
fn effect_kind_exec(e: &str, args: &Vec<(String, EffectArg)>) -> (r: (EffectCategory, Option<String>, String))
    ensures
        (r.0, opt_seq(r.1), r.2@) == effect_kind(e@, args@),
{
    if str_eq(e, "send") {
        (EffectCategory::Message, arg_text_exec(args, "agent"), "send".to_owned())
    } else if str_eq(e, "start") {
        (EffectCategory::AsyncInvocation, arg_text_exec(args, "agent"), "start".to_owned())
    } else if str_eq(e, "askHuman") {
        (EffectCategory::HumanObligation, None, "askHuman".to_owned())
    } else if str_eq(e, "raise") {
        (EffectCategory::Event, None, "raise".to_owned())
    } else {
        let op = match arg_text_exec(args, "operation") {
            Some(o) => o,
            None => "call".to_owned(),
        };
        let cap = arg_text_exec(args, "capability");
        let name = match &cap {
            Some(c) => concat(concat(c.as_str(), ".").as_str(), op.as_str()),
            None => concat("capability.", op.as_str()),
        };
        (EffectCategory::SyncValue, cap, name)
    }
}

/// The arguments `args[at..]` of an effect, set onto `acc`.
fn effect_args_exec(args: &Vec<(String, EffectArg)>, env: &EvalEnv, at: usize, acc: Vec<(String, Json)>) -> (r: Result<Vec<(String, Json)>, InterpreterError>)
    requires
        at <= args.len(),
    ensures
        match effect_args_spec(args@.skip(at as int), env_view(*env), members_of(acc@)) {
            Ok(ms) => r matches Ok(x) && members_of(x@) == ms,
            Err(e) => r matches Err(x) && error_view(x) == e,
        },
    decreases args.len() - at,
{
    if at == args.len() {
        assert(args@.skip(at as int) =~= Seq::<(String, EffectArg)>::empty());
        return Ok(acc);
    }
    assert(args@.skip(at as int)[0] == args@[at as int]);
    assert(args@.skip(at as int).drop_first() =~= args@.skip(at + 1));
    let v = match &args[at].1 {
        EffectArg::Literal(j) => j.deep_clone(),
        EffectArg::Eval(e) => match eval_expr(e, env) {
            Ok(v) => v,
            Err(x) => {
                return Err(x);
            },
        },
        EffectArg::EvalList(es) => {
            assert(es@.skip(0) =~= es@);
            match eval_items(es, 0, env) {
                Ok(vs) => {
                    let j = Json::Array(vs);
                    assert(j.value()->Array_0 =~= crate::builtins::values_of(vs@));
                    j
                },
                Err(x) => {
                    return Err(x);
                },
            }
        },
    };
    let next = crate::builtins::map_insert_json(&acc, args[at].0.as_str(), &v);
    effect_args_exec(args, env, at + 1, next)
}

/// Whether a step of this effect name asks for an effect.
fn is_effect_name_exec(e: &str) -> (r: bool)
    ensures
        r == is_effect_name(e@),
{
    str_eq(e, "send") || str_eq(e, "start") || str_eq(e, "askHuman") || str_eq(e, "raise") || str_eq(e, "capability_call")
}

/// The index of the first arm whose pattern matches `v`.
fn find_arm(arms: &Vec<CaseArm>, v: &Json) -> (r: Option<usize>)
    ensures
        match r {
            Some(k) => first_arm(patterns_of(arms@), v.value()) == Some(k as int) && k < arms@.len(),
            None => first_arm(patterns_of(arms@), v.value()) is None,
        },
{
    let ghost ps = patterns_of(arms@);
    let mut i: usize = 0;
    while i < arms.len()
        invariant
            i <= arms@.len(),
            ps == patterns_of(arms@),
            first_arm(ps.subrange(0, i as int), v.value()) is None,
        decreases arms.len() - i,
    {
        let ghost pre = ps.subrange(0, i + 1);
        assert(pre.drop_last() =~= ps.subrange(0, i as int));
        assert(pre.last() == arms@[i as int].pattern);
        if crate::cases::case_pattern_matches(&arms[i].pattern, v) {
            proof {
                assert(first_arm(pre, v.value()) == Some(i as int));
                crate::expr::lemma_first_arm_prefix(ps, v.value(), i as int + 1);
            }
            return Some(i);
        }
        i += 1;
    }
    assert(ps.subrange(0, ps.len() as int) =~= ps);
    None
}

/// `prefix.n`.
fn indexed(prefix: &str, n: usize) -> (r: String)
    ensures
        r@ == prefix@ + "."@ + decimal(n as nat),
{
    concat(concat(prefix, ".").as_str(), u64_to_decimal(n as u64).as_str())
}

/// Runs one step at `path`.
fn run_step(
    step: &Step,
    machine: &Machine,
    event: &WorkflowEvent,
    tid: &str,
    now: u64,
    binding: &Option<String>,
    path: &String,
    run: &mut Runner,
) -> (res: Result<(), InterpreterError>)
    ensures
        match step_spec(*step, ctx_of(*machine, *event, tid@, now), opt_seq(*binding), path@, run_of(*old(run))) {
            Ok(r) => res is Ok && run_of(*final(run)) == r,
            Err(e) => res matches Err(x) && error_view(x) == e,
        },
    decreases step, 0int,
{
    let env = env_for(machine, event, tid, now, binding, run);
    match step {
        Step::Assign { target, value } => apply_assign(&mut run.data, &machine.declared, &machine.defaults, target.as_str(), value, &env),
        Step::Let { name, value } => apply_let(&mut run.locals, name.as_str(), value, &env),
        Step::Effect { effect, args } => {
            if !is_effect_name_exec(effect.as_str()) {
                return Ok(());
            }
            let empty: Vec<(String, Json)> = Vec::new();
            assert(members_of(empty@) =~= Seq::<(Seq<char>, JsonValue)>::empty());
            assert(args@.skip(0) =~= args@);
            let members = match effect_args_exec(args, &env, 0, empty) {
                Ok(m) => m,
                Err(x) => {
                    return Err(x);
                },
            };
            let kind = effect_kind_exec(effect.as_str(), args);
            let effect_id = concat(concat(tid, ":").as_str(), path.as_str());
            let key = concat(
                concat(concat(concat(machine.workflow_name.as_str(), ":").as_str(), event.event_id.as_str()).as_str(), ":").as_str(),
                effect_id.as_str(),
            );
            proof {
                crate::engine::lemma_object_members(members);
            }
            let req = EffectRequest {
                effect_id,
                workflow_id: machine.workflow_name.clone(),
                transition_id: tid.to_owned(),
                idempotency_key: key,
                effect: kind.2,
                category: kind.0,
                target: kind.1,
                args: Json::Object(members),
                required_capabilities: Vec::new(),
                timeout_ms: None,
            };
            assert(request_view(req).required_capabilities =~= Seq::<Seq<char>>::empty());
            let ghost before = run.effects@;
            run.effects.push(req);
            assert(run.effects@.map_values(|q: EffectRequest| request_view(q)) =~= before.map_values(
                |q: EffectRequest| request_view(q),
            ).push(request_view(req)));
            Ok(())
        },
        Step::Goto { target } => {
            run.transition = copy_opt(target);
            Ok(())
        },
        Step::Case { subject, arms } => {
            let v = match eval_expr(subject, &env) {
                Ok(v) => v,
                Err(x) => {
                    return Err(x);
                },
            };
            match find_arm(arms, &v) {
                None => Ok(()),
                Some(k) => {
                    proof {
                        broadcast use vstd::std_specs::vec::axiom_vec_index_decreases;
                        assert(decreases_to!(*step => *arms));
                        assert(decreases_to!(*arms => arms[k as int]));
                        assert(decreases_to!(arms[k as int] => arms[k as int].steps));
                    }
                    let prefix = indexed(path.as_str(), k);
                    run.transition = None;
                    match run_steps(&arms[k].steps, machine, event, tid, now, binding, &prefix, 0, run) {
                        Err(x) => {
                            return Err(x);
                        },
                        Ok(_) => {},
                    }
                    if run.transition.is_none() {
                        run.transition = copy_opt(&arms[k].transition);
                    }
                    Ok(())
                },
            }
        },
        Step::Noop => Ok(()),
    }
}

/// Runs `ss[i..]` under `prefix`, stopping after the first step that names
/// a transition.
fn run_steps(
    ss: &Vec<Step>,
    machine: &Machine,
    event: &WorkflowEvent,
    tid: &str,
    now: u64,
    binding: &Option<String>,
    prefix: &String,
    i: usize,
    run: &mut Runner,
) -> (res: Result<(), InterpreterError>)
    ensures
        match steps_spec(ss@, ctx_of(*machine, *event, tid@, now), opt_seq(*binding), prefix@, i as int, run_of(*old(run))) {
            Ok(r) => res is Ok && run_of(*final(run)) == r,
            Err(e) => res matches Err(x) && error_view(x) == e,
        },
    decreases ss, ss.len() - i,
{
    if i >= ss.len() {
        return Ok(());
    }
    proof {
        broadcast use vstd::std_specs::vec::axiom_vec_index_decreases;
        assert(decreases_to!(*ss => ss[i as int]));
    }
    let path = indexed(prefix.as_str(), i);
    match run_step(&ss[i], machine, event, tid, now, binding, &path, run) {
        Err(x) => {
            return Err(x);
        },
        Ok(_) => {},
    }
    if run.transition.is_some() {
        return Ok(());
    }
    run_steps(ss, machine, event, tid, now, binding, prefix, i + 1, run)
}


/// Runs the entry steps of `nodes[j..]`; `count` numbers the states with
/// entry steps so far.
fn run_entry(
    nodes: &Vec<&StateNode>,
    machine: &Machine,
    event: &WorkflowEvent,
    tid: &str,
    now: u64,
    binding: &Option<String>,
    depth: usize,
    j: usize,
    count: usize,
    run: &mut Runner,
) -> (res: Result<(), InterpreterError>)
    requires
        j <= nodes@.len(),
        count <= j,
    ensures
        match entry_spec(nodes_of(nodes@), ctx_of(*machine, *event, tid@, now), opt_seq(*binding), depth as nat, j as int, count as nat, run_of(*old(run))) {
            Ok(r) => res is Ok && run_of(*final(run)) == r,
            Err(e) => res matches Err(x) && error_view(x) == e,
        },
    decreases nodes.len() - j,
{
    if j >= nodes.len() {
        return Ok(());
    }
    let node: &StateNode = nodes[j];
    assert(nodes_of(nodes@)[j as int] == *node);
    if node.entry.len() == 0 {
        return run_entry(nodes, machine, event, tid, now, binding, depth, j + 1, count, run);
    }
    let prefix = indexed(indexed("entry", depth).as_str(), count);
    match run_steps(&node.entry, machine, event, tid, now, binding, &prefix, 0, run) {
        Err(x) => {
            return Err(x);
        },
        Ok(_) => {},
    }
    if run.transition.is_some() {
        return Ok(());
    }
    run_entry(nodes, machine, event, tid, now, binding, depth, j + 1, count + 1, run)
}

/// Takes a transition to `target`, with the entry steps of the states it
/// enters and the transitions they name; gives the state settled in.
fn run_transition(
    target: String,
    depth: usize,
    machine: &Machine,
    event: &WorkflowEvent,
    tid: &str,
    now: u64,
    binding: &Option<String>,
    run: &mut Runner,
) -> (res: Result<String, InterpreterError>)
    requires
        depth <= TRANSITION_LIMIT,
    ensures
        match transition_spec(target@, depth as nat, machine.states@, ctx_of(*machine, *event, tid@, now), opt_seq(*binding), run_of(*old(run))) {
            Ok((c, r)) => res matches Ok(x) && x@ == c && run_of(*final(run)) == r,
            Err(e) => res matches Err(x) && error_view(x) == e,
        },
    decreases TRANSITION_LIMIT - depth,
{
    if depth >= TRANSITION_LIMIT {
        return Err(InterpreterError::EntryTransitionLimitExceeded);
    }
    let found = find_state(&machine.states, target.as_str());
    let current = match found {
        Some(st) => descend_initial(target.as_str(), st),
        None => target.clone(),
    };
    let nodes: Vec<&StateNode> = match found {
        Some(st) => entry_path(st),
        None => Vec::new(),
    };
    assert(nodes_of(nodes@) == match find_in(machine.states@, target@) {
        Some(st) => entry_nodes(st),
        None => Seq::<StateNode>::empty(),
    });
    run.transition = None;
    match run_entry(&nodes, machine, event, tid, now, binding, depth, 0, 0, run) {
        Err(x) => {
            return Err(x);
        },
        Ok(_) => {},
    }
    match copy_opt(&run.transition) {
        None => Ok(current),
        Some(next) => {
            run.transition = None;
            run_transition(next, depth + 1, machine, event, tid, now, binding, run)
        },
    }
}


/// Whether an optional guard holds.
fn guard_holds(guard: &Option<Expr>, env: &EvalEnv) -> (r: Result<bool, InterpreterError>)
    ensures
        match guard_spec(*guard, env_view(*env)) {
            Ok(b) => r matches Ok(x) && x == b,
            Err(e) => r matches Err(x) && error_view(x) == e,
        },
{
    match guard {
        None => Ok(true),
        Some(g) => match eval_expr(g, env) {
            Ok(Json::Bool(b)) => Ok(b),
            Ok(_) => Err(InterpreterError::GuardNotBoolean),
            Err(x) => Err(x),
        },
    }
}

/// The first of a state's `always` transitions whose guard holds.
fn state_always<'a>(state: &'a StateNode, env: &EvalEnv) -> (r: Result<Option<&'a Always>, InterpreterError>)
    ensures
        match first_always(state.always@, env_view(*env)) {
            Ok(Some(a)) => r matches Ok(Some(x)) && *x == a,
            Ok(None) => r matches Ok(None),
            Err(e) => r matches Err(x) && error_view(x) == e,
        },
{
    let ghost ev = env_view(*env);
    let al = &state.always;
    let mut i: usize = 0;
    assert(al@.subrange(0, al@.len() as int) =~= al@);
    while i < al.len()
        invariant
            i <= al@.len(),
            al@ == state.always@,
            ev == env_view(*env),
            first_always(al@, ev) == first_always(al@.subrange(i as int, al@.len() as int), ev),
        decreases al.len() - i,
    {
        let ghost rest = al@.subrange(i as int, al@.len() as int);
        assert(rest.drop_first() =~= al@.subrange(i + 1, al@.len() as int));
        assert(rest[0] == al@[i as int]);
        match guard_holds(&al[i].guard, env) {
            Err(x) => {
                return Err(x);
            },
            Ok(true) => {
                return Ok(Some(&al[i]));
            },
            Ok(false) => {},
        }
        i += 1;
    }
    Ok(None)
}

/// The `always` transition taken from a state chain, the innermost state
/// first.
fn select_always<'a>(chain: &Vec<&'a StateNode>, env: &EvalEnv) -> (r: Result<Option<&'a Always>, InterpreterError>)
    ensures
        match chain_always(nodes_of(chain@), env_view(*env)) {
            Ok(Some(a)) => r matches Ok(Some(x)) && *x == a,
            Ok(None) => r matches Ok(None),
            Err(e) => r matches Err(x) && error_view(x) == e,
        },
{
    let ghost ev = env_view(*env);
    let mut n: usize = chain.len();
    assert(nodes_of(chain@).subrange(0, n as int) =~= nodes_of(chain@));
    while n > 0
        invariant
            n <= chain@.len(),
            ev == env_view(*env),
            chain_always(nodes_of(chain@), ev) == chain_always(nodes_of(chain@).subrange(0, n as int), ev),
        decreases n,
    {
        let ghost sub = nodes_of(chain@).subrange(0, n as int);
        assert(sub.drop_last() =~= nodes_of(chain@).subrange(0, n - 1));
        assert(sub.last() == *chain@[n - 1]);
        match state_always(chain[n - 1], env) {
            Err(x) => {
                return Err(x);
            },
            Ok(Some(a)) => {
                return Ok(Some(a));
            },
            Ok(None) => {},
        }
        n -= 1;
    }
    Ok(None)
}

/// Takes the `always` transitions from `current`; gives the state settled
/// in.
fn run_always(
    depth: usize,
    machine: &Machine,
    event: &WorkflowEvent,
    tid: &str,
    now: u64,
    current: String,
    run: &mut Runner,
) -> (res: Result<String, InterpreterError>)
    requires
        depth <= TRANSITION_LIMIT,
    ensures
        match always_spec(depth as nat, machine.states@, ctx_of(*machine, *event, tid@, now), current@, run_of(*old(run))) {
            Ok((c, r)) => res matches Ok(x) && x@ == c && run_of(*final(run)) == r,
            Err(e) => res matches Err(x) && error_view(x) == e,
        },
    decreases TRANSITION_LIMIT - depth,
{
    if depth >= TRANSITION_LIMIT {
        return Err(InterpreterError::AlwaysTransitionLimitExceeded);
    }
    let chain = match state_chain(&machine.states, current.as_str()) {
        None => {
            return Err(InterpreterError::UnknownCurrentState(current));
        },
        Some(c) => c,
    };
    let unbound: Option<String> = None;
    let env = env_for(machine, event, tid, now, &unbound, run);
    let a = match select_always(&chain, &env) {
        Err(x) => {
            return Err(x);
        },
        Ok(None) => {
            return Ok(current);
        },
        Ok(Some(a)) => a,
    };
    run.transition = None;
    let prefix = indexed("always", depth);
    match run_steps(&a.steps, machine, event, tid, now, &unbound, &prefix, 0, run) {
        Err(x) => {
            return Err(x);
        },
        Ok(_) => {},
    }
    let target = match copy_opt(&run.transition) {
        Some(t) => t,
        None => a.transition.clone(),
    };
    run.transition = None;
    let settled = match run_transition(target, 0, machine, event, tid, now, &unbound, run) {
        Err(x) => {
            return Err(x);
        },
        Ok(c) => c,
    };
    run_always(depth + 1, machine, event, tid, now, settled, run)
}


/// Processes one event in `state`. `payload_mismatch` is why the event's
/// payload does not fit its declared shape, where it does not. On success
/// the state moves on as [`process_spec`] says; on any error it is left as
/// it was.
pub fn process_event(
    machine: &Machine,
    state: &mut InterpreterState,
    event: &WorkflowEvent,
    payload_mismatch: Option<String>,
    transition_id: String,
    now: u64,
) -> (r: Result<EventProcessingOutcome, InterpreterError>)
    ensures
        match process_spec(*machine, state_view(*old(state)), *event, opt_seq(payload_mismatch), transition_id@, now) {
            Ok((o, s)) => r matches Ok(x) && outcome_view(x) == o && state_view(*final(state)) == s,
            Err(e) => r matches Err(x) && error_view(x) == e && *final(state) == *old(state),
        },
{
    if let Some(reason) = payload_mismatch {
        return Err(InterpreterError::InvalidEventPayload { event_type: event.event_type.clone(), reason });
    }
    let from = state.current_state.clone();
    let chain = match state_chain(&machine.states, from.as_str()) {
        None => {
            return Err(InterpreterError::UnknownCurrentState(from));
        },
        Some(c) => c,
    };
    let handler = match select_handler(&chain, event.event_type.as_str(), &event.payload, &state.data, now) {
        Err(x) => {
            return Err(x);
        },
        Ok(None) => {
            let o = unhandled_outcome(from.as_str(), event.event_type.as_str(), transition_id);
            assert(o.effects@.map_values(|q: EffectRequest| request_view(q)) =~= Seq::<EffectRequestView>::empty());
            return Ok(o);
        },
        Ok(Some(h)) => h,
    };
    let mut run = Runner { data: copy_members(&state.data), locals: Vec::new(), effects: Vec::new(), transition: None };
    assert(run_of(run).locals =~= Seq::<(Seq<char>, JsonValue)>::empty());
    assert(run_of(run).effects =~= Seq::<EffectRequestView>::empty());
    let binding = copy_opt(&handler.binding);
    let tid: &str = transition_id.as_str();
    let prefix = "handler".to_owned();
    match run_steps(&handler.steps, machine, event, tid, now, &binding, &prefix, 0, &mut run) {
        Err(x) => {
            return Err(x);
        },
        Ok(_) => {},
    }
    let target = match copy_opt(&run.transition) {
        Some(t) => Some(t),
        None => copy_opt(&handler.transition),
    };
    let moved = match target {
        None => from.clone(),
        Some(t) => {
            run.transition = None;
            match run_transition(t, 0, machine, event, tid, now, &binding, &mut run) {
                Err(x) => {
                    return Err(x);
                },
                Ok(c) => c,
            }
        },
    };
    let settled = match run_always(0, machine, event, tid, now, moved, &mut run) {
        Err(x) => {
            return Err(x);
        },
        Ok(c) => c,
    };
    let env = EvalEnv { locals: Vec::new(), event_binding: None, payload: event.payload.deep_clone(), data: copy_members(&run.data), now };
    assert(members_of(env.locals@) =~= Seq::<(Seq<char>, JsonValue)>::empty());
    match check_expression_invariants(&machine.invariants, &env) {
        Err(x) => {
            return Err(x);
        },
        Ok(_) => {},
    }
    let arrow = concat(concat(concat(from.as_str(), " --").as_str(), event.event_type.as_str()).as_str(), "--> ");
    let last = concat(arrow.as_str(), settled.as_str());
    state.current_state = settled.clone();
    state.data = run.data;
    state.last_transition = Some(last);
    Ok(
        EventProcessingOutcome {
            status: EventProcessingStatus::Processed,
            transition_id,
            from_state: from,
            to_state: settled,
            effects: run.effects,
            reason: None,
        },
    )
}


/// An event that no handler of the current state chain takes is ignored:
/// the interpreter's state is unchanged and the outcome stays where it was.
pub proof fn law_unhandled_event_changes_nothing(
    machine: Machine,
    state: StateView,
    event: WorkflowEvent,
    transition_id: Seq<char>,
    now: u64,
)
    requires
        chain_in(machine.states@, state.current) matches Some(chain) && chain_handler(
            chain,
            event.event_type@,
            event.payload.value(),
            state.data,
            now,
        ) == Ok::<Option<Handler>, EvalError>(None),
    ensures
        process_spec(machine, state, event, None, transition_id, now) matches Ok((o, s)) && s == state && o.status
            == EventProcessingStatus::Ignored && o.from_state == state.current && o.to_state == state.current
            && o.effects.len() == 0,
{
}

/// A payload that does not fit its event's declared shape is refused
/// before anything runs, whatever state the interpreter is in.
pub proof fn law_mismatched_payload_is_refused(
    machine: Machine,
    state: StateView,
    event: WorkflowEvent,
    reason: Seq<char>,
    transition_id: Seq<char>,
    now: u64,
)
    ensures
        process_spec(machine, state, event, Some(reason), transition_id, now) == Err::<(OutcomeView, StateView), EvalError>(
            EvalError::InvalidEventPayload(event.event_type@, reason),
        ),
{
}


/// Whatever state a processed event leaves, its workflow data meets every
/// expression invariant of the workflow: data that breaks one is never
/// committed.
pub proof fn law_committed_data_meets_invariants(
    machine: Machine,
    state: StateView,
    event: WorkflowEvent,
    payload_mismatch: Option<Seq<char>>,
    transition_id: Seq<char>,
    now: u64,
)
    requires
        process_spec(machine, state, event, payload_mismatch, transition_id, now) matches Ok((o, s)) && o.status
            == EventProcessingStatus::Processed,
    ensures
        process_spec(machine, state, event, payload_mismatch, transition_id, now) matches Ok((o, s)) && invariants_spec(
            machine.invariants@,
            EnvView { locals: Seq::empty(), binding: None, payload: event.payload.value(), data: s.data, now },
        ) is Ok,
{
}


/// The value an initializer expression stands for without evaluating
/// anything: literals, and lists and objects of such; no other expression
/// has one.
pub open spec fn static_value(e: Expr) -> Option<JsonValue>
    decreases e,
{
    match e {
        Expr::Literal(j) => Some(j.value()),
        Expr::List(items) => match static_all(items@) {
            Some(vs) => Some(JsonValue::Array(vs)),
            None => None,
        },
        Expr::Object(fs) => match static_fields(fs@, Seq::empty()) {
            Some(ms) => Some(JsonValue::Object(ms)),
            None => None,
        },
        _ => None,
    }
}

/// The static values of a list of expressions, where all have one.
pub open spec fn static_all(es: Seq<Expr>) -> Option<Seq<JsonValue>>
    decreases es,
{
    if es.len() == 0 {
        Some(Seq::empty())
    } else {
        proof {
            broadcast use vstd::seq::axiom_seq_index_decreases, vstd::seq::axiom_seq_subrange_decreases;
            assert(es.drop_first() == es.subrange(1, es.len() as int));
            assert(decreases_to!(es => es.subrange(1, es.len() as int)));
        }
        match static_value(es[0]) {
            None => None,
            Some(v) => match static_all(es.drop_first()) {
                None => None,
                Some(vs) => Some(seq![v] + vs),
            },
        }
    }
}

/// The members of an object of static fields, set in turn onto `acc` as a
/// map sets keys, where all fields have a static value.
pub open spec fn static_fields(fs: Seq<(String, Expr)>, acc: Seq<(Seq<char>, JsonValue)>) -> Option<Seq<(Seq<char>, JsonValue)>>
    decreases fs,
{
    if fs.len() == 0 {
        Some(acc)
    } else {
        proof {
            broadcast use vstd::seq::axiom_seq_index_decreases, vstd::seq::axiom_seq_subrange_decreases;
            assert(decreases_to!(fs => fs[0]));
            assert(decreases_to!(fs[0] => fs[0].1));
            assert(fs.drop_first() == fs.subrange(1, fs.len() as int));
            assert(decreases_to!(fs => fs.subrange(1, fs.len() as int)));
        }
        match static_value(fs[0].1) {
            None => None,
            Some(v) => static_fields(fs.drop_first(), map_insert(acc, fs[0].0@, v)),
        }
    }
}

/// The workflow data a new interpreter starts with: each initializer with
/// a static value set in turn onto `acc`, the others left out.
pub open spec fn initial_context(inits: Seq<(String, Expr)>, acc: Seq<(Seq<char>, JsonValue)>) -> Seq<(Seq<char>, JsonValue)>
    decreases inits.len(),
{
    if inits.len() == 0 {
        acc
    } else {
        match static_value(inits[0].1) {
            Some(v) => initial_context(inits.drop_first(), map_insert(acc, inits[0].0@, v)),
            None => initial_context(inits.drop_first(), acc),
        }
    }
}

/// The static value of an initializer expression.
pub fn static_initializer_value(e: &Expr) -> (r: Option<Json>)
    ensures
        match r {
            Some(j) => static_value(*e) == Some(j.value()),
            None => static_value(*e) is None,
        },
    decreases e, 0nat,
{
    match e {
        Expr::Literal(j) => Some(j.deep_clone()),
        Expr::List(items) => {
            proof {
                assert(decreases_to!(*e => *items));
            }
            assert(items@.skip(0) =~= items@);
            match static_items(items, 0) {
                Some(vs) => {
                    proof {
                        crate::expr::lemma_array_items(vs);
                    }
                    Some(Json::Array(vs))
                },
                None => None,
            }
        },
        Expr::Object(fields) => {
            proof {
                assert(decreases_to!(*e => *fields));
            }
            let empty: Vec<(String, Json)> = Vec::new();
            assert(members_of(empty@) =~= Seq::<(Seq<char>, JsonValue)>::empty());
            assert(fields@.skip(0) =~= fields@);
            match static_members(fields, 0, empty) {
                Some(ms) => {
                    proof {
                        crate::engine::lemma_object_members(ms);
                    }
                    Some(Json::Object(ms))
                },
                None => None,
            }
        },
        _ => None,
    }
}

/// The static values of `items[at..]`.
fn static_items(items: &Vec<Expr>, at: usize) -> (r: Option<Vec<Json>>)
    requires
        at <= items.len(),
    ensures
        match r {
            Some(vs) => static_all(items@.skip(at as int)) == Some(crate::builtins::values_of(vs@)),
            None => static_all(items@.skip(at as int)) is None,
        },
    decreases items, items.len() - at,
{
    if at == items.len() {
        assert(items@.skip(at as int) =~= Seq::<Expr>::empty());
        let none: Vec<Json> = Vec::new();
        assert(crate::builtins::values_of(none@) =~= Seq::<JsonValue>::empty());
        return Some(none);
    }
    assert(items@.skip(at as int)[0] == items@[at as int]);
    assert(items@.skip(at as int).drop_first() =~= items@.skip(at + 1));
    proof {
        broadcast use vstd::std_specs::vec::axiom_vec_index_decreases;
        assert(decreases_to!(*items => items[at as int]));
    }
    let v = match static_initializer_value(&items[at]) {
        Some(v) => v,
        None => {
            return None;
        },
    };
    let rest = match static_items(items, at + 1) {
        Some(r) => r,
        None => {
            return None;
        },
    };
    let mut out: Vec<Json> = Vec::new();
    out.push(v);
    let mut k: usize = 0;
    while k < rest.len()
        invariant
            k <= rest@.len(),
            crate::builtins::values_of(out@) == seq![v.value()] + crate::builtins::values_of(rest@).subrange(0, k as int),
        decreases rest.len() - k,
    {
        let ghost before = out@;
        let item = rest[k].deep_clone();
        out.push(item);
        assert(crate::builtins::values_of(out@) =~= crate::builtins::values_of(before).push(rest@[k as int].value()));
        assert(crate::builtins::values_of(rest@).subrange(0, k + 1) =~= crate::builtins::values_of(rest@).subrange(0, k as int).push(
            rest@[k as int].value(),
        ));
        k += 1;
    }
    assert(crate::builtins::values_of(rest@).subrange(0, rest@.len() as int) =~= crate::builtins::values_of(rest@));
    Some(out)
}

/// The members of `fields[at..]`, set onto `acc`.
fn static_members(fields: &Vec<(String, Expr)>, at: usize, acc: Vec<(String, Json)>) -> (r: Option<Vec<(String, Json)>>)
    requires
        at <= fields.len(),
    ensures
        match r {
            Some(ms) => static_fields(fields@.skip(at as int), members_of(acc@)) == Some(members_of(ms@)),
            None => static_fields(fields@.skip(at as int), members_of(acc@)) is None,
        },
    decreases fields, fields.len() - at,
{
    if at == fields.len() {
        assert(fields@.skip(at as int) =~= Seq::<(String, Expr)>::empty());
        return Some(acc);
    }
    assert(fields@.skip(at as int)[0] == fields@[at as int]);
    assert(fields@.skip(at as int).drop_first() =~= fields@.skip(at + 1));
    proof {
        broadcast use vstd::std_specs::vec::axiom_vec_index_decreases;
        assert(decreases_to!(*fields => fields[at as int]));
        assert(decreases_to!(fields[at as int] => fields[at as int].1));
    }
    let v = match static_initializer_value(&fields[at].1) {
        Some(v) => v,
        None => {
            return None;
        },
    };
    let next = crate::builtins::map_insert_json(&acc, fields[at].0.as_str(), &v);
    static_members(fields, at + 1, next)
}

/// The workflow data a new interpreter starts with.
pub fn initial_context_from_initializers(inits: &Vec<(String, Expr)>) -> (r: Vec<(String, Json)>)
    ensures
        members_of(r@) == initial_context(inits@, Seq::empty()),
{
    let mut acc: Vec<(String, Json)> = Vec::new();
    let mut i: usize = 0;
    assert(members_of(acc@) =~= Seq::<(Seq<char>, JsonValue)>::empty());
    assert(inits@.skip(0) =~= inits@);
    while i < inits.len()
        invariant
            i <= inits@.len(),
            initial_context(inits@, Seq::empty()) == initial_context(inits@.skip(i as int), members_of(acc@)),
        decreases inits.len() - i,
    {
        assert(inits@.skip(i as int)[0] == inits@[i as int]);
        assert(inits@.skip(i as int).drop_first() =~= inits@.skip(i + 1));
        match static_initializer_value(&inits[i].1) {
            Some(v) => {
                acc = crate::builtins::map_insert_json(&acc, inits[i].0.as_str(), &v);
            },
            None => {},
        }
        i += 1;
    }
    assert(inits@.skip(i as int) =~= Seq::<(String, Expr)>::empty());
    acc
}

/// A workflow interpreter: the workflow it runs and where it stands.
pub struct Interpreter {
    pub machine: Machine,
    pub state: InterpreterState,
}

impl Interpreter {
    /// A new interpreter, in the leaf its initial state settles in, with the
    /// data its initializers give and no transition taken.
    pub fn new(machine: Machine) -> (r: Interpreter)
        ensures
            r.machine == machine,
            r.state.current_state@ == match find_in(machine.states@, machine.initial@) {
                Some(s) => leaf_of(machine.initial@, s),
                None => machine.initial@,
            },
            members_of(r.state.data@) == initial_context(machine.initializers@, Seq::empty()),
            r.state.last_transition is None,
    {
        let current_state = crate::statechart::initial_state_name(&machine.states, machine.initial.as_str());
        let data = initial_context_from_initializers(&machine.initializers);
        Interpreter { machine, state: InterpreterState { current_state, data, last_transition: None } }
    }

    /// Processes one event (see [`process_event`]); the workflow is left as
    /// it is.
    pub fn process_event(
        &mut self,
        event: &WorkflowEvent,
        payload_mismatch: Option<String>,
        transition_id: String,
        now: u64,
    ) -> (r: Result<EventProcessingOutcome, InterpreterError>)
        ensures
            final(self).machine == old(self).machine,
            match process_spec(old(self).machine, state_view(old(self).state), *event, opt_seq(payload_mismatch), transition_id@, now) {
                Ok((o, s)) => r matches Ok(x) && outcome_view(x) == o && state_view(final(self).state) == s,
                Err(e) => r matches Err(x) && error_view(x) == e && final(self).state == old(self).state,
            },
    {
        process_event(&self.machine, &mut self.state, event, payload_mismatch, transition_id, now)
    }
}

} // verus!
