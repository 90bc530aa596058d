//! Hierarchical workflow states: finding a state by name among nested
//! states, the chain of states from the top down to it, the leaf a target
//! settles in by following initial children, and the entry steps run on
//! the way there.
use vstd::prelude::*;
use crate::json::{Json, JsonValue};
use crate::expr::{eval_expr, eval_spec, error_view, EnvView, EvalEnv, EvalError, Expr};
use crate::builtins::members_of;
use crate::errors::InterpreterError;
use crate::text::str_eq;

verus! {

/// One state of a workflow's statechart: its name, the initial child it
/// enters (if it has children), the steps it runs on entry, its handlers
/// and always transitions, and its children. A chart lists children in name order, and the
/// searches below visit them in the order they are listed.
pub struct StateNode {
    pub name: String,
    pub initial: Option<String>,
    pub entry: Vec<Step>,
    /// The state's event handlers, in declaration order.
    pub on: Vec<Handler>,
    /// The state's `always` transitions, in declaration order.
    pub always: Vec<Always>,
    pub states: Vec<StateNode>,
}

/// An argument of an effect step: a literal value, an expression, or a
/// list of expressions (a capability call's arguments).
pub enum EffectArg {
    Literal(Json),
    Eval(Expr),
    EvalList(Vec<Expr>),
}

/// One arm of a `case` step: its pattern, its steps, and the state it
/// moves to when its steps name none.
pub struct CaseArm {
    pub pattern: crate::cases::CasePattern,
    pub steps: Vec<Step>,
    pub transition: Option<String>,
}

/// One step of a handler, an entry block, an always transition or a case
/// arm.
pub enum Step {
    /// `assign <target> = <value>` on workflow data.
    Assign { target: String, value: Expr },
    /// `let <name> = <value>` among the step locals.
    Let { name: String, value: Expr },
    /// An effect (`send`, `start`, `askHuman`, `raise`, `capability_call`)
    /// with its arguments in key order.
    Effect { effect: String, args: Vec<(String, EffectArg)> },
    /// `case <subject>` with its arms.
    Case { subject: Expr, arms: Vec<CaseArm> },
    /// `goto <target>`.
    Goto { target: Option<String> },
    /// A step that does nothing at run time.
    Noop,
}

/// An `always` transition: its guard, its steps and the state it moves to
/// when its steps name none.
pub struct Always {
    pub guard: Option<Expr>,
    pub steps: Vec<Step>,
    pub transition: String,
}

/// One `on` handler of a state: the event type it handles, the name its
/// event is bound to, its guard, the state it moves to, and its steps.
pub struct Handler {
    pub event: String,
    pub binding: Option<String>,
    pub guard: Option<Expr>,
    pub transition: Option<String>,
    pub steps: Vec<Step>,
}

/// The first state named `target` among `states` and their descendants,
/// searching each state before its children and the children before the
/// next state.
pub open spec fn find_in(states: Seq<StateNode>, target: Seq<char>) -> Option<StateNode>
    decreases states,
{
    if states.len() == 0 {
        None
    } else {
        proof {
            broadcast use vstd::seq::axiom_seq_index_decreases, vstd::std_specs::vec::axiom_vec_decreases_to_view,
                vstd::seq::axiom_seq_subrange_decreases;
            assert(decreases_to!(states => states[0]));
            assert(decreases_to!(states[0] => states[0].states));
            assert(decreases_to!(states[0].states => states[0].states@));
            assert(states.drop_first() == states.subrange(1, states.len() as int));
            assert(decreases_to!(states => states.subrange(1, states.len() as int)));
        }
        if states[0].name@ == target {
            Some(states[0])
        } else {
            match find_in(states[0].states@, target) {
                Some(found) => Some(found),
                None => find_in(states.drop_first(), target),
            }
        }
    }
}

/// The states from the top down to the first state named `target`, found
/// in the same order as [`find_in`].
pub open spec fn chain_in(states: Seq<StateNode>, target: Seq<char>) -> Option<Seq<StateNode>>
    decreases states,
{
    if states.len() == 0 {
        None
    } else {
        proof {
            broadcast use vstd::seq::axiom_seq_index_decreases, vstd::std_specs::vec::axiom_vec_decreases_to_view,
                vstd::seq::axiom_seq_subrange_decreases;
            assert(decreases_to!(states => states[0]));
            assert(decreases_to!(states[0] => states[0].states));
            assert(decreases_to!(states[0].states => states[0].states@));
            assert(states.drop_first() == states.subrange(1, states.len() as int));
            assert(decreases_to!(states => states.subrange(1, states.len() as int)));
        }
        if states[0].name@ == target {
            Some(seq![states[0]])
        } else {
            match chain_in(states[0].states@, target) {
                Some(chain) => Some(seq![states[0]] + chain),
                None => chain_in(states.drop_first(), target),
            }
        }
    }
}

/// The index of the first child named `name`.
pub open spec fn child_index(states: Seq<StateNode>, name: Seq<char>) -> Option<int>
    decreases states.len(),
{
    if states.len() == 0 {
        None
    } else if states.last().name@ == name {
        match child_index(states.drop_last(), name) {
            Some(k) => Some(k),
            None => Some(states.len() - 1),
        }
    } else {
        child_index(states.drop_last(), name)
    }
}

proof fn lemma_child_index(states: Seq<StateNode>, name: Seq<char>)
    ensures
        child_index(states, name) matches Some(k) ==> 0 <= k < states.len() && states[k].name@ == name,
    decreases states.len(),
{
    if states.len() > 0 {
        lemma_child_index(states.drop_last(), name);
    }
}

/// The state a target settles in: from the state `name`, follow each
/// state's initial child for as long as it has one that exists.
pub open spec fn leaf_of(name: Seq<char>, node: StateNode) -> Seq<char>
    decreases node,
{
    match node.initial {
        None => name,
        Some(init) => match child_index(node.states@, init@) {
            Some(k) => if 0 <= k < node.states@.len() {
                proof {
                    broadcast use vstd::std_specs::vec::axiom_vec_decreases_to_view, vstd::seq::axiom_seq_index_decreases;
                    assert(decreases_to!(node => node.states));
                    assert(decreases_to!(node.states => node.states@));
                    assert(decreases_to!(node.states@ => node.states@[k]));
                }
                leaf_of(node.states@[k].name@, node.states@[k])
            } else {
                name
            },
            None => name,
        },
    }
}

/// The first state named `target` among `states` and their descendants.
pub fn find_state<'a>(states: &'a Vec<StateNode>, target: &str) -> (r: Option<&'a StateNode>)
    ensures
        match r {
            Some(s) => find_in(states@, target@) == Some(*s),
            None => find_in(states@, target@) is None,
        },
    decreases states,
{
    let mut i: usize = 0;
    assert(states@.subrange(0, states@.len() as int) =~= states@);
    while i < states.len()
        invariant
            i <= states@.len(),
            find_in(states@, target@) == find_in(states@.subrange(i as int, states@.len() as int), target@),
        decreases states.len() - i,
    {
        let ghost rest = states@.subrange(i as int, states@.len() as int);
        assert(rest.drop_first() =~= states@.subrange(i + 1, states@.len() as int));
        assert(rest[0] == states@[i as int]);
        if str_eq(states[i].name.as_str(), target) {
            return Some(&states[i]);
        }
        proof {
            broadcast use vstd::std_specs::vec::axiom_vec_index_decreases;
            assert(decreases_to!(states => states[i as int]));
            assert(decreases_to!(states[i as int] => states[i as int].states));
        }
        match find_state(&states[i].states, target) {
            Some(found) => {
                return Some(found);
            },
            None => {},
        }
        i += 1;
    }
    None
}

/// The state a target settles in, from the state named `name`.
pub fn descend_initial(name: &str, state: &StateNode) -> (r: String)
    ensures
        r@ == leaf_of(name@, *state),
    decreases state,
{
    let initial = match &state.initial {
        None => {
            return name.to_owned();
        },
        Some(init) => init,
    };
    let mut i: usize = 0;
    let mut found: Option<usize> = None;
    while i < state.states.len()
        invariant
            i <= state.states@.len(),
            *state == *state,
            child_index(state.states@.subrange(0, i as int), initial@) == match found {
                Some(k) => Some(k as int),
                None => None::<int>,
            },
        decreases state.states.len() - i,
    {
        let ghost pre = state.states@.subrange(0, i + 1);
        assert(pre.drop_last() =~= state.states@.subrange(0, i as int));
        assert(pre.last() == state.states@[i as int]);
        if found.is_none() && str_eq(state.states[i].name.as_str(), initial.as_str()) {
            found = Some(i);
        }
        i += 1;
    }
    assert(state.states@.subrange(0, state.states@.len() as int) =~= state.states@);
    proof {
        lemma_child_index(state.states@, initial@);
    }
    match found {
        Some(k) => {
            proof {
                broadcast use vstd::std_specs::vec::axiom_vec_index_decreases;
                assert(decreases_to!(state => state.states));
                assert(decreases_to!(state.states => state.states[k as int]));
            }
            descend_initial(state.states[k].name.as_str(), &state.states[k])
        },
        None => name.to_owned(),
    }
}

/// The leaf state a transition to `target` settles in, where `target` is a
/// state of the chart.
pub fn target_leaf_state(states: &Vec<StateNode>, target: &str) -> (r: Option<String>)
    ensures
        match find_in(states@, target@) {
            Some(s) => r matches Some(l) && l@ == leaf_of(target@, s),
            None => r is None,
        },
{
    match find_state(states, target) {
        Some(state) => Some(descend_initial(target, state)),
        None => None,
    }
}

/// The states a list of references refers to.
pub open spec fn nodes_of(c: Seq<&StateNode>) -> Seq<StateNode> {
    c.map_values(|s: &StateNode| *s)
}

/// The states from the top down to the first state named `target`.
pub fn state_chain<'a>(states: &'a Vec<StateNode>, target: &str) -> (r: Option<Vec<&'a StateNode>>)
    ensures
        match r {
            Some(c) => chain_in(states@, target@) == Some(nodes_of(c@)),
            None => chain_in(states@, target@) is None,
        },
    decreases states,
{
    let mut i: usize = 0;
    assert(states@.subrange(0, states@.len() as int) =~= states@);
    while i < states.len()
        invariant
            i <= states@.len(),
            chain_in(states@, target@) == chain_in(states@.subrange(i as int, states@.len() as int), target@),
        decreases states.len() - i,
    {
        let ghost rest = states@.subrange(i as int, states@.len() as int);
        assert(rest.drop_first() =~= states@.subrange(i + 1, states@.len() as int));
        assert(rest[0] == states@[i as int]);
        if str_eq(states[i].name.as_str(), target) {
            let mut c: Vec<&'a StateNode> = Vec::new();
            c.push(&states[i]);
            assert(nodes_of(c@) =~= seq![states@[i as int]]);
            return Some(c);
        }
        proof {
            broadcast use vstd::std_specs::vec::axiom_vec_index_decreases;
            assert(decreases_to!(states => states[i as int]));
            assert(decreases_to!(states[i as int] => states[i as int].states));
        }
        match state_chain(&states[i].states, target) {
            Some(below) => {
                let mut c: Vec<&'a StateNode> = Vec::new();
                c.push(&states[i]);
                let mut k: usize = 0;
                while k < below.len()
                    invariant
                        k <= below@.len(),
                        nodes_of(c@) =~= seq![states@[i as int]] + nodes_of(below@).subrange(0, k as int),
                    decreases below.len() - k,
                {
                    let ghost before = c@;
                    c.push(below[k]);
                    assert(nodes_of(c@) =~= nodes_of(before).push(*below@[k as int]));
                    assert(nodes_of(below@).subrange(0, k + 1) =~= nodes_of(below@).subrange(0, k as int).push(
                        *below@[k as int],
                    ));
                    k += 1;
                }
                assert(nodes_of(below@).subrange(0, below@.len() as int) =~= nodes_of(below@));
                return Some(c);
            },
            None => {},
        }
        i += 1;
    }
    None
}

/// The states a transition to `node` enters: the node, then its initial
/// child (where one of that name exists), and so on down.
pub open spec fn entry_nodes(node: StateNode) -> Seq<StateNode>
    decreases node,
{
    match node.initial {
        None => seq![node],
        Some(init) => match child_index(node.states@, init@) {
            Some(k) => if 0 <= k < node.states@.len() {
                proof {
                    broadcast use vstd::std_specs::vec::axiom_vec_decreases_to_view, vstd::seq::axiom_seq_index_decreases;
                    assert(decreases_to!(node => node.states));
                    assert(decreases_to!(node.states => node.states@));
                    assert(decreases_to!(node.states@ => node.states@[k]));
                }
                seq![node] + entry_nodes(node.states@[k])
            } else {
                seq![node]
            },
            None => seq![node],
        },
    }
}

/// The states a transition to `state` enters, from it down its initial
/// children.
pub fn entry_path<'a>(state: &'a StateNode) -> (r: Vec<&'a StateNode>)
    ensures
        nodes_of(r@) == entry_nodes(*state),
    decreases state,
{
    let mut r: Vec<&'a StateNode> = Vec::new();
    r.push(state);
    assert(nodes_of(r@) =~= seq![*state]);
    let initial = match &state.initial {
        None => {
            return r;
        },
        Some(init) => init,
    };
    let mut i: usize = 0;
    let mut found: Option<usize> = None;
    while i < state.states.len()
        invariant
            i <= state.states@.len(),
            child_index(state.states@.subrange(0, i as int), initial@) == match found {
                Some(k) => Some(k as int),
                None => None::<int>,
            },
        decreases state.states.len() - i,
    {
        let ghost pre = state.states@.subrange(0, i + 1);
        assert(pre.drop_last() =~= state.states@.subrange(0, i as int));
        assert(pre.last() == state.states@[i as int]);
        if found.is_none() && str_eq(state.states[i].name.as_str(), initial.as_str()) {
            found = Some(i);
        }
        i += 1;
    }
    assert(state.states@.subrange(0, state.states@.len() as int) =~= state.states@);
    proof {
        lemma_child_index(state.states@, initial@);
    }
    match found {
        Some(k) => {
            proof {
                broadcast use vstd::std_specs::vec::axiom_vec_index_decreases;
                assert(decreases_to!(state => state.states));
                assert(decreases_to!(state.states => state.states[k as int]));
            }
            let below = entry_path(&state.states[k]);
            let mut j: usize = 0;
            while j < below.len()
                invariant
                    j <= below@.len(),
                    nodes_of(r@) =~= seq![*state] + nodes_of(below@).subrange(0, j as int),
                decreases below.len() - j,
            {
                let ghost before = r@;
                r.push(below[j]);
                assert(nodes_of(r@) =~= nodes_of(before).push(*below@[j as int]));
                assert(nodes_of(below@).subrange(0, j + 1) =~= nodes_of(below@).subrange(0, j as int).push(*below@[j as int]));
                j += 1;
            }
            assert(nodes_of(below@).subrange(0, below@.len() as int) =~= nodes_of(below@));
            r
        },
        None => r,
    }
}

/// The state a workflow starts in, given its chart's states and initial
/// state: the leaf the initial state settles in, or the initial name
/// itself where no state has it.
pub fn initial_state_name(states: &Vec<StateNode>, initial: &str) -> (r: String)
    ensures
        r@ == match find_in(states@, initial@) {
            Some(s) => leaf_of(initial@, s),
            None => initial@,
        },
{
    match target_leaf_state(states, initial) {
        Some(leaf) => leaf,
        None => initial.to_owned(),
    }
}

/// Whether a handler's guard admits the event: no guard admits it; a
/// guard must evaluate, with no locals and the event under the handler's
/// binding, to a boolean.
#[verifier::opaque]
pub open spec fn guard_admits(h: Handler, payload: JsonValue, data: Seq<(Seq<char>, JsonValue)>, now: u64) -> Result<bool, EvalError> {
    match h.guard {
        None => Ok(true),
        Some(g) => match eval_spec(
            g,
            EnvView {
                locals: Seq::empty(),
                binding: match h.binding {
                    Some(b) => Some(b@),
                    None => None,
                },
                payload,
                data,
                now,
            },
        ) {
            Ok(JsonValue::Bool(b)) => Ok(b),
            Ok(_) => Err(EvalError::GuardNotBoolean),
            Err(e) => Err(e),
        },
    }
}

/// The first of `handlers` for `event_type` whose guard admits the event;
/// a guard that fails stops the search.
pub open spec fn first_handler(
    handlers: Seq<Handler>,
    event_type: Seq<char>,
    payload: JsonValue,
    data: Seq<(Seq<char>, JsonValue)>,
    now: u64,
) -> Result<Option<Handler>, EvalError>
    decreases handlers.len(),
{
    if handlers.len() == 0 {
        Ok(None)
    } else if handlers[0].event@ != event_type {
        first_handler(handlers.drop_first(), event_type, payload, data, now)
    } else {
        match guard_admits(handlers[0], payload, data, now) {
            Err(e) => Err(e),
            Ok(true) => Ok(Some(handlers[0])),
            Ok(false) => first_handler(handlers.drop_first(), event_type, payload, data, now),
        }
    }
}

/// The handler an event is taken by: the innermost state of the chain
/// first, the first admitting handler of a state.
pub open spec fn chain_handler(
    chain: Seq<StateNode>,
    event_type: Seq<char>,
    payload: JsonValue,
    data: Seq<(Seq<char>, JsonValue)>,
    now: u64,
) -> Result<Option<Handler>, EvalError>
    decreases chain.len(),
{
    if chain.len() == 0 {
        Ok(None)
    } else {
        match first_handler(chain.last().on@, event_type, payload, data, now) {
            Err(e) => Err(e),
            Ok(Some(h)) => Ok(Some(h)),
            Ok(None) => chain_handler(chain.drop_last(), event_type, payload, data, now),
        }
    }
}

/// A copy of a list of members.
pub(crate) fn copy_members(ms: &Vec<(String, Json)>) -> (r: Vec<(String, Json)>)
    ensures
        members_of(r@) == members_of(ms@),
{
    let mut r: Vec<(String, Json)> = Vec::new();
    let mut i: usize = 0;
    while i < ms.len()
        invariant
            i <= ms@.len(),
            members_of(r@) == members_of(ms@).subrange(0, i as int),
        decreases ms.len() - i,
    {
        let ghost before = r@;
        r.push((ms[i].0.clone(), ms[i].1.deep_clone()));
        assert(members_of(r@) =~= members_of(before).push((ms@[i as int].0@, ms@[i as int].1.value())));
        assert(members_of(ms@).subrange(0, i + 1) =~= members_of(ms@).subrange(0, i as int).push(
            (ms@[i as int].0@, ms@[i as int].1.value()),
        ));
        i += 1;
    }
    assert(members_of(ms@).subrange(0, ms@.len() as int) =~= members_of(ms@));
    r
}

/// Whether a handler's guard admits the event.
pub fn handler_admits(h: &Handler, payload: &Json, data: &Vec<(String, Json)>, now: u64) -> (r: Result<bool, InterpreterError>)
    ensures
        match r {
            Ok(b) => guard_admits(*h, payload.value(), members_of(data@), now) == Ok::<bool, EvalError>(b),
            Err(e) => guard_admits(*h, payload.value(), members_of(data@), now) == Err::<bool, EvalError>(error_view(e)),
        },
{
    proof {
        reveal(guard_admits);
    }
    match &h.guard {
        None => Ok(true),
        Some(g) => {
            let env = EvalEnv {
                locals: Vec::new(),
                event_binding: match &h.binding {
                    Some(b) => Some(b.clone()),
                    None => None,
                },
                payload: payload.deep_clone(),
                data: copy_members(data),
                now,
            };
            assert(members_of(env.locals@) =~= Seq::<(Seq<char>, JsonValue)>::empty());
            match eval_expr(g, &env) {
                Ok(Json::Bool(b)) => Ok(b),
                Ok(_) => Err(InterpreterError::GuardNotBoolean),
                Err(e) => Err(e),
            }
        },
    }
}

/// The first handler of `state` that takes the event.
fn state_handler<'a>(
    state: &'a StateNode,
    event_type: &str,
    payload: &Json,
    data: &Vec<(String, Json)>,
    now: u64,
) -> (r: Result<Option<&'a Handler>, InterpreterError>)
    ensures
        match r {
            Ok(Some(h)) => first_handler(state.on@, event_type@, payload.value(), members_of(data@), now)
                == Ok::<Option<Handler>, EvalError>(Some(*h)),
            Ok(None) => first_handler(state.on@, event_type@, payload.value(), members_of(data@), now)
                == Ok::<Option<Handler>, EvalError>(None),
            Err(e) => first_handler(state.on@, event_type@, payload.value(), members_of(data@), now)
                == Err::<Option<Handler>, EvalError>(error_view(e)),
        },
{
    let ghost pv = payload.value();
    let ghost dv = members_of(data@);
    let handlers = &state.on;
    let mut i: usize = 0;
    assert(handlers@.subrange(0, handlers@.len() as int) =~= handlers@);
    while i < handlers.len()
        invariant
            i <= handlers@.len(),
            handlers@ == state.on@,
            pv == payload.value(),
            dv == members_of(data@),
            first_handler(handlers@, event_type@, pv, dv, now) == first_handler(
                handlers@.subrange(i as int, handlers@.len() as int),
                event_type@,
                pv,
                dv,
                now,
            ),
        decreases handlers.len() - i,
    {
        let ghost rest = handlers@.subrange(i as int, handlers@.len() as int);
        assert(rest.drop_first() =~= handlers@.subrange(i + 1, handlers@.len() as int));
        assert(rest[0] == handlers@[i as int]);
        if str_eq(handlers[i].event.as_str(), event_type) {
            let verdict = handler_admits(&handlers[i], payload, data, now);
            assert(first_handler(rest, event_type@, pv, dv, now) == match guard_admits(rest[0], pv, dv, now) {
                Err(e) => Err(e),
                Ok(true) => Ok(Some(rest[0])),
                Ok(false) => first_handler(rest.drop_first(), event_type@, pv, dv, now),
            });
            match verdict {
                Err(e) => {
                    return Err(e);
                },
                Ok(true) => {
                    return Ok(Some(&handlers[i]));
                },
                Ok(false) => {},
            }
        }
        i += 1;
    }
    Ok(None)
}

/// The handler an event is taken by, searching the chain from its
/// innermost state out.
pub fn select_handler<'a>(
    chain: &Vec<&'a StateNode>,
    event_type: &str,
    payload: &Json,
    data: &Vec<(String, Json)>,
    now: u64,
) -> (r: Result<Option<&'a Handler>, InterpreterError>)
    ensures
        match r {
            Ok(Some(h)) => chain_handler(nodes_of(chain@), event_type@, payload.value(), members_of(data@), now)
                == Ok::<Option<Handler>, EvalError>(Some(*h)),
            Ok(None) => chain_handler(nodes_of(chain@), event_type@, payload.value(), members_of(data@), now)
                == Ok::<Option<Handler>, EvalError>(None),
            Err(e) => chain_handler(nodes_of(chain@), event_type@, payload.value(), members_of(data@), now)
                == Err::<Option<Handler>, EvalError>(error_view(e)),
        },
{
    let ghost pv = payload.value();
    let ghost dv = members_of(data@);
    let mut n: usize = chain.len();
    assert(nodes_of(chain@).subrange(0, n as int) =~= nodes_of(chain@));
    while n > 0
        invariant
            n <= chain@.len(),
            pv == payload.value(),
            dv == members_of(data@),
            chain_handler(nodes_of(chain@), event_type@, pv, dv, now) == chain_handler(
                nodes_of(chain@).subrange(0, n as int),
                event_type@,
                pv,
                dv,
                now,
            ),
        decreases n,
    {
        let ghost sub = nodes_of(chain@).subrange(0, n as int);
        assert(sub.drop_last() =~= nodes_of(chain@).subrange(0, n - 1));
        assert(sub.last() == *chain@[n - 1]);
        match state_handler(chain[n - 1], event_type, payload, data, now) {
            Err(e) => {
                return Err(e);
            },
            Ok(Some(h)) => {
                return Ok(Some(h));
            },
            Ok(None) => {},
        }
        n -= 1;
    }
    Ok(None)
}

/// What an event that no handler takes comes to: ignored, staying in the
/// current state, with no effects and the reason that no handler matched.
pub fn unhandled_outcome(current_state: &str, event_type: &str, transition_id: String) -> (r: crate::commit::EventProcessingOutcome)
    ensures
        r.status == crate::errors::EventProcessingStatus::Ignored,
        r.transition_id@ == transition_id@,
        r.from_state@ == current_state@,
        r.to_state@ == current_state@,
        r.effects@.len() == 0,
        r.reason matches Some(m) && m@ == "state `"@ + current_state@ + "` has no matching handler for event `"@
            + event_type@ + "`"@,
{
    let mut reason = "state `".to_owned();
    reason.append(current_state);
    reason.append("` has no matching handler for event `");
    reason.append(event_type);
    reason.append("`");
    crate::commit::EventProcessingOutcome {
        status: crate::errors::EventProcessingStatus::Ignored,
        transition_id,
        from_state: current_state.to_owned(),
        to_state: current_state.to_owned(),
        effects: Vec::new(),
        reason: Some(reason),
    }
}

} // verus!
