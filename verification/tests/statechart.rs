use whipplescript::json::Json;
use whipplescript::expr::Expr;
use whipplescript::errors::{EventProcessingStatus, InterpreterError};
use whipplescript::statechart::{
    entry_path, find_state, initial_state_name, select_handler, state_chain, target_leaf_state, unhandled_outcome,
    Handler, StateNode, Step,
};

fn state(name: &str, initial: Option<&str>, entry: Vec<&str>, states: Vec<StateNode>) -> StateNode {
    StateNode {
        name: name.to_owned(),
        initial: initial.map(str::to_owned),
        entry: entry.into_iter().map(|s| Step::Goto { target: Some(s.to_owned()) }).collect(),
        on: Vec::new(),
        always: Vec::new(),
        states,
    }
}

fn chart() -> Vec<StateNode> {
    vec![
        state("done", None, vec![], vec![]),
        state(
            "working",
            Some("fetch"),
            vec!["announce"],
            vec![
                state("fetch", Some("download"), vec!["start-fetch"], vec![state("download", None, vec![], vec![])]),
                state("review", Some("missing"), vec![], vec![]),
            ],
        ),
    ]
}

#[test]
fn nested_states_are_found_and_settle_in_their_initial_leaf() {
    let chart = chart();
    assert_eq!(find_state(&chart, "review").map(|s| s.name.as_str()), Some("review"));
    assert!(find_state(&chart, "absent").is_none());
    assert_eq!(target_leaf_state(&chart, "working"), Some("download".to_owned()));
    assert_eq!(target_leaf_state(&chart, "done"), Some("done".to_owned()));
    // An initial child that does not exist leaves the target where it is.
    assert_eq!(target_leaf_state(&chart, "review"), Some("review".to_owned()));
    assert_eq!(target_leaf_state(&chart, "absent"), None);
}

#[test]
fn state_chain_runs_from_the_top_down_to_the_target() {
    let chart = chart();
    let names: Vec<&str> =
        state_chain(&chart, "download").expect("known state").iter().map(|s| s.name.as_str()).collect();
    assert_eq!(names, vec!["working", "fetch", "download"]);
    assert!(state_chain(&chart, "absent").is_none());
}

#[test]
fn entering_a_target_runs_entry_steps_down_the_initial_children() {
    let chart = chart();
    let working = find_state(&chart, "working").expect("known state");
    let path: Vec<&str> = entry_path(working).iter().map(|s| s.name.as_str()).collect();
    assert_eq!(path, vec!["working", "fetch", "download"]);
    let with_entry: Vec<Vec<Option<&str>>> = entry_path(working)
        .iter()
        .filter(|s| !s.entry.is_empty())
        .map(|s| {
            s.entry
                .iter()
                .map(|step| match step {
                    Step::Goto { target } => target.as_deref(),
                    _ => None,
                })
                .collect()
        })
        .collect();
    assert_eq!(with_entry, vec![vec![Some("announce")], vec![Some("start-fetch")]]);
    let done = find_state(&chart, "done").expect("known state");
    assert_eq!(entry_path(done).len(), 1);
    // An initial child that does not exist ends the path at the state itself.
    let review = find_state(&chart, "review").expect("known state");
    assert_eq!(entry_path(review).len(), 1);
}

#[test]
fn a_workflow_starts_in_the_leaf_of_its_initial_state() {
    let chart = chart();
    assert_eq!(initial_state_name(&chart, "working"), "download");
    assert_eq!(initial_state_name(&chart, "unknown"), "unknown");
}

fn handler(event: &str, guard: Option<Expr>, to: &str) -> Handler {
    Handler {
        event: event.to_owned(),
        binding: Some("e".to_owned()),
        guard,
        transition: Some(to.to_owned()),
        steps: Vec::new(),
    }
}

#[test]
fn events_are_taken_by_the_innermost_admitting_handler() {
    let mut outer = state("working", Some("fetch"), vec![], vec![]);
    outer.on = vec![handler("go", None, "outer-target")];
    let mut inner = state("fetch", None, vec![], vec![]);
    let ready = Expr::Eq(Box::new(Expr::Path("e.ready".to_owned())), Box::new(Expr::Literal(Json::Bool(true))));
    inner.on = vec![handler("go", Some(ready), "inner-target"), handler("stop", None, "done")];
    let chain = vec![&outer, &inner];
    let ready_payload = Json::Object(vec![("ready".to_owned(), Json::Bool(true))]);
    let waiting_payload = Json::Object(vec![("ready".to_owned(), Json::Bool(false))]);
    let taken = select_handler(&chain, "go", &ready_payload, &vec![], 0).expect("guards evaluate").expect("handled");
    assert_eq!(taken.transition.as_deref(), Some("inner-target"));
    let taken = select_handler(&chain, "go", &waiting_payload, &vec![], 0).expect("guards evaluate").expect("handled");
    assert_eq!(taken.transition.as_deref(), Some("outer-target"));
    assert!(select_handler(&chain, "other", &ready_payload, &vec![], 0).expect("no guard runs").is_none());
    let mut broken = state("fetch", None, vec![], vec![]);
    broken.on = vec![handler("go", Some(Expr::Literal(Json::Number("3".to_owned()))), "x")];
    assert!(matches!(select_handler(&vec![&broken], "go", &ready_payload, &vec![], 0), Err(InterpreterError::GuardNotBoolean)));
}

#[test]
fn unhandled_events_are_ignored_with_a_reason() {
    let outcome = unhandled_outcome("waiting", "noise", "tr-1".to_owned());
    assert_eq!(outcome.status, EventProcessingStatus::Ignored);
    assert_eq!(outcome.to_state, "waiting");
    assert_eq!(outcome.reason.as_deref(), Some("state `waiting` has no matching handler for event `noise`"));
}
