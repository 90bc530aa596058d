//! What the status view makes of a workflow's log and events: the latest
//! transition, the latest record of each recent effect, recent failures,
//! policy blockers and what currently blocks the workflow.
use vstd::prelude::*;
use crate::coerce::{baml_runtime_summary, first_runtime, BamlRuntimeSummary, CoerceCallRecord, CoerceCallSummary, CoerceStatus};
use crate::durable::{copy_backend, opt_value};
use crate::status::{project_active_invocations, ActiveInvocation, QueuedEventSummary};
use crate::events::{EffectStatus, EventStatus, WorkflowEvent, WorkflowLogRecord};
use crate::json::{Json, JsonValue};
use crate::order::{copy_strings, views};
use crate::text::str_eq;

verus! {

/// The optional text of an optional string.
pub open spec fn opt_text(o: Option<String>) -> Option<Seq<char>> {
    match o {
        Some(s) => Some(s@),
        None => None,
    }
}

fn copy_opt(o: &Option<String>) -> (r: Option<String>)
    ensures
        opt_text(r) == opt_text(*o),
{
    match o {
        Some(s) => Some(s.clone()),
        None => None,
    }
}


/// How a transition record reads: `<from> --<label>--> <to>`, labelled by
/// its event type, else its event id, else `<internal>`.
pub open spec fn transition_text(r: WorkflowLogRecord) -> Option<Seq<char>> {
    match r {
        WorkflowLogRecord::Transition { from_state, to_state, event_type, event_id, .. } => Some(
            from_state@ + " --"@ + match opt_text(event_type) {
                Some(t) => t,
                None => match opt_text(event_id) {
                    Some(e) => e,
                    None => "<internal>"@,
                },
            } + "--> "@ + to_state@,
        ),
        _ => None,
    }
}

/// The latest transition among the first `n` records.
pub open spec fn latest_transition(records: Seq<WorkflowLogRecord>, n: int) -> Option<Seq<char>>
    decreases n,
{
    if n <= 0 {
        None
    } else {
        match transition_text(records[n - 1]) {
            Some(t) => Some(t),
            None => latest_transition(records, n - 1),
        }
    }
}

/// How the latest transition of the log reads, if there is one.
pub fn recent_transition(records: &Vec<WorkflowLogRecord>) -> (r: Option<String>)
    ensures
        opt_text(r) == latest_transition(records@, records@.len() as int),
{
    let mut i = records.len();
    while i > 0
        invariant
            i <= records.len(),
            latest_transition(records@, records@.len() as int) == latest_transition(records@, i as int),
        decreases i,
    {
        match &records[i - 1] {
            WorkflowLogRecord::Transition { from_state, to_state, event_type, event_id, .. } => {
                let mut s = from_state.clone();
                s.append(" --");
                match event_type {
                    Some(t) => s.append(t.as_str()),
                    None => match event_id {
                        Some(e) => s.append(e.as_str()),
                        None => s.append("<internal>"),
                    },
                }
                s.append("--> ");
                s.append(to_state.as_str());
                return Some(s);
            },
            _ => {},
        }
        i -= 1;
    }
    None
}

/// One effect as the status view lists it.
#[derive(Debug)]
pub struct EffectSummary {
    pub effect_id: String,
    pub idempotency_key: Option<String>,
    pub effect: String,
    pub status: EffectStatus,
    pub target: Option<String>,
    pub args: Json,
    pub required_capabilities: Vec<String>,
    pub error: Option<String>,
}

/// An effect summary, as the contracts read it.
pub struct EffectSummaryView {
    pub effect_id: Seq<char>,
    pub idempotency_key: Option<Seq<char>>,
    pub effect: Seq<char>,
    pub status: EffectStatus,
    pub target: Option<Seq<char>>,
    pub args: JsonValue,
    pub required_capabilities: Seq<Seq<char>>,
    pub error: Option<Seq<char>>,
}

/// The view of an effect summary.
pub open spec fn summary_view(s: EffectSummary) -> EffectSummaryView {
    EffectSummaryView {
        effect_id: s.effect_id@,
        idempotency_key: opt_text(s.idempotency_key),
        effect: s.effect@,
        status: s.status,
        target: opt_text(s.target),
        args: s.args.value(),
        required_capabilities: views(s.required_capabilities@),
        error: opt_text(s.error),
    }
}

/// The summary of an effect record: the capabilities its outcome reports
/// where it reports any, else those the effect required; the outcome's
/// error.
pub open spec fn effect_summary_of(r: WorkflowLogRecord) -> Option<EffectSummaryView> {
    match r {
        WorkflowLogRecord::Effect { effect_id, idempotency_key, effect, status, target, args, required_capabilities, outcome, .. } => Some(
            EffectSummaryView {
                effect_id: effect_id@,
                idempotency_key: opt_text(idempotency_key),
                effect: effect@,
                status,
                target: opt_text(target),
                args: args.value(),
                required_capabilities: match outcome {
                    Some(o) => if o.required_capabilities@.len() > 0 {
                        views(o.required_capabilities@)
                    } else {
                        views(required_capabilities@)
                    },
                    None => views(required_capabilities@),
                },
                error: match outcome {
                    Some(o) => opt_text(o.error),
                    None => None,
                },
            },
        ),
        _ => None,
    }
}

/// The effect id of an effect record.
pub open spec fn effect_id_of(r: WorkflowLogRecord) -> Option<Seq<char>> {
    match r {
        WorkflowLogRecord::Effect { effect_id, .. } => Some(effect_id@),
        _ => None,
    }
}

/// Record `i` is the latest record of its effect.
pub open spec fn latest_of_effect(records: Seq<WorkflowLogRecord>, i: int) -> bool {
    effect_id_of(records[i]) is Some && forall|j: int|
        i < j < records.len() ==> #[trigger] effect_id_of(records[j]) != effect_id_of(records[i])
}

/// The summaries of the latest record of each effect among the first `n`
/// records, latest first.
pub open spec fn latest_effects(records: Seq<WorkflowLogRecord>, n: int) -> Seq<EffectSummaryView>
    decreases n,
{
    if n <= 0 {
        Seq::empty()
    } else {
        (if latest_of_effect(records, n - 1) {
            seq![effect_summary_of(records[n - 1])->0]
        } else {
            Seq::empty()
        }) + latest_effects(records, n - 1)
    }
}

/// At most the first ten.
pub open spec fn first_ten<T>(s: Seq<T>) -> Seq<T> {
    if s.len() <= 10 {
        s
    } else {
        s.subrange(0, 10)
    }
}

fn summary_of(r: &WorkflowLogRecord) -> (s: Option<EffectSummary>)
    ensures
        match s {
            Some(x) => effect_summary_of(*r) == Some(summary_view(x)),
            None => effect_summary_of(*r) is None,
        },
{
    match r {
        WorkflowLogRecord::Effect { effect_id, idempotency_key, effect, status, target, args, required_capabilities, outcome, .. } => {
            let caps = match outcome {
                Some(o) => if o.required_capabilities.len() > 0 {
                    copy_strings(&o.required_capabilities)
                } else {
                    copy_strings(required_capabilities)
                },
                None => copy_strings(required_capabilities),
            };
            let error = match outcome {
                Some(o) => copy_opt(&o.error),
                None => None,
            };
            Some(EffectSummary {
                effect_id: effect_id.clone(),
                idempotency_key: copy_opt(idempotency_key),
                effect: effect.clone(),
                status: *status,
                target: copy_opt(target),
                args: args.deep_clone(),
                required_capabilities: caps,
                error,
            })
        },
        _ => None,
    }
}

/// The summaries' views.
pub open spec fn summaries_view(v: Seq<EffectSummary>) -> Seq<EffectSummaryView> {
    v.map_values(|s: EffectSummary| summary_view(s))
}

/// The latest record of each effect in the log, latest first, at most ten.
pub fn recent_effects(records: &Vec<WorkflowLogRecord>) -> (r: Vec<EffectSummary>)
    ensures
        summaries_view(r@) == first_ten(latest_effects(records@, records@.len() as int)),
{
    let n = records.len();
    let mut seen: Vec<String> = Vec::new();
    let mut all: Vec<EffectSummary> = Vec::new();
    let mut i = n;
    while i > 0
        invariant
            i <= n,
            n == records.len(),
            forall|x: Seq<char>| views(seen@).contains(x) <==> exists|j: int|
                i <= j < n && #[trigger] effect_id_of(records@[j]) == Some(x),
            summaries_view(all@) + latest_effects(records@, i as int) == latest_effects(records@, n as int),
        decreases i,
    {
        let k = i - 1;
        let ghost before_all = all@;
        match summary_of(&records[k]) {
            Some(s) => {
                let id = s.effect_id.clone();
                let mut found = false;
                let mut t: usize = 0;
                while t < seen.len()
                    invariant
                        t <= seen.len(),
                        found == exists|u: int| 0 <= u < t && views(seen@)[u] == id@,
                    decreases seen.len() - t,
                {
                    assert(views(seen@)[t as int] == seen@[t as int]@);
                    if str_eq(seen[t].as_str(), id.as_str()) {
                        found = true;
                    }
                    t += 1;
                }
                proof {
                    assert(effect_id_of(records@[k as int]) == Some(id@));
                    if found {
                        assert(views(seen@).contains(id@));
                    } else {
                        assert(!views(seen@).contains(id@));
                    }
                    assert(latest_of_effect(records@, k as int) == !found);
                }
                if !found {
                    let ghost sv = summary_view(s);
                    all.push(s);
                    proof {
                        assert(summaries_view(all@) =~= summaries_view(before_all).push(sv));
                        assert(summaries_view(all@) + latest_effects(records@, k as int) =~= summaries_view(before_all)
                            + latest_effects(records@, i as int));
                    }
                } else {
                    proof {
                        assert(latest_effects(records@, i as int) == latest_effects(records@, k as int));
                    }
                }
                let ghost before_seen = views(seen@);
                seen.push(id);
                proof {
                    assert(views(seen@) =~= before_seen.push(effect_id_of(records@[k as int])->0));
                    assert forall|x: Seq<char>| views(seen@).contains(x) <==> exists|j: int|
                        k <= j < n && #[trigger] effect_id_of(records@[j]) == Some(x) by {
                        if views(seen@).contains(x) {
                            let p = choose|p: int| 0 <= p < views(seen@).len() && views(seen@)[p] == x;
                            if p < before_seen.len() {
                                assert(before_seen.contains(x));
                            } else {
                                assert(effect_id_of(records@[k as int]) == Some(x));
                            }
                        }
                        if exists|j: int| k <= j < n && #[trigger] effect_id_of(records@[j]) == Some(x) {
                            let j = choose|j: int| k <= j < n && #[trigger] effect_id_of(records@[j]) == Some(x);
                            if j == k {
                                assert(views(seen@)[before_seen.len() as int] == x);
                            } else {
                                assert(before_seen.contains(x));
                                let p = choose|p: int| 0 <= p < before_seen.len() && before_seen[p] == x;
                                assert(views(seen@)[p] == x);
                            }
                        }
                    }
                }
            },
            None => {
                proof {
                    assert(!latest_of_effect(records@, k as int));
                    assert(latest_effects(records@, i as int) == latest_effects(records@, k as int));
                    assert forall|x: Seq<char>| views(seen@).contains(x) <==> exists|j: int|
                        k <= j < n && #[trigger] effect_id_of(records@[j]) == Some(x) by {
                        if exists|j: int| k <= j < n && #[trigger] effect_id_of(records@[j]) == Some(x) {
                            let j = choose|j: int| k <= j < n && #[trigger] effect_id_of(records@[j]) == Some(x);
                            assert(j != k);
                        }
                    }
                }
            },
        }
        i = k;
    }
    assert(summaries_view(all@) =~= latest_effects(records@, n as int));
    if all.len() > 10 {
        all.truncate(10);
        assert(summaries_view(all@) =~= first_ten(latest_effects(records@, n as int)));
    }
    all
}

/// How a failure reads in the log: a failed effect as `<effect> failed`,
/// with `: <error>` where its outcome has one; a diagnostic as its
/// message.
pub open spec fn failure_text(r: WorkflowLogRecord) -> Option<Seq<char>> {
    match r {
        WorkflowLogRecord::Effect { effect, status, outcome, .. } => if status == EffectStatus::Failed {
            Some(
                effect@ + " failed"@ + match outcome {
                    Some(o) => match opt_text(o.error) {
                        Some(e) => ": "@ + e,
                        None => Seq::empty(),
                    },
                    None => Seq::empty(),
                },
            )
        } else {
            None
        },
        WorkflowLogRecord::Diagnostic { message } => Some(message@),
        _ => None,
    }
}

/// The failures among the first `n` records, latest first.
pub open spec fn failures(records: Seq<WorkflowLogRecord>, n: int) -> Seq<Seq<char>>
    decreases n,
{
    if n <= 0 {
        Seq::empty()
    } else {
        (match failure_text(records[n - 1]) {
            Some(t) => seq![t],
            None => Seq::empty(),
        }) + failures(records, n - 1)
    }
}

fn failure_of(r: &WorkflowLogRecord) -> (s: Option<String>)
    ensures
        opt_text(s) == failure_text(*r),
{
    proof {
        reveal_strlit("");
    }
    match r {
        WorkflowLogRecord::Effect { effect, status, outcome, .. } => {
            if *status != EffectStatus::Failed {
                return None;
            }
            let mut t = effect.clone();
            t.append(" failed");
            match outcome {
                Some(o) => match &o.error {
                    Some(e) => {
                        t.append(": ");
                        t.append(e.as_str());
                    },
                    None => {
                        assert(t@ =~= effect@ + " failed"@ + Seq::<char>::empty());
                    },
                },
                None => {
                    assert(t@ =~= effect@ + " failed"@ + Seq::<char>::empty());
                },
            }
            Some(t)
        },
        WorkflowLogRecord::Diagnostic { message } => Some(message.clone()),
        _ => None,
    }
}

/// The failures of the log, latest first, at most ten.
pub fn recent_failures(records: &Vec<WorkflowLogRecord>) -> (r: Vec<String>)
    ensures
        views(r@) == first_ten(failures(records@, records@.len() as int)),
{
    let n = records.len();
    let mut all: Vec<String> = Vec::new();
    let mut i = n;
    while i > 0
        invariant
            i <= n,
            n == records.len(),
            views(all@) + failures(records@, i as int) == failures(records@, n as int),
        decreases i,
    {
        let k = i - 1;
        let ghost before = views(all@);
        match failure_of(&records[k]) {
            Some(t) => {
                all.push(t);
                proof {
                    assert(views(all@) + failures(records@, k as int) =~= before + failures(records@, i as int));
                }
            },
            None => {
                assert(failures(records@, i as int) =~= failures(records@, k as int));
            },
        }
        i = k;
    }
    assert(views(all@) =~= failures(records@, n as int));
    if all.len() > 10 {
        all.truncate(10);
        assert(views(all@) =~= first_ten(failures(records@, n as int)));
    }
    all
}

/// How a failed effect in the recent effects reads.
pub open spec fn effect_failure_text(e: EffectSummaryView) -> Option<Seq<char>> {
    if e.status == EffectStatus::Failed {
        Some(
            match e.error {
                Some(err) => e.effect + " failed: "@ + err,
                None => e.effect + " failed"@,
            },
        )
    } else {
        None
    }
}

/// The failed effects among the summaries, in order.
pub open spec fn effect_failures(es: Seq<EffectSummaryView>) -> Seq<Seq<char>>
    decreases es.len(),
{
    if es.len() == 0 {
        Seq::empty()
    } else {
        effect_failures(es.drop_last()) + match effect_failure_text(es.last()) {
            Some(t) => seq![t],
            None => Seq::empty(),
        }
    }
}

/// The failures among the recent effects, in their order.
pub fn current_effect_failures(effects: &Vec<EffectSummary>) -> (r: Vec<String>)
    ensures
        views(r@) == effect_failures(summaries_view(effects@)),
{
    let ghost ev = summaries_view(effects@);
    let mut r: Vec<String> = Vec::new();
    let mut i: usize = 0;
    while i < effects.len()
        invariant
            i <= effects.len(),
            ev == summaries_view(effects@),
            views(r@) == effect_failures(ev.subrange(0, i as int)),
        decreases effects.len() - i,
    {
        proof {
            assert(ev.subrange(0, i + 1).drop_last() =~= ev.subrange(0, i as int));
            assert(ev.subrange(0, i + 1).last() == summary_view(effects@[i as int]));
        }
        let e = &effects[i];
        if e.status == EffectStatus::Failed {
            let mut t = e.effect.clone();
            match &e.error {
                Some(err) => {
                    t.append(" failed: ");
                    t.append(err.as_str());
                },
                None => {
                    t.append(" failed");
                },
            }
            let ghost before = views(r@);
            r.push(t);
            assert(views(r@) =~= before + seq![t@]);
        } else {
            assert(views(r@) =~= views(r@) + Seq::<Seq<char>>::empty());
        }
        i += 1;
    }
    assert(ev.subrange(0, effects.len() as int) =~= ev);
    r
}

/// `needle` occurs in `hay`.
pub open spec fn text_contains(hay: Seq<char>, needle: Seq<char>) -> bool {
    exists|q: int| #[trigger] crate::glob::occurs_at(hay, q, needle)
}

/// `parts` joined with `,`.
pub open spec fn comma_list(parts: Seq<Seq<char>>) -> Seq<char>
    decreases parts.len(),
{
    if parts.len() == 0 {
        Seq::empty()
    } else if parts.len() == 1 {
        parts[0]
    } else {
        comma_list(parts.drop_last()) + ","@ + parts.last()
    }
}

/// How a policy refusal reads: a failed effect whose outcome names
/// required capabilities and whose error mentions a capability or a
/// policy, as `<effect> requires <capabilities>: <error>`.
pub open spec fn blocker_text(r: WorkflowLogRecord) -> Option<Seq<char>> {
    match r {
        WorkflowLogRecord::Effect { effect, status, outcome, .. } => if status == EffectStatus::Failed {
            match outcome {
                Some(o) => match opt_text(o.error) {
                    Some(err) => if views(o.required_capabilities@).len() == 0 || !(text_contains(err, "capability"@)
                        || text_contains(err, "policy"@)) {
                        None
                    } else {
                        Some(effect@ + " requires "@ + comma_list(views(o.required_capabilities@)) + ": "@ + err)
                    },
                    None => None,
                },
                None => None,
            }
        } else {
            None
        },
        _ => None,
    }
}

/// The policy refusals among the first `n` records, latest first.
pub open spec fn blockers(records: Seq<WorkflowLogRecord>, n: int) -> Seq<Seq<char>>
    decreases n,
{
    if n <= 0 {
        Seq::empty()
    } else {
        (match blocker_text(records[n - 1]) {
            Some(t) => seq![t],
            None => Seq::empty(),
        }) + blockers(records, n - 1)
    }
}

fn text_has(hay: &str, needle: &str) -> (r: bool)
    ensures
        r == text_contains(hay@, needle@),
{
    let h = crate::text::chars_of(hay);
    let n = crate::text::chars_of(needle);
    match crate::glob::find_from(&h, 0, &n) {
        Some(q) => {
            assert(crate::glob::occurs_at(h@, q as int, n@));
            true
        },
        None => {
            proof {
                assert forall|q: int| !crate::glob::occurs_at(h@, q, n@) by {
                    if q < 0 {
                    }
                }
            }
            false
        },
    }
}

fn join_with_commas(parts: &Vec<String>) -> (r: String)
    ensures
        r@ == comma_list(views(parts@)),
{
    let mut r = String::new();
    proof {
        reveal_strlit("");
    }
    let mut i: usize = 0;
    while i < parts.len()
        invariant
            i <= parts.len(),
            r@ == comma_list(views(parts@).subrange(0, i as int)),
        decreases parts.len() - i,
    {
        proof {
            assert(views(parts@).subrange(0, i + 1).drop_last() =~= views(parts@).subrange(0, i as int));
            assert(views(parts@).subrange(0, i + 1).last() == parts@[i as int]@);
        }
        if i > 0 {
            r.append(",");
        } else {
            assert(r@ =~= Seq::<char>::empty());
        }
        r.append(parts[i].as_str());
        proof {
            if i == 0 {
                assert(r@ =~= views(parts@).subrange(0, 1)[0]);
            }
        }
        i += 1;
    }
    assert(views(parts@).subrange(0, parts.len() as int) =~= views(parts@));
    r
}

fn blocker_of(r: &WorkflowLogRecord) -> (s: Option<String>)
    ensures
        opt_text(s) == blocker_text(*r),
{
    match r {
        WorkflowLogRecord::Effect { effect, status, outcome, .. } => {
            if *status != EffectStatus::Failed {
                return None;
            }
            match outcome {
                Some(o) => match &o.error {
                    Some(err) => {
                        if o.required_capabilities.len() == 0 || !(text_has(err.as_str(), "capability") || text_has(
                            err.as_str(),
                            "policy",
                        )) {
                            return None;
                        }
                        let mut t = effect.clone();
                        t.append(" requires ");
                        let caps = join_with_commas(&o.required_capabilities);
                        t.append(caps.as_str());
                        t.append(": ");
                        t.append(err.as_str());
                        Some(t)
                    },
                    None => None,
                },
                None => None,
            }
        },
        _ => None,
    }
}

/// The policy refusals of the log, latest first, at most ten.
pub fn policy_blockers(records: &Vec<WorkflowLogRecord>) -> (r: Vec<String>)
    ensures
        views(r@) == first_ten(blockers(records@, records@.len() as int)),
{
    let n = records.len();
    let mut all: Vec<String> = Vec::new();
    let mut i = n;
    while i > 0
        invariant
            i <= n,
            n == records.len(),
            views(all@) + blockers(records@, i as int) == blockers(records@, n as int),
        decreases i,
    {
        let k = i - 1;
        let ghost before = views(all@);
        match blocker_of(&records[k]) {
            Some(t) => {
                all.push(t);
                proof {
                    assert(views(all@) + blockers(records@, k as int) =~= before + blockers(records@, i as int));
                }
            },
            None => {
                assert(blockers(records@, i as int) =~= blockers(records@, k as int));
            },
        }
        i = k;
    }
    assert(views(all@) =~= blockers(records@, n as int));
    if all.len() > 10 {
        all.truncate(10);
        assert(views(all@) =~= first_ten(blockers(records@, n as int)));
    }
    all
}

/// A summary reports its record: everything but the arguments and the
/// raw response, the parsed output by its value.
pub open spec fn summarizes(s: CoerceCallSummary, r: CoerceCallRecord) -> bool {
    &&& s.coerce_call_id == r.coerce_call_id
    &&& s.function_name == r.function_name
    &&& s.status == r.status
    &&& s.backend == r.backend
    &&& s.http_status == r.http_status
    &&& opt_value(s.parsed_output) == opt_value(r.parsed_output)
    &&& s.error == r.error
    &&& s.duration_ms == r.duration_ms
    &&& s.created_at == r.created_at
}

fn copy_opt_string(o: &Option<String>) -> (r: Option<String>)
    ensures
        r == *o,
{
    match o {
        Some(s) => Some(s.clone()),
        None => None,
    }
}

/// The summary of a coerce call record, from a borrowed record.
pub fn summarize_call(r: &CoerceCallRecord) -> (s: CoerceCallSummary)
    ensures
        summarizes(s, *r),
{
    CoerceCallSummary {
        coerce_call_id: r.coerce_call_id.clone(),
        function_name: r.function_name.clone(),
        status: r.status,
        backend: copy_backend(&r.backend),
        http_status: r.http_status,
        parsed_output: match &r.parsed_output {
            Some(j) => Some(j.deep_clone()),
            None => None,
        },
        error: copy_opt_string(&r.error),
        duration_ms: r.duration_ms,
        created_at: r.created_at.clone(),
    }
}

/// The summaries of coerce call records, in order.
pub fn summarize_calls(records: &Vec<CoerceCallRecord>) -> (r: Vec<CoerceCallSummary>)
    ensures
        r.len() == records.len(),
        forall|i: int| 0 <= i < r.len() ==> summarizes(#[trigger] r@[i], records@[i]),
{
    let mut r: Vec<CoerceCallSummary> = Vec::new();
    let mut i: usize = 0;
    while i < records.len()
        invariant
            i <= records.len(),
            r.len() == i,
            forall|k: int| 0 <= k < i ==> summarizes(#[trigger] r@[k], records@[k]),
        decreases records.len() - i,
    {
        r.push(summarize_call(&records[i]));
        i += 1;
    }
    r
}

/// An event left failed or dead-lettered.
pub open spec fn unresolved(e: WorkflowEvent) -> bool {
    e.status == EventStatus::Failed || e.status == EventStatus::DeadLettered
}

/// The coerce failure that currently blocks the workflow: the latest call,
/// where it failed, for no event or for an event still unresolved.
pub open spec fn blocking_call(latest: Seq<CoerceCallRecord>, events: Seq<WorkflowEvent>) -> bool {
    latest.len() > 0 && latest[0].status == CoerceStatus::Failed && match opt_text(latest[0].event_id) {
        None => true,
        Some(id) => exists|k: int| 0 <= k < events.len() && unresolved(#[trigger] events[k]) && events[k].event_id@ == id,
    }
}

/// The coerce failure that currently blocks the workflow, if any.
pub fn current_coerce_failure(latest: &Vec<CoerceCallRecord>, events: &Vec<WorkflowEvent>) -> (r: Option<CoerceCallSummary>)
    ensures
        blocking_call(latest@, events@) ==> (r matches Some(s) && summarizes(s, latest@[0])),
        !blocking_call(latest@, events@) ==> r is None,
{
    if latest.len() == 0 || latest[0].status != CoerceStatus::Failed {
        return None;
    }
    let blocks = match &latest[0].event_id {
        None => true,
        Some(id) => {
            let mut found = false;
            let mut k: usize = 0;
            while k < events.len()
                invariant
                    k <= events.len(),
                    found == exists|j: int| 0 <= j < k && unresolved(#[trigger] events@[j]) && events@[j].event_id@ == id@,
                decreases events.len() - k,
            {
                let e = &events[k];
                if (e.status == EventStatus::Failed || e.status == EventStatus::DeadLettered) && str_eq(
                    e.event_id.as_str(),
                    id.as_str(),
                ) {
                    found = true;
                }
                k += 1;
            }
            found
        },
    };
    if blocks {
        Some(summarize_call(&latest[0]))
    } else {
        None
    }
}

/// How an unresolved event with an error reads: `<id> <type>: <error>`.
pub open spec fn event_blocker_text(e: WorkflowEvent) -> Option<Seq<char>> {
    if unresolved(e) {
        match opt_text(e.last_error) {
            Some(err) => Some(e.event_id@ + " "@ + e.event_type@ + ": "@ + err),
            None => None,
        }
    } else {
        None
    }
}

/// The blocking events among the first `n`, latest first.
pub open spec fn event_blockers(events: Seq<WorkflowEvent>, n: int) -> Seq<Seq<char>>
    decreases n,
{
    if n <= 0 {
        Seq::empty()
    } else {
        (match event_blocker_text(events[n - 1]) {
            Some(t) => seq![t],
            None => Seq::empty(),
        }) + event_blockers(events, n - 1)
    }
}

/// What currently blocks the workflow: its latest unresolved events (at
/// most ten, latest first), then the policy refusals.
pub fn current_blockers(events: &Vec<WorkflowEvent>, policy: &Vec<String>) -> (r: Vec<String>)
    ensures
        views(r@) == first_ten(event_blockers(events@, events@.len() as int)) + views(policy@),
{
    let n = events.len();
    let mut all: Vec<String> = Vec::new();
    let mut i = n;
    while i > 0
        invariant
            i <= n,
            n == events.len(),
            views(all@) + event_blockers(events@, i as int) == event_blockers(events@, n as int),
        decreases i,
    {
        let k = i - 1;
        let e = &events[k];
        let ghost before = views(all@);
        let unresolved_now = e.status == EventStatus::Failed || e.status == EventStatus::DeadLettered;
        match &e.last_error {
            Some(err) => {
                if unresolved_now {
                    let mut t = e.event_id.clone();
                    t.append(" ");
                    t.append(e.event_type.as_str());
                    t.append(": ");
                    t.append(err.as_str());
                    all.push(t);
                    proof {
                        assert(views(all@) + event_blockers(events@, k as int) =~= before + event_blockers(events@, i as int));
                    }
                } else {
                    assert(event_blockers(events@, i as int) =~= event_blockers(events@, k as int));
                }
            },
            None => {
                assert(event_blockers(events@, i as int) =~= event_blockers(events@, k as int));
            },
        }
        i = k;
    }
    assert(views(all@) =~= event_blockers(events@, n as int));
    if all.len() > 10 {
        all.truncate(10);
    }
    let ghost head = views(all@);
    assert(head =~= first_ten(event_blockers(events@, n as int)));
    let mut j: usize = 0;
    while j < policy.len()
        invariant
            j <= policy.len(),
            views(all@) == head + views(policy@).subrange(0, j as int),
        decreases policy.len() - j,
    {
        let ghost before = views(all@);
        all.push(policy[j].clone());
        proof {
            assert(views(all@) =~= before.push(policy@[j as int]@));
            assert(views(policy@).subrange(0, j + 1) =~= views(policy@).subrange(0, j as int).push(policy@[j as int]@));
        }
        j += 1;
    }
    assert(views(policy@).subrange(0, policy.len() as int) =~= views(policy@));
    all
}

/// The status view of a workflow.
#[derive(Debug)]
pub struct WorkflowStatus {
    pub workflow_id: String,
    pub workflow_name: String,
    pub current_state: String,
    pub blocked_reason: Option<String>,
    pub data: Vec<(String, Json)>,
    pub data_summary: Vec<(String, Json)>,
    pub pending_events: usize,
    pub queued_events: Vec<QueuedEventSummary>,
    pub active_invocations: Vec<ActiveInvocation>,
    pub recent_transition: Option<String>,
    pub recent_effects: Vec<EffectSummary>,
    pub latest_coerce_calls: Vec<CoerceCallSummary>,
    pub latest_coerce_failures: Vec<CoerceCallSummary>,
    pub current_coerce_failure: Option<CoerceCallSummary>,
    pub baml_runtime: Option<BamlRuntimeSummary>,
    pub current_effect_failures: Vec<String>,
    pub policy_blockers: Vec<String>,
    pub current_blockers: Vec<String>,
    pub recent_failures: Vec<String>,
}

/// How many queued events the status view lists.
pub const QUEUED_EVENT_LIMIT: usize = 20;

/// What the store holds of a workflow, read for its status view.
#[derive(Debug)]
pub struct StoredWorkflow {
    /// The saved state and data, where the workflow has run.
    pub state: Option<(String, Vec<(String, Json)>)>,
    pub pending_events: usize,
    /// The workflow's queued events, in enqueue order.
    pub queued_events: Vec<QueuedEventSummary>,
    pub events: Vec<WorkflowEvent>,
    pub records: Vec<WorkflowLogRecord>,
    pub native_active: Vec<(String, u32)>,
    pub latest_coerce_calls: Vec<CoerceCallRecord>,
    pub latest_coerce_failures: Vec<CoerceCallRecord>,
}

/// The data of a workflow, as the contracts read it.
pub open spec fn data_view(d: Seq<(String, Json)>) -> Seq<(Seq<char>, JsonValue)> {
    d.map_values(|e: (String, Json)| (e.0@, e.1.value()))
}

/// The status view of a workflow from what the store holds of it: its
/// saved state and data, else the declared initial state and data; the
/// projections of its log, events and coerce calls; the active
/// invocations, each with its agent's declared ceiling in `agent_limits`.
pub fn project_status(
    workflow_id: &str,
    initial_state: String,
    initial_data: Vec<(String, Json)>,
    agent_limits: &Vec<(String, Option<u32>)>,
    stored: StoredWorkflow,
) -> (r: WorkflowStatus)
    requires
        stored.records@.len() <= u32::MAX,
        stored.events@.len() <= u32::MAX,
    ensures
        r.workflow_id@ == workflow_id@,
        r.workflow_name@ == workflow_id@,
        r.current_state@ == match stored.state {
            Some(s) => s.0@,
            None => initial_state@,
        },
        r.blocked_reason is None,
        data_view(r.data@) == match stored.state {
            Some(s) => data_view(s.1@),
            None => data_view(initial_data@),
        },
        r.data_summary.len() == r.data.len(),
        forall|i: int| 0 <= i < r.data_summary.len() ==> (#[trigger] r.data_summary@[i]).0@ == r.data@[i].0@
            && r.data_summary@[i].1.value() == crate::engine::status_summary(r.data@[i].1.value()),
        r.pending_events == stored.pending_events,
        r.queued_events@ == stored.queued_events@.take(
            if stored.queued_events@.len() <= QUEUED_EVENT_LIMIT { stored.queued_events@.len() as int } else { QUEUED_EVENT_LIMIT as int },
        ),
        stored.native_active@.len() == 0 ==> exists|counts: Seq<(String, u32)>|
            #[trigger] crate::invocations::log_counts(stored.records@, stored.events@, counts)
                && crate::status::active_view(r.active_invocations@) == crate::status::active_entries(counts, agent_limits@),
        stored.native_active@.len() > 0 ==> exists|counts: Seq<(String, u32)>|
            #[trigger] crate::invocations::finished_subtracted(stored.native_active@, stored.events@, counts)
                && crate::status::active_view(r.active_invocations@) == crate::status::active_entries(counts, agent_limits@),
        opt_text(r.recent_transition) == latest_transition(stored.records@, stored.records@.len() as int),
        summaries_view(r.recent_effects@) == first_ten(latest_effects(stored.records@, stored.records@.len() as int)),
        r.latest_coerce_calls.len() == stored.latest_coerce_calls.len(),
        forall|i: int| 0 <= i < r.latest_coerce_calls.len() ==> summarizes(#[trigger] r.latest_coerce_calls@[i], stored.latest_coerce_calls@[i]),
        r.latest_coerce_failures.len() == stored.latest_coerce_failures.len(),
        forall|i: int| 0 <= i < r.latest_coerce_failures.len() ==> summarizes(
            #[trigger] r.latest_coerce_failures@[i],
            stored.latest_coerce_failures@[i],
        ),
        blocking_call(stored.latest_coerce_calls@, stored.events@) ==> (r.current_coerce_failure matches Some(s)
            && summarizes(s, stored.latest_coerce_calls@[0])),
        !blocking_call(stored.latest_coerce_calls@, stored.events@) ==> r.current_coerce_failure is None,
        match r.baml_runtime {
            Some(b) => first_runtime(stored.latest_coerce_calls@) == Some(crate::coerce::summary_view(b)),
            None => first_runtime(stored.latest_coerce_calls@) is None,
        },
        views(r.current_effect_failures@) == effect_failures(summaries_view(r.recent_effects@)),
        views(r.policy_blockers@) == first_ten(blockers(stored.records@, stored.records@.len() as int)),
        views(r.current_blockers@) == first_ten(event_blockers(stored.events@, stored.events@.len() as int)) + views(
            r.policy_blockers@,
        ),
        views(r.recent_failures@) == first_ten(failures(stored.records@, stored.records@.len() as int)),
{
    let StoredWorkflow {
        state,
        pending_events,
        mut queued_events,
        events,
        records,
        native_active,
        latest_coerce_calls,
        latest_coerce_failures,
    } = stored;
    let (current_state, data) = match state {
        Some((s, d)) => (s, d),
        None => (initial_state, initial_data),
    };
    queued_events.truncate(QUEUED_EVENT_LIMIT);
    let recent_transition = recent_transition(&records);
    let recent_effects = recent_effects(&records);
    let recent_failures = recent_failures(&records);
    let current_effect_failures = current_effect_failures(&recent_effects);
    let policy_blockers = policy_blockers(&records);
    let active_invocations = project_active_invocations(agent_limits, &records, &events, native_active);
    let calls = summarize_calls(&latest_coerce_calls);
    let baml_runtime = baml_runtime_summary(latest_coerce_calls.as_slice());
    let failures = summarize_calls(&latest_coerce_failures);
    let current_coerce_failure = current_coerce_failure(&latest_coerce_calls, &events);
    let current_blockers = current_blockers(&events, &policy_blockers);
    let data_summary = crate::engine::summarize_status_data(&data);
    WorkflowStatus {
        workflow_id: workflow_id.to_owned(),
        workflow_name: workflow_id.to_owned(),
        current_state,
        blocked_reason: None,
        data,
        data_summary,
        pending_events,
        queued_events,
        active_invocations,
        recent_transition,
        recent_effects,
        latest_coerce_calls: calls,
        latest_coerce_failures: failures,
        current_coerce_failure,
        baml_runtime,
        current_effect_failures,
        policy_blockers,
        current_blockers,
        recent_failures,
    }
}


/// The blockers among the first `k` events do not depend on later ones.
proof fn lemma_event_blockers_prefix(events: Seq<WorkflowEvent>, e: WorkflowEvent, k: int)
    requires
        k <= events.len(),
    ensures
        event_blockers(events.push(e), k) == event_blockers(events, k),
    decreases k,
{
    if k > 0 {
        assert(events.push(e)[k - 1] == events[k - 1]);
        lemma_event_blockers_prefix(events, e, k - 1);
    }
}

/// An event that failed or was dead-lettered, with an error, reports
/// `<id> <type>: <error>` as a blocker ahead of those of the events before
/// it; any other event reports nothing. At most ten are shown.
pub proof fn law_failed_and_dead_lettered_events_block(events: Seq<WorkflowEvent>, e: WorkflowEvent)
    ensures
        event_blockers(events.push(e), events.len() as int + 1) == (if (e.status == EventStatus::Failed || e.status
            == EventStatus::DeadLettered) && e.last_error is Some {
            seq![e.event_id@ + " "@ + e.event_type@ + ": "@ + e.last_error->Some_0@]
        } else {
            Seq::<Seq<char>>::empty()
        }) + event_blockers(events, events.len() as int),
        first_ten(event_blockers(events.push(e), events.len() as int + 1)).len() <= 10,
        (e.status == EventStatus::Failed || e.status == EventStatus::DeadLettered) && e.last_error is Some ==> first_ten(
            event_blockers(events.push(e), events.len() as int + 1),
        )[0] == e.event_id@ + " "@ + e.event_type@ + ": "@ + e.last_error->Some_0@,
{
    let all = events.push(e);
    assert(all[events.len() as int] == e);
    lemma_event_blockers_prefix(events, e, events.len() as int);
}

} // verus!
