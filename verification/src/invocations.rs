//! Which agent invocations are still active: the starts that the workflow
//! log records, less the `finished` events that answered them.
use vstd::prelude::*;
use crate::events::{EffectStatus, EventStatus, WorkflowEvent, WorkflowLogRecord};
use crate::order::{sorted_strict, sorted_unique, views};
use crate::text::{chars_eq, chars_of, chars_starts_with, has_prefix, str_eq};

verus! {

/// A `finished` event called `name` belongs to `agent`: the name is the
/// agent's, or the agent's followed by `-` and more.
pub open spec fn names_agent(name: Seq<char>, agent: Seq<char>) -> bool {
    name == agent || has_prefix(name, agent.push('-'))
}

/// The index of the longest agent that `name` names; of two as long, the
/// later one.
pub open spec fn longest_match(name: Seq<char>, agents: Seq<Seq<char>>) -> Option<int>
    decreases agents.len(),
{
    if agents.len() == 0 {
        None
    } else {
        let rest = longest_match(name, agents.drop_last());
        let i = agents.len() - 1;
        if names_agent(name, agents[i]) && (match rest {
            Some(j) => agents[j].len() <= agents[i].len(),
            None => true,
        }) {
            Some(i)
        } else {
            rest
        }
    }
}

/// The longest match is an agent that the name names, no named agent is
/// longer, and there is none only when no agent is named.
pub proof fn lemma_longest_match(name: Seq<char>, agents: Seq<Seq<char>>)
    ensures
        match longest_match(name, agents) {
            Some(i) => 0 <= i < agents.len() && names_agent(name, agents[i]) && forall|j: int|
                0 <= j < agents.len() && names_agent(name, #[trigger] agents[j]) ==> agents[j].len()
                    <= agents[i].len(),
            None => forall|j: int| 0 <= j < agents.len() ==> !names_agent(name, #[trigger] agents[j]),
        },
    decreases agents.len(),
{
    if agents.len() > 0 {
        let rest = agents.drop_last();
        lemma_longest_match(name, rest);
        assert forall|j: int| 0 <= j < rest.len() implies rest[j] == agents[j] by {}
    }
}

/// Two agents of one length that a name both names are the same agent: the
/// agent a finished event belongs to is never ambiguous.
pub proof fn lemma_named_agent_unique(name: Seq<char>, a: Seq<char>, b: Seq<char>)
    requires
        names_agent(name, a),
        names_agent(name, b),
        a.len() == b.len(),
    ensures
        a == b,
{
    assert(a =~= name.subrange(0, a.len() as int));
    assert(b =~= name.subrange(0, b.len() as int));
}

/// Whether `name` names `agent`.
fn names_agent_exec(name: &Vec<char>, agent: &Vec<char>) -> (r: bool)
    ensures
        r == names_agent(name@, agent@),
{
    if chars_eq(name, agent) {
        return true;
    }
    let mut dashed = agent.clone();
    dashed.push('-');
    chars_starts_with(name, &dashed)
}

/// The agent a finished event called `finished_name` belongs to: the index
/// of the longest agent it names, if any.
pub fn matching_finished_agent(finished_name: &str, agents: &Vec<String>) -> (r: Option<usize>)
    ensures
        match r {
            Some(i) => longest_match(finished_name@, views(agents@)) == Some(i as int),
            None => longest_match(finished_name@, views(agents@)) is None,
        },
{
    let name = chars_of(finished_name);
    let ghost all = views(agents@);
    let mut best: Option<usize> = None;
    let mut best_len: usize = 0;
    let mut i: usize = 0;
    while i < agents.len()
        invariant
            i <= agents.len(),
            all == views(agents@),
            name@ == finished_name@,
            match best {
                Some(b) => longest_match(name@, all.subrange(0, i as int)) == Some(b as int) && b < i
                    && best_len == all[b as int].len(),
                None => longest_match(name@, all.subrange(0, i as int)) is None,
            },
        decreases agents.len() - i,
    {
        let agent = chars_of(agents[i].as_str());
        proof {
            let pre = all.subrange(0, i + 1);
            assert(pre.drop_last() =~= all.subrange(0, i as int));
            assert(pre[i as int] == all[i as int]);
            assert(all[i as int] == agents@[i as int]@);
            match best {
                Some(b) => {
                    assert(pre[b as int] == all[b as int]);
                },
                None => {},
            }
        }
        if names_agent_exec(&name, &agent) {
            let better = match best {
                Some(_) => best_len <= agent.len(),
                None => true,
            };
            if better {
                best = Some(i);
                best_len = agent.len();
            }
        }
        i += 1;
    }
    assert(all.subrange(0, agents.len() as int) =~= all);
    best
}

/// The name a processed `finished` event carries in its payload, if any.
pub open spec fn finished_name(e: WorkflowEvent) -> Option<Seq<char>> {
    if e.event_type@ == "finished"@ && e.status == EventStatus::Processed {
        match e.payload.get_spec("name"@) {
            Some(v) => v.str_spec(),
            None => None,
        }
    } else {
        None
    }
}

/// How many of `events` finished the agent at index `i` of `agents`.
pub open spec fn finished_count(events: Seq<WorkflowEvent>, agents: Seq<Seq<char>>, i: int) -> nat
    decreases events.len(),
{
    if events.len() == 0 {
        0
    } else {
        finished_count(events.drop_last(), agents, i) + match finished_name(events.last()) {
            Some(n) => if longest_match(n, agents) == Some(i) {
                1nat
            } else {
                0nat
            },
            None => 0nat,
        }
    }
}

/// `a - b`, or zero where `b` is the larger (`u32::saturating_sub`).
pub open spec fn saturating_sub(a: u32, b: nat) -> u32 {
    if b >= a {
        0
    } else {
        (a - b) as u32
    }
}

/// The keys of a count list.
pub open spec fn count_keys(counts: Seq<(String, u32)>) -> Seq<Seq<char>> {
    counts.map_values(|e: (String, u32)| e.0@)
}

/// `r` is `started` with each agent's count lowered by the `finished`
/// events that name it, never below zero.
pub open spec fn finished_subtracted(started: Seq<(String, u32)>, events: Seq<WorkflowEvent>, r: Seq<(String, u32)>) -> bool {
    &&& r.len() == started.len()
    &&& forall|i: int| 0 <= i < r.len() ==> (#[trigger] r[i]).0@ == started[i].0@ && r[i].1
        == saturating_sub(started[i].1, finished_count(events, count_keys(started), i))
}

/// The finished event's name, read as the spec reads it.
fn finished_name_exec(e: &WorkflowEvent) -> (r: Option<&str>)
    ensures
        match r {
            Some(n) => finished_name(*e) == Some(n@),
            None => finished_name(*e) is None,
        },
{
    if !str_eq(e.event_type.as_str(), "finished") || e.status != EventStatus::Processed {
        return None;
    }
    match e.payload.get("name") {
        Some(v) => v.as_str(),
        None => None,
    }
}

/// Lowers each agent's started count by the `finished` events that name it
/// (a name belongs to the longest agent it names), never below zero.
pub fn subtract_finished_events(started_by_agent: Vec<(String, u32)>, events: &Vec<WorkflowEvent>) -> (r: Vec<(String, u32)>)
    requires
        events.len() <= u32::MAX,
    ensures
        finished_subtracted(started_by_agent@, events@, r@),
{
    let n = started_by_agent.len();
    let ghost keys = count_keys(started_by_agent@);
    let mut agents: Vec<String> = Vec::new();
    let mut completed: Vec<u32> = Vec::new();
    let mut i: usize = 0;
    while i < n
        invariant
            i <= n,
            n == started_by_agent.len(),
            keys == count_keys(started_by_agent@),
            agents.len() == i,
            completed.len() == i,
            forall|j: int| 0 <= j < i ==> (#[trigger] views(agents@)[j]) == keys[j],
            forall|j: int| 0 <= j < i ==> completed@[j] == 0,
        decreases n - i,
    {
        let name = started_by_agent[i].0.clone();
        let ghost old_agents = agents@;
        agents.push(name);
        completed.push(0);
        proof {
            assert forall|j: int| 0 <= j < i implies (#[trigger] views(agents@)[j]) == keys[j] by {
                assert(agents@[j] == old_agents[j]);
                assert(views(old_agents)[j] == old_agents[j]@);
            }
            assert(views(agents@)[i as int] == agents@[i as int]@);
            assert(keys[i as int] == started_by_agent@[i as int].0@);
        }
        i += 1;
    }
    assert(views(agents@) =~= keys);
    let mut k: usize = 0;
    while k < events.len()
        invariant
            k <= events.len(),
            events.len() <= u32::MAX,
            n == started_by_agent.len(),
            keys == count_keys(started_by_agent@),
            views(agents@) == keys,
            completed.len() == n,
            forall|j: int| 0 <= j < n ==> #[trigger] completed@[j] == finished_count(events@.subrange(0, k as int), keys, j),
            forall|j: int| 0 <= j < n ==> #[trigger] completed@[j] <= k,
        decreases events.len() - k,
    {
        let ghost before = completed@;
        proof {
            assert(events@.subrange(0, k + 1).drop_last() =~= events@.subrange(0, k as int));
            assert(events@.subrange(0, k + 1).last() == events@[k as int]);
        }
        match finished_name_exec(&events[k]) {
            Some(name) => {
                match matching_finished_agent(name, &agents) {
                    Some(j) => {
                        proof {
                            lemma_longest_match(name@, keys);
                        }
                        let c = completed[j];
                        completed.set(j, c + 1);
                    },
                    None => {},
                }
            },
            None => {},
        }
        k += 1;
    }
    assert(events@.subrange(0, events.len() as int) =~= events@);
    let mut r: Vec<(String, u32)> = Vec::new();
    let mut started = started_by_agent;
    let mut m: usize = 0;
    let ghost original = started@;
    while m < n
        invariant
            m <= n,
            n == original.len(),
            started@ == original,
            keys == count_keys(original),
            completed.len() == n,
            forall|j: int| 0 <= j < n ==> #[trigger] completed@[j] == finished_count(events@, keys, j),
            r.len() == m,
            forall|j: int| 0 <= j < m ==> (#[trigger] r@[j]).0@ == original[j].0@ && r@[j].1
                == saturating_sub(original[j].1, finished_count(events@, keys, j)),
        decreases n - m,
    {
        let name = started[m].0.clone();
        let count = started[m].1;
        let done = completed[m];
        let left = if done >= count {
            0
        } else {
            count - done
        };
        r.push((name, left));
        m += 1;
    }
    r
}

/// What a log record contributes as an agent start: the effect id, the
/// agent, and whether the start was dispatched or succeeded with an
/// accepted outcome.
pub open spec fn start_entry(r: WorkflowLogRecord) -> Option<(Seq<char>, Seq<char>, bool)> {
    match r {
        WorkflowLogRecord::Effect { effect_id, effect, target, status, outcome, .. } => {
            if effect@ == "start"@ {
                match target {
                    Some(agent) => Some(
                        (
                            effect_id@,
                            agent@,
                            (status == EffectStatus::Dispatched || status == EffectStatus::Succeeded)
                                && match outcome {
                                Some(o) => o.accepted,
                                None => false,
                            },
                        ),
                    ),
                    None => None,
                }
            } else {
                None
            }
        },
        _ => None,
    }
}

/// Record `i` is the last start record of its effect, and that start was
/// accepted.
pub open spec fn live_start(records: Seq<WorkflowLogRecord>, i: int) -> bool {
    match start_entry(records[i]) {
        Some(e) => e.2 && forall|j: int|
            i < j < records.len() ==> match start_entry(#[trigger] records[j]) {
                Some(f) => f.0 != e.0,
                None => true,
            },
        None => false,
    }
}

/// The agent of the start record `i`.
pub open spec fn start_agent(records: Seq<WorkflowLogRecord>, i: int) -> Seq<char> {
    match start_entry(records[i]) {
        Some(e) => e.1,
        None => Seq::empty(),
    }
}

/// How many of the first `n` records are live starts of `agent`: each
/// effect counts once, by its last start record.
pub open spec fn started_count(records: Seq<WorkflowLogRecord>, agent: Seq<char>, n: nat) -> nat
    decreases n,
{
    if n == 0 {
        0
    } else {
        started_count(records, agent, (n - 1) as nat) + if live_start(records, n - 1)
            && start_agent(records, n - 1) == agent {
            1nat
        } else {
            0nat
        }
    }
}

/// An agent has a started count exactly when some record is a live start
/// of it.
pub proof fn lemma_started_count_positive(records: Seq<WorkflowLogRecord>, agent: Seq<char>, n: nat)
    ensures
        started_count(records, agent, n) > 0 <==> exists|i: int|
            0 <= i < n && live_start(records, i) && #[trigger] start_agent(records, i) == agent,
        started_count(records, agent, n) <= n,
    decreases n,
{
    if n > 0 {
        lemma_started_count_positive(records, agent, (n - 1) as nat);
        if live_start(records, n - 1) && start_agent(records, n - 1) == agent {
            assert(start_agent(records, n - 1) == agent);
        }
    }
}

/// `r` holds, in key order, each agent with live starts in `records`, with
/// its started count less the `finished` events of `events` that name it,
/// never below zero.
pub open spec fn log_counts(records: Seq<WorkflowLogRecord>, events: Seq<WorkflowEvent>, r: Seq<(String, u32)>) -> bool {
    &&& sorted_strict(count_keys(r))
    &&& forall|a: Seq<char>| #[trigger] count_keys(r).contains(a) <==> started_count(records, a, records.len()) > 0
    &&& forall|i: int| 0 <= i < r.len() ==> (#[trigger] r[i]).1 == saturating_sub(
        started_count(records, r[i].0@, records.len()) as u32,
        finished_count(events, count_keys(r), i),
    )
}

/// The view of one computed start entry.
pub open spec fn entry_view(e: Option<(String, String, bool)>) -> Option<(Seq<char>, Seq<char>, bool)> {
    match e {
        Some(x) => Some((x.0@, x.1@, x.2)),
        None => None,
    }
}

/// What one log record contributes as an agent start.
fn start_entry_of(r: &WorkflowLogRecord) -> (e: Option<(String, String, bool)>)
    ensures
        entry_view(e) == start_entry(*r),
{
    match r {
        WorkflowLogRecord::Effect { effect_id, effect, target, status, outcome, .. } => {
            if !str_eq(effect.as_str(), "start") {
                return None;
            }
            match target {
                Some(agent) => {
                    let accepted = match outcome {
                        Some(o) => o.accepted,
                        None => false,
                    };
                    let counts = (*status == EffectStatus::Dispatched || *status == EffectStatus::Succeeded)
                        && accepted;
                    Some((effect_id.clone(), agent.clone(), counts))
                },
                None => None,
            }
        },
        _ => None,
    }
}

/// Whether entry `i` is the last start of its effect and was accepted.
fn live_at(entries: &Vec<Option<(String, String, bool)>>, i: usize) -> (r: bool)
    requires
        i < entries.len(),
    ensures
        r == match entry_view(entries@[i as int]) {
            Some(e) => e.2 && forall|j: int|
                i < j < entries.len() ==> match #[trigger] entry_view(entries@[j]) {
                    Some(f) => f.0 != e.0,
                    None => true,
                },
            None => false,
        },
{
    let (id, counts) = match &entries[i] {
        Some(e) => (&e.0, e.2),
        None => {
            return false;
        },
    };
    if !counts {
        return false;
    }
    let mut j: usize = i + 1;
    while j < entries.len()
        invariant
            i < j <= entries.len(),
            entry_view(entries@[i as int]) matches Some(e) && e.0 == id@,
            forall|k: int| i < k < j ==> match #[trigger] entry_view(entries@[k]) {
                Some(f) => f.0 != id@,
                None => true,
            },
        decreases entries.len() - j,
    {
        match &entries[j] {
            Some(f) => {
                if str_eq(f.0.as_str(), id.as_str()) {
                    assert(entry_view(entries@[j as int]) == Some((f.0@, f.1@, f.2)));
                    return false;
                }
            },
            None => {},
        }
        j += 1;
    }
    true
}

/// For each agent with live starts (in key order), its started count less
/// the `finished` events that name it, never below zero. A start counts
/// once per effect, by the last start record of that effect, when it was
/// dispatched or succeeded with an accepted outcome.
pub fn active_invocation_counts(records: &Vec<WorkflowLogRecord>, events: &Vec<WorkflowEvent>) -> (r: Vec<(String, u32)>)
    requires
        records.len() <= u32::MAX,
        events.len() <= u32::MAX,
    ensures
        log_counts(records@, events@, r@),
{
    let n = records.len();
    let mut entries: Vec<Option<(String, String, bool)>> = Vec::new();
    let mut i: usize = 0;
    while i < n
        invariant
            i <= n,
            n == records.len(),
            entries.len() == i,
            forall|k: int| 0 <= k < i ==> #[trigger] entry_view(entries@[k]) == start_entry(records@[k]),
        decreases n - i,
    {
        let e = start_entry_of(&records[i]);
        entries.push(e);
        i += 1;
    }
    let mut live_agents: Vec<String> = Vec::new();
    let mut live: Vec<bool> = Vec::new();
    let mut i: usize = 0;
    while i < n
        invariant
            i <= n,
            n == records.len(),
            entries.len() == n,
            forall|k: int| 0 <= k < n ==> #[trigger] entry_view(entries@[k]) == start_entry(records@[k]),
            live.len() == i,
            forall|k: int| 0 <= k < i ==> #[trigger] live@[k] == live_start(records@, k),
            forall|a: Seq<char>| views(live_agents@).contains(a) <==> exists|k: int|
                0 <= k < i && live_start(records@, k) && #[trigger] start_agent(records@, k) == a,
        decreases n - i,
    {
        let is_live = live_at(&entries, i);
        proof {
            assert(entry_view(entries@[i as int]) == start_entry(records@[i as int]));
            assert forall|j: int| i < j < n implies #[trigger] start_entry(records@[j]) == entry_view(entries@[j]) by {}
            assert(is_live == live_start(records@, i as int));
        }
        let ghost before = views(live_agents@);
        if is_live {
            match &entries[i] {
                Some(e) => {
                    live_agents.push(e.1.clone());
                    proof {
                        let after = views(live_agents@);
                        assert(after =~= before.push(start_agent(records@, i as int)));
                        assert forall|a: Seq<char>| after.contains(a) <==> exists|k: int|
                            0 <= k < i + 1 && live_start(records@, k) && #[trigger] start_agent(records@, k) == a by {
                            if after.contains(a) {
                                let p = choose|p: int| 0 <= p < after.len() && after[p] == a;
                                if p == before.len() {
                                    assert(start_agent(records@, i as int) == a);
                                } else {
                                    assert(before[p] == a);
                                    assert(before.contains(a));
                                }
                            }
                            if exists|k: int| 0 <= k < i + 1 && live_start(records@, k) && #[trigger] start_agent(records@, k) == a {
                                let k = choose|k: int| 0 <= k < i + 1 && live_start(records@, k) && #[trigger] start_agent(records@, k) == a;
                                if k == i {
                                    assert(after[before.len() as int] == a);
                                } else {
                                    assert(before.contains(a));
                                    let p = choose|p: int| 0 <= p < before.len() && before[p] == a;
                                    assert(after[p] == a);
                                }
                            }
                        }
                    }
                },
                None => {},
            }
        }
        live.push(is_live);
        i += 1;
    }
    let keys = sorted_unique(live_agents);
    let mut started: Vec<(String, u32)> = Vec::new();
    let mut t: usize = 0;
    while t < keys.len()
        invariant
            t <= keys.len(),
            n == records.len(),
            n <= u32::MAX,
            live.len() == n,
            forall|k: int| 0 <= k < n ==> #[trigger] live@[k] == live_start(records@, k),
            forall|k: int| 0 <= k < n ==> #[trigger] entry_view(entries@[k]) == start_entry(records@[k]),
            entries.len() == n,
            started.len() == t,
            forall|j: int| 0 <= j < t ==> (#[trigger] started@[j]).0@ == keys@[j]@ && started@[j].1
                == started_count(records@, keys@[j]@, n as nat),
        decreases keys.len() - t,
    {
        let key = keys[t].clone();
        let mut count: u32 = 0;
        let mut k: usize = 0;
        while k < n
            invariant
                k <= n,
                n == records.len(),
                n <= u32::MAX,
                live.len() == n,
                entries.len() == n,
                forall|x: int| 0 <= x < n ==> #[trigger] live@[x] == live_start(records@, x),
                forall|x: int| 0 <= x < n ==> #[trigger] entry_view(entries@[x]) == start_entry(records@[x]),
                count == started_count(records@, key@, k as nat),
            decreases n - k,
        {
            proof {
                lemma_started_count_positive(records@, key@, k as nat);
            }
            proof {
                assert(entry_view(entries@[k as int]) == start_entry(records@[k as int]));
                assert(started_count(records@, key@, (k + 1) as nat) == started_count(records@, key@, k as nat) + if live_start(records@, k as int) && start_agent(records@, k as int) == key@ {
                    1nat
                } else {
                    0nat
                });
            }
            if live[k] {
                match &entries[k] {
                    Some(e) => {
                        if str_eq(e.1.as_str(), key.as_str()) {
                            count = count + 1;
                        }
                    },
                    None => {},
                }
            }
            k += 1;
        }
        started.push((key, count));
        t += 1;
    }
    proof {
        assert(count_keys(started@) =~= views(keys@));
    }
    let r = subtract_finished_events(started, events);
    proof {
        assert(count_keys(r@) =~= views(keys@));
        assert forall|a: Seq<char>| #[trigger] count_keys(r@).contains(a) <==> started_count(records@, a, records@.len()) > 0 by {
            lemma_started_count_positive(records@, a, records@.len());
        }
        assert forall|i: int| 0 <= i < r.len() implies (#[trigger] r@[i]).1 == saturating_sub(
            started_count(records@, r@[i].0@, records@.len()) as u32,
            finished_count(events@, count_keys(r@), i),
        ) by {
            assert(r@[i].0@ == started@[i].0@);
        }
    }
    r
}

} // verus!
