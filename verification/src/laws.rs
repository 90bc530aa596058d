//! Properties that hold across the library's operations.
use vstd::prelude::*;
use crate::access::{add_file_grant, apply_grant, apply_grants, apply_operations, no_access, scope_index, turn_access_of, AccessView, OpsView, ScopeView};
use crate::harness::{caps_and, tool_allowed, uniform_caps, ToolCaps};
use crate::invocations::{finished_subtracted, log_counts, saturating_sub, started_count};
use crate::json::Json;
use crate::order::{lemma_lex_total, lemma_lex_transitive, lemma_sorted_strict_unique, lex_lt, sorted_strict};
use crate::turn::{merge_globs, sorted_union};

verus! {

/// Intersecting two profile policies grants the same whichever comes
/// first.
pub proof fn law_intersect_commutes(a: ToolCaps, b: ToolCaps)
    ensures
        caps_and(a, b) == caps_and(b, a),
{
}

/// The permissive policy changes nothing it is intersected with.
pub proof fn law_permissive_is_neutral(c: ToolCaps)
    ensures
        caps_and(uniform_caps(true), c) == c,
        caps_and(c, uniform_caps(true)) == c,
{
}

/// An intersection never allows a tool that either policy refuses.
pub proof fn law_intersect_never_widens(a: ToolCaps, b: ToolCaps, tool: Seq<char>)
    ensures
        tool_allowed(caps_and(a, b), tool) ==> tool_allowed(a, tool) && tool_allowed(b, tool),
{
}

/// Repeating a grant on a store that already has one changes nothing more;
/// an unrestricted grant stays unrestricted whatever follows.
pub proof fn law_repeated_grant_is_idempotent(e: Seq<Seq<char>>, globs: Seq<Seq<char>>)
    ensures
        merge_globs(merge_globs(Some(e), globs), globs) == merge_globs(Some(e), globs),
        e.len() == 0 ==> merge_globs(Some(e), globs) == Some(e),
{
    if e.len() > 0 && globs.len() > 0 {
        let m = sorted_union(e, globs);
        lemma_sorted_union_exists(e, globs);
        let m2 = sorted_union(m, globs);
        lemma_sorted_union_exists(m, globs);
        if m.len() == 0 {
            assert(e.contains(e[0]));
            assert(m.contains(e[0]));
        }
        assert forall|x: Seq<char>| m2.contains(x) <==> m.contains(x) by {}
        lemma_sorted_strict_unique(m2, m);
    }
}

/// `x` put into its place in a strictly sorted list, unless it is there.
pub open spec fn sorted_insert(n: Seq<Seq<char>>, x: Seq<char>) -> Seq<Seq<char>>
    decreases n.len(),
{
    if n.len() == 0 {
        seq![x]
    } else if x == n[0] {
        n
    } else if lex_lt(x, n[0]) {
        seq![x] + n
    } else {
        seq![n[0]] + sorted_insert(n.drop_first(), x)
    }
}

proof fn lemma_sorted_insert(n: Seq<Seq<char>>, x: Seq<char>)
    requires
        sorted_strict(n),
    ensures
        sorted_strict(sorted_insert(n, x)),
        forall|y: Seq<char>| #[trigger] sorted_insert(n, x).contains(y) <==> (n.contains(y) || y == x),
    decreases n.len(),
{
    let r = sorted_insert(n, x);
    if n.len() == 0 {
        assert(r =~= seq![x]);
        assert forall|y: Seq<char>| r.contains(y) <==> (n.contains(y) || y == x) by {
            if r.contains(y) {
                assert(r[0] == y);
            }
            if y == x {
                assert(r[0] == y);
            }
        }
    } else if x == n[0] {
        assert forall|y: Seq<char>| r.contains(y) <==> (n.contains(y) || y == x) by {
            if y == x {
                assert(n[0] == y);
            }
        }
    } else if lex_lt(x, n[0]) {
        assert forall|i: int, j: int| 0 <= i < j < r.len() implies lex_lt(#[trigger] r[i], #[trigger] r[j]) by {
            if i == 0 {
                if j > 1 {
                    lemma_lex_transitive(x, n[0], n[j - 1]);
                }
            } else {
                assert(r[i] == n[i - 1] && r[j] == n[j - 1]);
            }
        }
        assert forall|y: Seq<char>| r.contains(y) <==> (n.contains(y) || y == x) by {
            if r.contains(y) {
                let k = choose|k: int| 0 <= k < r.len() && r[k] == y;
                if k > 0 {
                    assert(n[k - 1] == y);
                }
            }
            if n.contains(y) {
                let k = choose|k: int| 0 <= k < n.len() && n[k] == y;
                assert(r[k + 1] == y);
            }
            if y == x {
                assert(r[0] == y);
            }
        }
    } else {
        let rest = n.drop_first();
        assert forall|i: int, j: int| 0 <= i < j < rest.len() implies lex_lt(#[trigger] rest[i], #[trigger] rest[j]) by {
            assert(rest[i] == n[i + 1] && rest[j] == n[j + 1]);
        }
        lemma_sorted_insert(rest, x);
        let t = sorted_insert(rest, x);
        lemma_lex_total(x, n[0]);
        assert forall|k: int| 0 <= k < t.len() implies lex_lt(n[0], #[trigger] t[k]) by {
            assert(t.contains(t[k]));
            if t[k] == x {
            } else {
                assert(rest.contains(t[k]));
                let m = choose|m: int| 0 <= m < rest.len() && rest[m] == t[k];
                assert(n[m + 1] == t[k]);
            }
        }
        assert forall|i: int, j: int| 0 <= i < j < r.len() implies lex_lt(#[trigger] r[i], #[trigger] r[j]) by {
            if i == 0 {
                assert(r[j] == t[j - 1]);
            } else {
                assert(r[i] == t[i - 1] && r[j] == t[j - 1]);
            }
        }
        assert forall|y: Seq<char>| r.contains(y) <==> (n.contains(y) || y == x) by {
            if r.contains(y) {
                let k = choose|k: int| 0 <= k < r.len() && r[k] == y;
                if k > 0 {
                    assert(t[k - 1] == y);
                    assert(t.contains(y));
                    if y != x {
                        let m = choose|m: int| 0 <= m < rest.len() && rest[m] == y;
                        assert(n[m + 1] == y);
                    }
                }
            }
            if n.contains(y) {
                let k = choose|k: int| 0 <= k < n.len() && n[k] == y;
                if k > 0 {
                    assert(rest[k - 1] == y);
                    assert(t.contains(y));
                    let m = choose|m: int| 0 <= m < t.len() && t[m] == y;
                    assert(r[m + 1] == y);
                }
            }
            if y == x {
                assert(t.contains(y));
                let m = choose|m: int| 0 <= m < t.len() && t[m] == y;
                assert(r[m + 1] == y);
            }
        }
    }
}

/// The strictly sorted list of a list's strings.
pub open spec fn sorted_form(s: Seq<Seq<char>>) -> Seq<Seq<char>>
    decreases s.len(),
{
    if s.len() == 0 {
        Seq::empty()
    } else {
        sorted_insert(sorted_form(s.drop_last()), s.last())
    }
}

proof fn lemma_sorted_form(s: Seq<Seq<char>>)
    ensures
        sorted_strict(sorted_form(s)),
        forall|y: Seq<char>| #[trigger] sorted_form(s).contains(y) <==> s.contains(y),
    decreases s.len(),
{
    if s.len() > 0 {
        lemma_sorted_form(s.drop_last());
        lemma_sorted_insert(sorted_form(s.drop_last()), s.last());
        assert forall|y: Seq<char>| #[trigger] sorted_form(s).contains(y) <==> s.contains(y) by {
            if s.drop_last().contains(y) {
                let k = choose|k: int| 0 <= k < s.drop_last().len() && s.drop_last()[k] == y;
                assert(s[k] == y);
            }
            if s.contains(y) {
                let k = choose|k: int| 0 <= k < s.len() && s[k] == y;
                if k < s.len() - 1 {
                    assert(s.drop_last()[k] == y);
                }
            }
        }
    }
}

/// The union of two lists always has a strictly sorted form.
proof fn lemma_sorted_union_exists(a: Seq<Seq<char>>, b: Seq<Seq<char>>)
    ensures
        sorted_strict(sorted_union(a, b)),
        forall|x: Seq<char>| #[trigger] sorted_union(a, b).contains(x) <==> (a.contains(x) || b.contains(x)),
{
    let n = sorted_form(a + b);
    lemma_sorted_form(a + b);
    assert forall|x: Seq<char>| #[trigger] n.contains(x) <==> (a.contains(x) || b.contains(x)) by {
        if (a + b).contains(x) {
            let k = choose|k: int| 0 <= k < (a + b).len() && (a + b)[k] == x;
            if k < a.len() {
                assert(a[k] == x);
            } else {
                assert(b[k - a.len()] == x);
            }
        }
        if a.contains(x) {
            let k = choose|k: int| 0 <= k < a.len() && a[k] == x;
            assert((a + b)[k] == x);
        }
        if b.contains(x) {
            let k = choose|k: int| 0 <= k < b.len() && b[k] == x;
            assert((a + b)[k + a.len()] == x);
        }
    }
}

/// No two scopes are of the same store.
pub open spec fn distinct_stores(scopes: Seq<ScopeView>) -> bool {
    forall|i: int, j: int| 0 <= i < j < scopes.len() ==> (#[trigger] scopes[i]).store_name != (#[trigger] scopes[j]).store_name
}

/// No resource is listed twice.
pub open spec fn distinct_resources(rs: Seq<Seq<char>>) -> bool {
    forall|i: int, j: int| 0 <= i < j < rs.len() ==> #[trigger] rs[i] != #[trigger] rs[j]
}

proof fn lemma_scope_index_none(scopes: Seq<ScopeView>, name: Seq<char>)
    ensures
        scope_index(scopes, name) is None ==> forall|i: int| 0 <= i < scopes.len() ==> (#[trigger] scopes[i]).store_name != name,
        scope_index(scopes, name) matches Some(i) ==> 0 <= i < scopes.len(),
    decreases scopes.len(),
{
    if scopes.len() > 0 {
        lemma_scope_index_none(scopes.drop_last(), name);
        if scope_index(scopes, name) is None {
            assert forall|i: int| 0 <= i < scopes.len() implies (#[trigger] scopes[i]).store_name != name by {
                if i < scopes.len() - 1 {
                    assert(scopes.drop_last()[i] == scopes[i]);
                }
            }
        }
    }
}

proof fn lemma_grant_keeps_distinct(acc: AccessView, k: nat, grant: Json)
    requires
        distinct_stores(acc.scopes),
        distinct_resources(acc.file_resources),
    ensures
        apply_grant(acc, k, grant) matches Ok(a) ==> distinct_stores(a.scopes) && distinct_resources(a.file_resources),
{
    if let Ok(a) = apply_grant(acc, k, grant) {
        if a.scopes != acc.scopes || a.file_resources != acc.file_resources {
            let resource = crate::access::grant_resource(grant)->0;
            lemma_scope_index_none(acc.scopes, resource);
            match scope_index(acc.scopes, resource) {
                Some(i) => {
                    assert forall|p: int, q: int| 0 <= p < q < a.scopes.len() implies (#[trigger] a.scopes[p]).store_name
                        != (#[trigger] a.scopes[q]).store_name by {
                        assert(a.scopes[p].store_name == acc.scopes[p].store_name);
                        assert(a.scopes[q].store_name == acc.scopes[q].store_name);
                    }
                },
                None => {
                    assert forall|p: int, q: int| 0 <= p < q < a.scopes.len() implies (#[trigger] a.scopes[p]).store_name
                        != (#[trigger] a.scopes[q]).store_name by {
                        if q == acc.scopes.len() {
                            assert(acc.scopes[p].store_name != resource);
                        }
                    }
                },
            }
            if !acc.file_resources.contains(resource) {
                assert forall|p: int, q: int| 0 <= p < q < a.file_resources.len() implies #[trigger] a.file_resources[p]
                    != #[trigger] a.file_resources[q] by {
                    if q == acc.file_resources.len() {
                        assert(a.file_resources[p] == acc.file_resources[p]);
                    }
                }
            }
        }
    }
}

proof fn lemma_grants_keep_distinct(grants: Seq<Json>, acc: AccessView)
    requires
        distinct_stores(acc.scopes),
        distinct_resources(acc.file_resources),
    ensures
        apply_grants(grants, acc) matches Ok(a) ==> distinct_stores(a.scopes) && distinct_resources(a.file_resources),
    decreases grants.len(),
{
    if grants.len() > 0 {
        lemma_grants_keep_distinct(grants.drop_last(), acc);
        if let Ok(a2) = apply_grants(grants.drop_last(), acc) {
            lemma_grant_keeps_distinct(a2, (grants.len() - 1) as nat, grants.last());
        }
    }
}

/// A turn's access has one scope per file store, and lists each granted
/// resource once, however many grants name the same store.
pub proof fn law_one_scope_per_store(input: Json)
    ensures
        turn_access_of(input) matches Ok(a) ==> distinct_stores(a.scopes) && distinct_resources(a.file_resources),
{
    match input.get_spec("access_grants"@) {
        Some(Json::Array(grants)) => lemma_grants_keep_distinct(grants@, no_access()),
        _ => {},
    }
}

/// An agent's active count never exceeds its started count, whether the
/// counts come from the native store or from the workflow log.
pub proof fn law_active_never_exceeds_started(
    started: Seq<(String, u32)>,
    records: Seq<crate::events::WorkflowLogRecord>,
    events: Seq<crate::events::WorkflowEvent>,
    r: Seq<(String, u32)>,
    i: int,
)
    requires
        0 <= i < r.len(),
    ensures
        finished_subtracted(started, events, r) ==> r[i].1 <= started[i].1,
        log_counts(records, events, r) && started_count(records, r[i].0@, records.len()) <= u32::MAX ==> r[i].1
            <= started_count(records, r[i].0@, records.len()),
{
}

/// The queue is first in, first out: whatever is pushed after them, the
/// events already queued come out first, in order, and a pushed event comes
/// out after them.
pub proof fn law_queue_fifo(queued: Seq<crate::events::WorkflowEvent>, e: crate::events::WorkflowEvent)
    ensures
        queued.len() > 0 ==> queued.push(e)[0] == queued[0] && queued.push(e).drop_first() == queued.drop_first().push(e),
        queued.len() == 0 ==> queued.push(e)[0] == e && queued.push(e).drop_first().len() == 0,
{
    if queued.len() > 0 {
        assert(queued.push(e).drop_first() =~= queued.drop_first().push(e));
    }
}

/// Reading back the stored name of a coerce status gives the status.
pub proof fn law_coerce_status_round_trip(status: crate::coerce::CoerceStatus)
    ensures
        crate::coerce::coerce_status_of(crate::coerce::coerce_status_text(status)) == status,
{
    reveal_strlit("succeeded");
    reveal_strlit("failed");
    assert("failed"@.len() != "succeeded"@.len());
}

/// A per-effect provider in source decides the rung whatever the operator
/// and the registry say; without one, the operator's provider decides it
/// over the registry's.
pub proof fn law_ladder_precedence(
    over: Option<Seq<char>>,
    env_provider: Option<Seq<char>>,
    registry_provider: Option<Seq<char>>,
    config: Json,
)
    ensures
        over is Some ==> match crate::selection::ladder_spec(over, env_provider, registry_provider, config) {
            Ok(crate::selection::ChoiceView::Fixture(rung)) => rung == crate::selection::CoerceSelectionRung::PerEffectProvider,
            Ok(crate::selection::ChoiceView::Native(rung, _, _, _)) => rung == crate::selection::CoerceSelectionRung::PerEffectProvider,
            Err(_) => true,
        },
        over is None && env_provider is Some ==> match crate::selection::ladder_spec(over, env_provider, registry_provider, config) {
            Ok(crate::selection::ChoiceView::Fixture(rung)) => rung == crate::selection::CoerceSelectionRung::OperatorOverride,
            Ok(crate::selection::ChoiceView::Native(rung, _, _, _)) => rung == crate::selection::CoerceSelectionRung::OperatorOverride,
            Err(_) => true,
        },
{
}

/// The configuration fingerprint resolves the provider and backend through
/// the same rungs as dispatch: where the registry default selects a native
/// backend, the fingerprint is taken over that binding's provider id and
/// backend name, and over the operator's model, else the registry row's.
pub proof fn law_fingerprint_follows_dispatch(
    env: crate::selection::OperatorEnv,
    registry_provider: Seq<char>,
    config: Json,
    codex_model: Option<Seq<char>>,
)
    requires
        env.provider is None,
    ensures
        crate::selection::ladder_spec(None, None, Some(registry_provider), config) matches Ok(
            crate::selection::ChoiceView::Native(rung, id, backend, from_registry),
        ) ==> crate::selection::registry_backend_spec(registry_provider, config) matches Ok(bn)
            && crate::selection::fingerprint_spec(env, Some(registry_provider), config, codex_model)
            == crate::selection::SubjectView::Config(
            "schema_coercer"@,
            id,
            bn,
            match crate::selection::or_else(
                crate::selection::opt_text(env.model),
                crate::selection::or_else(crate::selection::config_string_spec(config, "model"@), codex_model),
            ) {
                Some(m) => m,
                None => Seq::empty(),
            },
        ) && crate::selection::provider_of(bn) == Some(backend),
{
}

/// The whip agent verifies what the governance agent signed: where the
/// attestation carries the hash of the canonical content and the content
/// re-canonicalizes to itself, verification gives the signer back.
pub proof fn law_signed_envelope_verifies(value: Json, canonical: String, signer: Seq<char>)
    requires
        value.get_spec("attestation"@) matches Some(att) && crate::gov::text_member(att, "envelope_hash"@) == Some(
            crate::gov::hex_of(crate::gov::sha256(vstd::utf8::encode_utf8(canonical@))),
        ) && crate::gov::text_member(att, "signer"@) == Some(signer),
    ensures
        crate::gov::verify_spec(value, Ok(canonical)) == Ok::<Seq<char>, Seq<char>>(signer),
{
}

/// Every file tool a turn is offered is one the profile policy allows and
/// the turn's grants allow.
pub proof fn law_offered_tools_are_allowed(caps: ToolCaps, read: bool, write: bool, run: bool, i: int)
    ensures
        ({
            let offered = crate::tools::file_tool_catalogue().filter(
                |t: (Seq<char>, Seq<char>, Seq<char>)| tool_allowed(caps, t.0),
            ).filter(|t: (Seq<char>, Seq<char>, Seq<char>)| crate::tools::turn_allows_file_tool(t.0, read, write, run));
            0 <= i < offered.len() ==> tool_allowed(caps, offered[i].0) && crate::tools::turn_allows_file_tool(
                offered[i].0,
                read,
                write,
                run,
            )
        }),
{
    let p1 = |t: (Seq<char>, Seq<char>, Seq<char>)| tool_allowed(caps, t.0);
    let p2 = |t: (Seq<char>, Seq<char>, Seq<char>)| crate::tools::turn_allows_file_tool(t.0, read, write, run);
    let allowed = crate::tools::file_tool_catalogue().filter(p1);
    let offered = allowed.filter(p2);
    if 0 <= i < offered.len() {
        allowed.lemma_filter_pred(p2, i);
        assert(p2(offered[i]));
        assert(offered.contains(offered[i]));
        allowed.lemma_filter_contains_rev(p2, offered[i]);
        let k = choose|k: int| 0 <= k < allowed.len() && allowed[k] == offered[i];
        crate::tools::file_tool_catalogue().lemma_filter_pred(p1, k);
        assert(p1(allowed[k]));
    }
}

/// A run of edits that succeeds applies every one of them.
pub proof fn law_all_edits_apply(edits: Seq<Json>, st: crate::edits::EditState, path: Seq<char>)
    ensures
        crate::edits::apply_edits_spec(edits, st, path) matches Ok(out) ==> out.applied == st.applied + edits.len(),
    decreases edits.len(),
{
    reveal(crate::edits::apply_edit);
    if edits.len() > 0 {
        law_all_edits_apply(edits.drop_last(), st, path);
    }
}

/// Without a governance envelope nothing is refused; a verified envelope
/// that governs every resource refuses nothing either.
pub proof fn law_governed_access_passes(status: crate::governance::EnvelopeStatus, items: Seq<Seq<char>>, governed: Seq<bool>, prefix: Seq<char>)
    ensures
        status is Ungoverned ==> crate::governance::governance_verdict(status, items, governed, prefix) is Ok,
        status is Verified && governed.len() == items.len() && (forall|i: int| 0 <= i < governed.len() ==> governed[i])
            ==> crate::governance::governance_verdict(status, items, governed, prefix) is Ok,
    decreases items.len(),
{
    if status is Verified && governed.len() == items.len() && (forall|i: int| 0 <= i < governed.len() ==> governed[i]) {
        lemma_all_governed(items, governed);
    }
}

proof fn lemma_all_governed(items: Seq<Seq<char>>, governed: Seq<bool>)
    requires
        governed.len() >= items.len(),
        forall|i: int| 0 <= i < governed.len() ==> governed[i],
    ensures
        crate::governance::unflagged(items, governed).len() == 0,
    decreases items.len(),
{
    if items.len() > 0 {
        lemma_all_governed(items.drop_last(), governed);
    }
}

proof fn lemma_first_error_all_ok<T>(items: Seq<T>, check: spec_fn(T) -> Result<(), Seq<char>>)
    ensures
        crate::host_policy::first_error(items, check) is Ok ==> forall|i: int| 0 <= i < items.len() ==> #[trigger] check(items[i]) is Ok,
    decreases items.len(),
{
    if items.len() > 0 {
        lemma_first_error_all_ok(items.drop_last(), check);
        if crate::host_policy::first_error(items, check) is Ok {
            assert forall|i: int| 0 <= i < items.len() implies #[trigger] check(items[i]) is Ok by {
                if i < items.len() - 1 {
                    assert(items.drop_last()[i] == items[i]);
                }
            }
        }
    }
}

/// A governance document that validates binds every resource handle to a
/// declared address, and every placement admits only declared provider
/// bindings, at least one.
pub proof fn law_valid_policy_is_closed(p: crate::host_policy::HostGovernancePolicy)
    ensures
        crate::host_policy::validate_spec(p) is Ok ==> (forall|i: int|
            0 <= i < p.bindings@.len() ==> crate::host_policy::lookup(p.resources@, (#[trigger] p.bindings@[i]).1@) is Some)
            && (forall|i: int|
            0 <= i < p.placements@.len() ==> (#[trigger] p.placements@[i]).1.provider_bindings@.len() > 0 && forall|j: int|
                0 <= j < p.placements@[i].1.provider_bindings@.len() ==> crate::host_policy::lookup(
                    p.provider_bindings@,
                    (#[trigger] p.placements@[i].1.provider_bindings@[j])@,
                ) is Some),
{
    if crate::host_policy::validate_spec(p) is Ok {
        lemma_first_error_all_ok(p.bindings@, crate::host_policy::binding_check(p));
        lemma_first_error_all_ok(p.capabilities@, crate::host_policy::capability_check());
        lemma_first_error_all_ok(p.provider_bindings@, crate::host_policy::provider_check(p));
        lemma_first_error_all_ok(p.placements@, crate::host_policy::placement_check(p));
        assert forall|i: int| 0 <= i < p.bindings@.len() implies crate::host_policy::lookup(
            p.resources@,
            (#[trigger] p.bindings@[i]).1@,
        ) is Some by {
            assert((crate::host_policy::binding_check(p))(p.bindings@[i]) is Ok);
        }
        assert forall|i: int| 0 <= i < p.placements@.len() implies (#[trigger] p.placements@[i]).1.provider_bindings@.len() > 0
            && forall|j: int|
            0 <= j < p.placements@[i].1.provider_bindings@.len() ==> crate::host_policy::lookup(
                p.provider_bindings@,
                (#[trigger] p.placements@[i].1.provider_bindings@[j])@,
            ) is Some by {
            let e = p.placements@[i];
            assert((crate::host_policy::placement_check(p))(e) is Ok);
            lemma_first_error_all_ok(e.1.provider_bindings@, crate::host_policy::placement_binding_check(p, e.0@));
            assert forall|j: int| 0 <= j < e.1.provider_bindings@.len() implies crate::host_policy::lookup(
                p.provider_bindings@,
                (#[trigger] e.1.provider_bindings@[j])@,
            ) is Some by {
                assert((crate::host_policy::placement_binding_check(p, e.0@))(e.1.provider_bindings@[j]) is Ok);
            }
        }
    }
}

/// A turn's prompt opens with the persona and always names the date and the
/// working directory.
pub proof fn law_prompt_shape(
    tools: Seq<crate::tools::ToolSpec>,
    date: Seq<char>,
    cwd: Seq<char>,
    skills: Seq<crate::lines::SkillCatalogueEntry>,
    project_context: Option<Seq<char>>,
)
    ensures
        ({
            let b = crate::prompt::owned_bundles_spec(tools, date, cwd, skills, project_context);
            &&& b[0].0 == crate::prompt::BundleKind::Persona
            &&& exists|i: int| 0 <= i < b.len() && (#[trigger] b[i]).0 == crate::prompt::BundleKind::Date && b[i].3 == "Current date: "@ + date
            &&& exists|i: int| 0 <= i < b.len() && (#[trigger] b[i]).0 == crate::prompt::BundleKind::Cwd && b[i].3 == "Current working directory: "@ + cwd
        }),
{
    let b = crate::prompt::owned_bundles_spec(tools, date, cwd, skills, project_context);
    let n = if tools.len() > 0 { 2int } else { 1int };
    assert(b[n + 1].0 == crate::prompt::BundleKind::Date);
    assert(b[n + 2].0 == crate::prompt::BundleKind::Cwd);
}


proof fn lemma_insert_then_get(ms: Seq<(Seq<char>, crate::json::JsonValue)>, k: Seq<char>, v: crate::json::JsonValue)
    ensures
        crate::builtins::map_has(crate::builtins::map_insert(ms, k, v), k),
        crate::builtins::map_get(crate::builtins::map_insert(ms, k, v), k) == v,
    decreases ms.len(),
{
    let m = crate::builtins::map_insert(ms, k, v);
    if ms.len() == 0 || ms[0].0 == k || lex_lt(k, ms[0].0) {
        assert(m[0] == (k, v));
    } else {
        lemma_insert_then_get(ms.drop_first(), k, v);
        let rest = crate::builtins::map_insert(ms.drop_first(), k, v);
        assert(m.drop_first() =~= rest);
        let j = choose|j: int| 0 <= j < rest.len() && (#[trigger] rest[j]).0 == k;
        assert(m[j + 1] == rest[j]);
    }
}

/// What is written at a data path is what is read back there: once setting
/// the member at `segs` to `v` succeeds, following `segs` in the new value
/// reaches `v`.
pub proof fn law_set_path_then_read(root: crate::json::JsonValue, segs: Seq<Seq<char>>, v: crate::json::JsonValue)
    requires
        crate::engine::set_path(root, segs, v) is Some,
    ensures
        crate::engine::get_path(crate::engine::set_path(root, segs, v)->Some_0, segs) == Some(v),
    decreases segs.len(),
{
    let ms = root->Object_0;
    if segs.len() == 1 {
        lemma_insert_then_get(ms, segs[0], v);
        assert(segs.drop_first() =~= Seq::<Seq<char>>::empty());
        assert(crate::engine::get_path(v, segs.drop_first()) == Some(v));
    } else {
        let child = if crate::builtins::map_has(ms, segs[0]) {
            crate::builtins::map_get(ms, segs[0])
        } else {
            crate::json::JsonValue::Object(Seq::empty())
        };
        law_set_path_then_read(child, segs.drop_first(), v);
        let c = crate::engine::set_path(child, segs.drop_first(), v)->Some_0;
        lemma_insert_then_get(ms, segs[0], c);
        let nr = crate::json::JsonValue::Object(crate::builtins::map_insert(ms, segs[0], c));
        assert(crate::engine::set_path(root, segs, v) == Some(nr));
        assert(crate::engine::get_path(nr, segs) == crate::engine::get_path(c, segs.drop_first()));
    }
}

/// The chain of states down to a target and the search for it agree: a
/// chain exists exactly when the state is found, it starts at a top-level
/// state and it ends at the state found.
pub proof fn law_chain_ends_at_found_state(states: Seq<crate::statechart::StateNode>, target: Seq<char>)
    ensures
        crate::statechart::chain_in(states, target) is Some <==> crate::statechart::find_in(states, target) is Some,
        crate::statechart::chain_in(states, target) matches Some(c) ==> {
            &&& c.len() >= 1
            &&& c.last() == crate::statechart::find_in(states, target)->Some_0
            &&& states.contains(c[0])
        },
    decreases states,
{
    if states.len() > 0 {
        broadcast use vstd::seq::axiom_seq_index_decreases, vstd::std_specs::vec::axiom_vec_decreases_to_view,
            vstd::seq::axiom_seq_subrange_decreases;
        assert(decreases_to!(states => states[0]));
        assert(decreases_to!(states[0] => states[0].states));
        assert(decreases_to!(states[0].states => states[0].states@));
        assert(states.drop_first() == states.subrange(1, states.len() as int));
        assert(decreases_to!(states => states.subrange(1, states.len() as int)));
        law_chain_ends_at_found_state(states[0].states@, target);
        law_chain_ends_at_found_state(states.drop_first(), target);
        if states[0].name@ != target {
            if let Some(c) = crate::statechart::chain_in(states[0].states@, target) {
                let whole = seq![states[0]] + c;
                assert(whole.last() == c.last());
                assert(whole[0] == states[0]);
            } else if let Some(c) = crate::statechart::chain_in(states.drop_first(), target) {
                assert(states.drop_first().contains(c[0]));
                let k = choose|k: int| 0 <= k < states.drop_first().len() && states.drop_first()[k] == c[0];
                assert(states[k + 1] == c[0]);
            }
        } else {
            assert(states[0] == states[0]);
        }
    }
}

} // verus!
