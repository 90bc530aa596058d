//! Reading a turn's access grants, and the other optional parts of a turn's
//! input, from its JSON value.
use vstd::prelude::*;
use crate::json::Json;
use crate::order::{sorted_strict, sorted_unique, views};
use crate::text::{decimal, u64_to_decimal};
use crate::harness::TurnTrackerAccess;
use crate::text::str_eq;
use crate::turn::{merge_globs, merge_grant_globs, normalize_store_root, normalized_root, opt_views, FileStoreScope, TurnFileAccess, TurnToolAccess};

verus! {

/// The strings among `items`, in order; other items are skipped.
pub open spec fn strings_of(items: Seq<Json>) -> Seq<Seq<char>>
    decreases items.len(),
{
    if items.len() == 0 {
        Seq::empty()
    } else {
        let rest = strings_of(items.drop_last());
        match items.last().str_spec() {
            Some(s) => rest.push(s),
            None => rest,
        }
    }
}

/// The strings of an optional JSON array; empty for anything else.
pub open spec fn string_items(v: Option<Json>) -> Seq<Seq<char>> {
    match v {
        Some(Json::Array(items)) => strings_of(items@),
        _ => Seq::empty(),
    }
}

/// The strings of an array of JSON values, in order, others skipped.
fn strings_in(items: &Vec<Json>) -> (r: Vec<String>)
    ensures
        views(r@) == strings_of(items@),
{
    let mut r: Vec<String> = Vec::new();
    let mut i: usize = 0;
    while i < items.len()
        invariant
            i <= items.len(),
            views(r@) == strings_of(items@.subrange(0, i as int)),
        decreases items.len() - i,
    {
        proof {
            assert(items@.subrange(0, i + 1).drop_last() =~= items@.subrange(0, i as int));
            assert(items@.subrange(0, i + 1).last() == items@[i as int]);
        }
        match items[i].as_str() {
            Some(s) => {
                let ghost before = r@;
                r.push(s.to_owned());
                assert(views(r@) =~= views(before).push(s@));
            },
            None => {},
        }
        i += 1;
    }
    assert(items@.subrange(0, items.len() as int) =~= items@);
    r
}

/// The strings of an optional JSON array of strings (empty otherwise).
pub fn string_array(value: Option<&Json>) -> (r: Vec<String>)
    ensures
        views(r@) == string_items(match value {
            Some(v) => Some(*v),
            None => None,
        }),
{
    match value {
        Some(v) => match v.as_array() {
            Some(items) => strings_in(items),
            None => Vec::new(),
        },
        None => Vec::new(),
    }
}

/// The store policy a file grant carries: the normalized store root and its
/// `allow_read` / `allow_write` globs; all empty where there is none.
pub open spec fn store_policy_of(grant: Json) -> (Seq<char>, Seq<Seq<char>>, Seq<Seq<char>>) {
    match grant.get_spec("store_policy"@) {
        None => (Seq::empty(), Seq::empty(), Seq::empty()),
        Some(p) => (
            match p.get_spec("root"@) {
                Some(r) => match r.str_spec() {
                    Some(root) => normalized_root(root),
                    None => Seq::empty(),
                },
                None => Seq::empty(),
            },
            string_items(p.get_spec("allow_read"@)),
            string_items(p.get_spec("allow_write"@)),
        ),
    }
}

/// Reads the store policy a file grant carries.
pub fn parse_store_policy(grant: &Json) -> (r: (String, Vec<String>, Vec<String>))
    ensures
        (r.0@, views(r.1@), views(r.2@)) == store_policy_of(*grant),
{
    let policy = match grant.get("store_policy") {
        Some(p) => p,
        None => {
            let r = (String::new(), Vec::new(), Vec::new());
            assert(views(r.1@) =~= Seq::<Seq<char>>::empty());
            assert(views(r.2@) =~= Seq::<Seq<char>>::empty());
            return r;
        },
    };
    let root = match policy.get("root") {
        Some(v) => match v.as_str() {
            Some(s) => normalize_store_root(s),
            None => String::new(),
        },
        None => String::new(),
    };
    (root, string_array(policy.get("allow_read")), string_array(policy.get("allow_write")))
}

/// The strings of `items` when every item is a non-empty string.
pub open spec fn nonempty_strings(items: Seq<Json>) -> Option<Seq<Seq<char>>>
    decreases items.len(),
{
    if items.len() == 0 {
        Some(Seq::empty())
    } else {
        match nonempty_strings(items.drop_last()) {
            Some(rest) => match items.last().str_spec() {
                Some(s) => if s.len() > 0 {
                    Some(rest.push(s))
                } else {
                    None
                },
                None => None,
            },
            None => None,
        }
    }
}

/// The globs an access-grant operation names: none where it has no
/// `globs`; an error where `globs` is not an array of non-empty strings.
pub open spec fn operation_globs(operation: Json) -> Result<Seq<Seq<char>>, Seq<char>> {
    match operation.get_spec("globs"@) {
        None => Ok(Seq::empty()),
        Some(Json::Array(items)) => match nonempty_strings(items@) {
            Some(g) => Ok(g),
            None => Err("access grant operation glob must be a non-empty string"@),
        },
        Some(_) => Err("access grant operation `globs` must be an array"@),
    }
}

/// The views of a list of strings, or the error text.
pub open spec fn strings_result_view(r: Result<Vec<String>, String>) -> Result<Seq<Seq<char>>, Seq<char>> {
    match r {
        Ok(v) => Ok(views(v@)),
        Err(e) => Err(e@),
    }
}

/// Reads the globs of an access-grant operation.
pub fn globs_from_operation(operation: &Json) -> (r: Result<Vec<String>, String>)
    ensures
        strings_result_view(r) == operation_globs(*operation),
{
    let globs = match operation.get("globs") {
        Some(g) => g,
        None => {
            let r: Vec<String> = Vec::new();
            assert(views(r@) =~= Seq::<Seq<char>>::empty());
            return Ok(r);
        },
    };
    let items = match globs.as_array() {
        Some(items) => items,
        None => {
            return Err("access grant operation `globs` must be an array".to_owned());
        },
    };
    let mut r: Vec<String> = Vec::new();
    let mut i: usize = 0;
    while i < items.len()
        invariant
            i <= items.len(),
            *globs == Json::Array(*items),
            operation.get_spec("globs"@) == Some(*globs),
            nonempty_strings(items@.subrange(0, i as int)) == Some(views(r@)),
        decreases items.len() - i,
    {
        proof {
            assert(items@.subrange(0, i + 1).drop_last() =~= items@.subrange(0, i as int));
            assert(items@.subrange(0, i + 1).last() == items@[i as int]);
        }
        match items[i].as_str() {
            Some(s) => {
                if s.is_empty() {
                    proof {
                        lemma_nonempty_strings_extend_none(items@, i as int);
                    }
                    return Err("access grant operation glob must be a non-empty string".to_owned());
                }
                let ghost before = r@;
                r.push(s.to_owned());
                assert(views(r@) =~= views(before).push(s@));
            },
            None => {
                proof {
                    lemma_nonempty_strings_extend_none(items@, i as int);
                }
                return Err("access grant operation glob must be a non-empty string".to_owned());
            },
        }
        i += 1;
    }
    assert(items@.subrange(0, items.len() as int) =~= items@);
    Ok(r)
}

/// Once a prefix has an item that is not a non-empty string, so has every
/// longer prefix.
proof fn lemma_nonempty_strings_extend_none(items: Seq<Json>, i: int)
    requires
        0 <= i < items.len(),
        nonempty_strings(items.subrange(0, i + 1)) is None,
    ensures
        nonempty_strings(items) is None,
    decreases items.len() - i,
{
    if i + 1 < items.len() {
        assert(items.subrange(0, i + 2).drop_last() =~= items.subrange(0, i + 1));
        lemma_nonempty_strings_extend_none(items, i + 1);
    } else {
        assert(items.subrange(0, i + 1) =~= items);
    }
}

/// The resource name of the work tracker.
pub const TRACKER_RESOURCE: &'static str = "tracker";

/// A file store scope as the contracts read it.
pub struct ScopeView {
    pub store_name: Seq<char>,
    pub root: Seq<char>,
    pub grant_read: Option<Seq<Seq<char>>>,
    pub grant_write: Option<Seq<Seq<char>>>,
    pub store_read: Seq<Seq<char>>,
    pub store_write: Seq<Seq<char>>,
}

/// The view of a file store scope.
pub open spec fn scope_view(s: FileStoreScope) -> ScopeView {
    ScopeView {
        store_name: s.store_name@,
        root: s.root@,
        grant_read: opt_views(s.grant_read),
        grant_write: opt_views(s.grant_write),
        store_read: views(s.store_read@),
        store_write: views(s.store_write@),
    }
}

/// A turn's access as the contracts read it.
pub struct AccessView {
    pub scopes: Seq<ScopeView>,
    pub file_resources: Seq<Seq<char>>,
    pub command_run: bool,
    pub tracker: TurnTrackerAccess,
}

/// The view of a turn's access.
pub open spec fn access_view(a: TurnToolAccess) -> AccessView {
    AccessView {
        scopes: a.file.scopes@.map_values(|s: FileStoreScope| scope_view(s)),
        file_resources: views(a.file_resources@),
        command_run: a.command_run,
        tracker: a.tracker,
    }
}

/// Nothing granted.
pub open spec fn no_access() -> AccessView {
    AccessView {
        scopes: Seq::empty(),
        file_resources: Seq::empty(),
        command_run: false,
        tracker: TurnTrackerAccess { file: false, claim: false, finish: false, release: false },
    }
}

/// What the operations of one grant have gathered so far: its own read and
/// write globs, whether it names a file operation, and the turn's command
/// and tracker authority.
pub struct OpsView {
    pub read: Option<Seq<Seq<char>>>,
    pub write: Option<Seq<Seq<char>>>,
    pub has_file: bool,
    pub command_run: bool,
    pub tracker: TurnTrackerAccess,
}

/// The `operation` name of a grant operation; empty where it has none.
pub open spec fn operation_name(op: Json) -> Seq<char> {
    match op.get_spec("operation"@) {
        Some(v) => match v.str_spec() {
            Some(n) => n,
            None => Seq::empty(),
        },
        None => Seq::empty(),
    }
}

/// One operation of a grant on `resource`: file reads and writes on any
/// resource but the tracker gather globs; `run` on `command` allows
/// commands; the tracker operations grant what they name.
pub open spec fn apply_operation(st: OpsView, name: Seq<char>, resource: Seq<char>, globs: Seq<Seq<char>>) -> OpsView {
    let on_tracker = resource == TRACKER_RESOURCE@;
    let t = st.tracker;
    if (name == "read"@ || name == "import"@) && !on_tracker {
        OpsView { read: merge_globs(st.read, globs), write: st.write, has_file: true, command_run: st.command_run, tracker: t }
    } else if (name == "write"@ || name == "export"@) && !on_tracker {
        OpsView { read: st.read, write: merge_globs(st.write, globs), has_file: true, command_run: st.command_run, tracker: t }
    } else if name == "run"@ && resource == "command"@ {
        OpsView { read: st.read, write: st.write, has_file: st.has_file, command_run: true, tracker: t }
    } else if (name == "file"@ || name == "add"@) && on_tracker {
        OpsView { tracker: TurnTrackerAccess { file: true, claim: t.claim, finish: t.finish, release: t.release }, ..st }
    } else if name == "claim"@ && on_tracker {
        OpsView { tracker: TurnTrackerAccess { file: t.file, claim: true, finish: t.finish, release: t.release }, ..st }
    } else if (name == "finish"@ || name == "complete"@ || name == "close"@) && on_tracker {
        OpsView { tracker: TurnTrackerAccess { file: t.file, claim: t.claim, finish: true, release: t.release }, ..st }
    } else if (name == "release"@ || name == "reopen"@) && on_tracker {
        OpsView { tracker: TurnTrackerAccess { file: t.file, claim: t.claim, finish: t.finish, release: true }, ..st }
    } else if name == "update"@ && on_tracker {
        OpsView { tracker: TurnTrackerAccess { file: t.file, claim: true, finish: true, release: true }, ..st }
    } else if name == "write"@ && on_tracker {
        OpsView { tracker: TurnTrackerAccess { file: true, claim: true, finish: true, release: true }, ..st }
    } else {
        st
    }
}

/// The operations of a grant, in order; the first malformed `globs` ends
/// them with its error.
pub open spec fn apply_operations(ops: Seq<Json>, resource: Seq<char>, st: OpsView) -> Result<OpsView, Seq<char>>
    decreases ops.len(),
{
    if ops.len() == 0 {
        Ok(st)
    } else {
        match apply_operations(ops.drop_last(), resource, st) {
            Err(e) => Err(e),
            Ok(s2) => match operation_globs(ops.last()) {
                Err(e) => Err(e),
                Ok(g) => Ok(apply_operation(s2, operation_name(ops.last()), resource, g)),
            },
        }
    }
}

/// The non-empty `resource` string of a grant.
pub open spec fn grant_resource(grant: Json) -> Option<Seq<char>> {
    match grant.get_spec("resource"@) {
        Some(v) => match v.str_spec() {
            Some(r) => if r.len() > 0 {
                Some(r)
            } else {
                None
            },
            None => None,
        },
        None => None,
    }
}

/// The error for grant `k` without a resource.
pub open spec fn missing_resource_message(k: nat) -> Seq<char> {
    "access_grants["@ + decimal(k) + "] is missing `resource`"@
}

/// The error for grant `k` whose operations are not an array.
pub open spec fn operations_message(k: nat) -> Seq<char> {
    "access_grants["@ + decimal(k) + "].operations must be an array"@
}

/// The first scope of the named store.
pub open spec fn scope_index(scopes: Seq<ScopeView>, name: Seq<char>) -> Option<int>
    decreases scopes.len(),
{
    if scopes.len() == 0 {
        None
    } else {
        match scope_index(scopes.drop_last(), name) {
            Some(i) => Some(i),
            None => if scopes.last().store_name == name {
                Some(scopes.len() - 1)
            } else {
                None
            },
        }
    }
}

/// A repeated grant on a store merges into its scope: its globs merge into
/// the scope's, and the store policy fills what the scope lacks.
pub open spec fn merge_into_scope(
    s: ScopeView,
    read: Option<Seq<Seq<char>>>,
    write: Option<Seq<Seq<char>>>,
    policy: (Seq<char>, Seq<Seq<char>>, Seq<Seq<char>>),
) -> ScopeView {
    ScopeView {
        store_name: s.store_name,
        root: if s.root.len() == 0 {
            policy.0
        } else {
            s.root
        },
        grant_read: match read {
            Some(g) => merge_globs(s.grant_read, g),
            None => s.grant_read,
        },
        grant_write: match write {
            Some(g) => merge_globs(s.grant_write, g),
            None => s.grant_write,
        },
        store_read: if s.store_read.len() == 0 {
            policy.1
        } else {
            s.store_read
        },
        store_write: if s.store_write.len() == 0 {
            policy.2
        } else {
            s.store_write
        },
    }
}

/// A file grant on `resource`: the resource is listed once, and the store
/// gets a scope, or its existing scope takes the grant in.
pub open spec fn add_file_grant(
    acc: AccessView,
    resource: Seq<char>,
    read: Option<Seq<Seq<char>>>,
    write: Option<Seq<Seq<char>>>,
    policy: (Seq<char>, Seq<Seq<char>>, Seq<Seq<char>>),
) -> AccessView {
    AccessView {
        scopes: match scope_index(acc.scopes, resource) {
            Some(i) => acc.scopes.update(i, merge_into_scope(acc.scopes[i], read, write, policy)),
            None => acc.scopes.push(
                ScopeView {
                    store_name: resource,
                    root: policy.0,
                    grant_read: read,
                    grant_write: write,
                    store_read: policy.1,
                    store_write: policy.2,
                },
            ),
        },
        file_resources: if acc.file_resources.contains(resource) {
            acc.file_resources
        } else {
            acc.file_resources.push(resource)
        },
        command_run: acc.command_run,
        tracker: acc.tracker,
    }
}

/// Grant `k` applied to the access gathered so far.
pub open spec fn apply_grant(acc: AccessView, k: nat, grant: Json) -> Result<AccessView, Seq<char>> {
    match grant_resource(grant) {
        None => Err(missing_resource_message(k)),
        Some(resource) => match grant.get_spec("operations"@) {
            Some(Json::Array(ops)) => match apply_operations(
                ops@,
                resource,
                OpsView { read: None, write: None, has_file: false, command_run: acc.command_run, tracker: acc.tracker },
            ) {
                Err(e) => Err(e),
                Ok(st) => {
                    let acc2 = AccessView { command_run: st.command_run, tracker: st.tracker, ..acc };
                    if st.has_file {
                        Ok(add_file_grant(acc2, resource, st.read, st.write, store_policy_of(grant)))
                    } else {
                        Ok(acc2)
                    }
                },
            },
            _ => Err(operations_message(k)),
        },
    }
}

/// The grants applied in order; the first error ends them.
pub open spec fn apply_grants(grants: Seq<Json>, acc: AccessView) -> Result<AccessView, Seq<char>>
    decreases grants.len(),
{
    if grants.len() == 0 {
        Ok(acc)
    } else {
        match apply_grants(grants.drop_last(), acc) {
            Err(e) => Err(e),
            Ok(a2) => apply_grant(a2, (grants.len() - 1) as nat, grants.last()),
        }
    }
}

/// The access a turn's input grants: nothing without `access_grants`,
/// otherwise its grants applied in order.
pub open spec fn turn_access_of(input: Json) -> Result<AccessView, Seq<char>> {
    match input.get_spec("access_grants"@) {
        Some(Json::Array(grants)) => apply_grants(grants@, no_access()),
        _ => Ok(no_access()),
    }
}

/// The view of an access result.
pub open spec fn access_result_view(r: Result<TurnToolAccess, String>) -> Result<AccessView, Seq<char>> {
    match r {
        Ok(a) => Ok(access_view(a)),
        Err(e) => Err(e@),
    }
}

/// An error in an operation stays the grant's error however many
/// operations follow.
proof fn lemma_operations_error_persists(ops: Seq<Json>, resource: Seq<char>, st: OpsView, j: int, e: Seq<char>)
    requires
        0 <= j < ops.len(),
        apply_operations(ops.subrange(0, j + 1), resource, st) == Err::<OpsView, Seq<char>>(e),
    ensures
        apply_operations(ops, resource, st) == Err::<OpsView, Seq<char>>(e),
    decreases ops.len() - j,
{
    if j + 1 < ops.len() {
        assert(ops.subrange(0, j + 2).drop_last() =~= ops.subrange(0, j + 1));
        lemma_operations_error_persists(ops, resource, st, j + 1, e);
    } else {
        assert(ops.subrange(0, j + 1) =~= ops);
    }
}

/// An error in a grant stays the turn's error however many grants follow.
proof fn lemma_grants_error_persists(grants: Seq<Json>, acc: AccessView, k: int, e: Seq<char>)
    requires
        0 <= k < grants.len(),
        apply_grants(grants.subrange(0, k + 1), acc) == Err::<AccessView, Seq<char>>(e),
    ensures
        apply_grants(grants, acc) == Err::<AccessView, Seq<char>>(e),
    decreases grants.len() - k,
{
    if k + 1 < grants.len() {
        assert(grants.subrange(0, k + 2).drop_last() =~= grants.subrange(0, k + 1));
        lemma_grants_error_persists(grants, acc, k + 1, e);
    } else {
        assert(grants.subrange(0, k + 1) =~= grants);
    }
}

/// A scope found in a prefix is the first scope of that store in the whole.
proof fn lemma_scope_index_prefix(scopes: Seq<ScopeView>, name: Seq<char>, i: int)
    requires
        0 <= i < scopes.len(),
        scope_index(scopes.subrange(0, i + 1), name) == Some(i),
    ensures
        scope_index(scopes, name) == Some(i),
    decreases scopes.len() - i,
{
    if i + 1 < scopes.len() {
        let n = scopes.len();
        lemma_scope_index_grow(scopes, name, i, n - 1);
        assert(scopes.subrange(0, n as int) =~= scopes);
    } else {
        assert(scopes.subrange(0, i + 1) =~= scopes);
    }
}

proof fn lemma_scope_index_grow(scopes: Seq<ScopeView>, name: Seq<char>, i: int, m: int)
    requires
        0 <= i <= m < scopes.len(),
        scope_index(scopes.subrange(0, i + 1), name) == Some(i),
    ensures
        scope_index(scopes.subrange(0, m + 1), name) == Some(i),
    decreases m - i,
{
    if m > i {
        lemma_scope_index_grow(scopes, name, i, m - 1);
        assert(scopes.subrange(0, m + 1).drop_last() =~= scopes.subrange(0, m));
    }
    if m + 1 == scopes.len() {
        assert(scopes.subrange(0, m + 1) =~= scopes);
    }
}

/// `"access_grants[" k rest`.
fn grant_message(k: usize, rest: &str) -> (r: String)
    ensures
        r@ == "access_grants["@ + decimal(k as nat) + rest@,
{
    let mut m = "access_grants[".to_owned();
    let digits = u64_to_decimal(k as u64);
    m.append(digits.as_str());
    m.append(rest);
    m
}


/// The operations of one grant on `resource`, in order: the turn's command
/// and tracker authority change in place; the grant's own read and write
/// globs and whether it names a file operation come back.
fn apply_operations_exec(access: &mut TurnToolAccess, resource: &str, ops: &Vec<Json>) -> (r: Result<(Option<Vec<String>>, Option<Vec<String>>, bool), String>)
    ensures
        final(access).file == old(access).file,
        final(access).file_resources == old(access).file_resources,
        match r {
            Ok(t) => apply_operations(
                ops@,
                resource@,
                OpsView { read: None, write: None, has_file: false, command_run: old(access).command_run, tracker: old(access).tracker },
            ) == Ok::<OpsView, Seq<char>>(
                OpsView {
                    read: opt_views(t.0),
                    write: opt_views(t.1),
                    has_file: t.2,
                    command_run: final(access).command_run,
                    tracker: final(access).tracker,
                },
            ),
            Err(e) => apply_operations(
                ops@,
                resource@,
                OpsView { read: None, write: None, has_file: false, command_run: old(access).command_run, tracker: old(access).tracker },
            ) == Err::<OpsView, Seq<char>>(e@),
        },
{
    let ghost init = OpsView { read: None, write: None, has_file: false, command_run: access.command_run, tracker: access.tracker };
    let ghost file0 = access.file;
    let ghost res0 = access.file_resources;
    let mut read: Option<Vec<String>> = None;
    let mut write: Option<Vec<String>> = None;
    let mut has_file = false;
    let on_tracker = str_eq(resource, TRACKER_RESOURCE);
    let on_command = str_eq(resource, "command");
    proof {
        reveal_strlit("");
    }
    let mut j: usize = 0;
    while j < ops.len()
        invariant
            j <= ops.len(),
            on_tracker == (resource@ == TRACKER_RESOURCE@),
            on_command == (resource@ == "command"@),
            access.file == file0,
            access.file_resources == res0,
            file0 == old(access).file,
            res0 == old(access).file_resources,
            init == (OpsView { read: None, write: None, has_file: false, command_run: old(access).command_run, tracker: old(access).tracker }),
            apply_operations(ops@.subrange(0, j as int), resource@, init) == Ok::<OpsView, Seq<char>>(
                OpsView { read: opt_views(read), write: opt_views(write), has_file, command_run: access.command_run, tracker: access.tracker },
            ),
        decreases ops.len() - j,
    {
        proof {
            assert(ops@.subrange(0, j + 1).drop_last() =~= ops@.subrange(0, j as int));
            assert(ops@.subrange(0, j + 1).last() == ops@[j as int]);
        }
        let op = &ops[j];
        proof {
            reveal_strlit("");
        }
        let name: &str = match op.get("operation") {
            Some(v) => match v.as_str() {
                Some(n) => n,
                None => "",
            },
            None => "",
        };
        assert(name@ == operation_name(*op));
        let globs = match globs_from_operation(op) {
            Ok(g) => g,
            Err(e) => {
                proof {
                    lemma_operations_error_persists(ops@, resource@, init, j as int, e@);
                }
                return Err(e);
            },
        };
        if (str_eq(name, "read") || str_eq(name, "import")) && !on_tracker {
            has_file = true;
            merge_grant_globs(&mut read, globs);
        } else if (str_eq(name, "write") || str_eq(name, "export")) && !on_tracker {
            has_file = true;
            merge_grant_globs(&mut write, globs);
        } else if str_eq(name, "run") && on_command {
            access.command_run = true;
        } else if (str_eq(name, "file") || str_eq(name, "add")) && on_tracker {
            access.tracker.file = true;
        } else if str_eq(name, "claim") && on_tracker {
            access.tracker.claim = true;
        } else if (str_eq(name, "finish") || str_eq(name, "complete") || str_eq(name, "close")) && on_tracker {
            access.tracker.finish = true;
        } else if (str_eq(name, "release") || str_eq(name, "reopen")) && on_tracker {
            access.tracker.release = true;
        } else if str_eq(name, "update") && on_tracker {
            access.tracker.grant_update();
        } else if str_eq(name, "write") && on_tracker {
            access.tracker.grant_write();
        }
        j += 1;
    }
    assert(ops@.subrange(0, ops.len() as int) =~= ops@);
    Ok((read, write, has_file))
}

/// Applies grant `k` to the turn's access.
fn apply_grant_exec(access: &mut TurnToolAccess, k: usize, grant: &Json) -> (r: Result<(), String>)
    ensures
        match r {
            Ok(_) => apply_grant(access_view(*old(access)), k as nat, *grant) == Ok::<AccessView, Seq<char>>(
                access_view(*final(access)),
            ),
            Err(e) => apply_grant(access_view(*old(access)), k as nat, *grant) == Err::<AccessView, Seq<char>>(e@),
        },
{
    let ghost before = access_view(*access);
    let resource: &str = match grant.get("resource") {
        Some(v) => match v.as_str() {
            Some(s) => {
                if s.is_empty() {
                    return Err(grant_message(k, "] is missing `resource`"));
                }
                s
            },
            None => {
                return Err(grant_message(k, "] is missing `resource`"));
            },
        },
        None => {
            return Err(grant_message(k, "] is missing `resource`"));
        },
    };
    assert(grant_resource(*grant) == Some(resource@));
    let ops = match grant.get("operations") {
        Some(v) => match v.as_array() {
            Some(items) => items,
            None => {
                return Err(grant_message(k, "].operations must be an array"));
            },
        },
        None => {
            return Err(grant_message(k, "].operations must be an array"));
        },
    };
    let (read, write, has_file) = match apply_operations_exec(access, resource, ops) {
        Ok(t) => t,
        Err(e) => {
            return Err(e);
        },
    };
    if !has_file {
        assert(access_view(*access) =~= AccessView { command_run: access.command_run, tracker: access.tracker, ..before });
        return Ok(());
    }
    let ghost mid = access_view(*access);
    let ghost read_v = opt_views(read);
    let ghost write_v = opt_views(write);
    // the resource, listed once
    let mut listed = false;
    let mut i: usize = 0;
    while i < access.file_resources.len()
        invariant
            i <= access.file_resources.len(),
            mid.file_resources == views(access.file_resources@),
            listed == exists|x: int| 0 <= x < i && views(access.file_resources@)[x] == resource@,
        decreases access.file_resources.len() - i,
    {
        assert(views(access.file_resources@)[i as int] == access.file_resources@[i as int]@);
        if str_eq(access.file_resources[i].as_str(), resource) {
            listed = true;
        }
        i += 1;
    }
    if !listed {
        let ghost rs = access.file_resources@;
        access.file_resources.push(resource.to_owned());
        assert(views(access.file_resources@) =~= views(rs).push(resource@));
    }
    assert(views(access.file_resources@) == if mid.file_resources.contains(resource@) {
        mid.file_resources
    } else {
        mid.file_resources.push(resource@)
    });
    let (root, store_read, store_write) = parse_store_policy(grant);
    let ghost policy = store_policy_of(*grant);
    let ghost scopes0 = mid.scopes;
    // the store's scope, if it has one
    let mut found: Option<usize> = None;
    let mut i: usize = 0;
    while found.is_none() && i < access.file.scopes.len()
        invariant
            i <= access.file.scopes.len(),
            scopes0 == access.file.scopes@.map_values(|s: FileStoreScope| scope_view(s)),
            match found {
                Some(x) => x < access.file.scopes.len() && scope_index(scopes0, resource@) == Some(x as int),
                None => scope_index(scopes0.subrange(0, i as int), resource@) is None,
            },
        decreases access.file.scopes.len() - i,
    {
        proof {
            assert(scopes0.subrange(0, i + 1).drop_last() =~= scopes0.subrange(0, i as int));
            assert(scopes0.subrange(0, i + 1).last() == scope_view(access.file.scopes@[i as int]));
        }
        if str_eq(access.file.scopes[i].store_name.as_str(), resource) {
            found = Some(i);
            proof {
                lemma_scope_index_prefix(scopes0, resource@, i as int);
            }
        }
        i += 1;
    }
    proof {
        if found is None {
            assert(scopes0.subrange(0, scopes0.len() as int) =~= scopes0);
        }
    }
    match found {
        Some(i) => {
            let mut sc = access.file.scopes.remove(i);
            let ghost old_scope = scope_view(sc);
            match read {
                Some(g) => {
                    merge_grant_globs(&mut sc.grant_read, g);
                },
                None => {},
            }
            match write {
                Some(g) => {
                    merge_grant_globs(&mut sc.grant_write, g);
                },
                None => {},
            }
            if sc.root.as_str().is_empty() {
                sc.root = root;
            }
            if sc.store_read.len() == 0 {
                sc.store_read = store_read;
            }
            if sc.store_write.len() == 0 {
                sc.store_write = store_write;
            }
            assert(scope_view(sc) == merge_into_scope(old_scope, read_v, write_v, policy));
            let ghost removed = access.file.scopes@;
            access.file.scopes.insert(i, sc);
            proof {
                assert(access.file.scopes@.map_values(|s: FileStoreScope| scope_view(s)) =~= scopes0.update(
                    i as int,
                    merge_into_scope(scopes0[i as int], read_v, write_v, policy),
                ));
            }
        },
        None => {
            access.file.scopes.push(
                FileStoreScope {
                    store_name: resource.to_owned(),
                    root,
                    grant_read: read,
                    grant_write: write,
                    store_read,
                    store_write,
                },
            );
            proof {
                assert(access.file.scopes@.map_values(|s: FileStoreScope| scope_view(s)) =~= scopes0.push(
                    ScopeView {
                        store_name: resource@,
                        root: policy.0,
                        grant_read: read_v,
                        grant_write: write_v,
                        store_read: policy.1,
                        store_write: policy.2,
                    },
                ));
            }
        },
    }
    Ok(())
}

/// The tool access a turn's input grants: nothing without a non-empty
/// `access_grants` array; otherwise its grants in order, each on a
/// non-empty `resource` with an `operations` array. File reads and writes
/// give the store a scope (one per store, repeated grants merging their
/// globs), `run` on `command` allows commands, and the tracker operations
/// grant what they name. The first malformed grant is the error.
pub fn turn_tool_access_from_value(input: &Json) -> (r: Result<TurnToolAccess, String>)
    ensures
        access_result_view(r) == turn_access_of(*input),
{
    let none = TurnToolAccess::deny_all();
    proof {
        assert(access_view(none).scopes =~= Seq::<ScopeView>::empty());
        assert(access_view(none).file_resources =~= Seq::<Seq<char>>::empty());
        assert(access_view(none) == no_access());
    }
    let grants = match input.get("access_grants") {
        Some(g) => match g.as_array() {
            Some(items) => items,
            None => {
                return Ok(none);
            },
        },
        None => {
            return Ok(none);
        },
    };
    if grants.len() == 0 {
        return Ok(none);
    }
    let mut access = none;
    let mut k: usize = 0;
    while k < grants.len()
        invariant
            k <= grants.len(),
            input.get_spec("access_grants"@) == Some(Json::Array(*grants)),
            apply_grants(grants@.subrange(0, k as int), no_access()) == Ok::<AccessView, Seq<char>>(access_view(access)),
        decreases grants.len() - k,
    {
        proof {
            assert(grants@.subrange(0, k + 1).drop_last() =~= grants@.subrange(0, k as int));
            assert(grants@.subrange(0, k + 1).last() == grants@[k as int]);
        }
        match apply_grant_exec(&mut access, k, &grants[k]) {
            Ok(_) => {},
            Err(e) => {
                proof {
                    lemma_grants_error_persists(grants@, no_access(), k as int, e@);
                }
                return Err(e);
            },
        }
        k += 1;
    }
    assert(grants@.subrange(0, grants.len() as int) =~= grants@);
    Ok(access)
}

/// The file-store part of the access a turn's input grants.
pub fn turn_file_access_from_value(input: &Json) -> (r: Result<TurnFileAccess, String>)
    ensures
        match r {
            Ok(f) => turn_access_of(*input) matches Ok(a) && a.scopes == f.scopes@.map_values(
                |s: FileStoreScope| scope_view(s),
            ),
            Err(e) => turn_access_of(*input) == Err::<AccessView, Seq<char>>(e@),
        },
{
    match turn_tool_access_from_value(input) {
        Ok(a) => Ok(a.file),
        Err(e) => Err(e),
    }
}

/// The skills a turn pins (`turn_skills`), strings only.
pub fn turn_pinned_skills_from_value(input: &Json) -> (r: Vec<String>)
    ensures
        views(r@) == string_items(input.get_spec("turn_skills"@)),
{
    string_array(input.get("turn_skills"))
}

/// An image attached to a turn: its media type and base64 data.
#[derive(Clone, Debug)]
pub struct ImageBlock {
    pub media_type: String,
    pub data_base64: String,
}

/// The member `key` of an object, or where it is missing, `fallback`.
pub open spec fn member_or(item: Json, key: Seq<char>, fallback: Seq<char>) -> Option<Json> {
    match item.get_spec(key) {
        Some(v) => Some(v),
        None => item.get_spec(fallback),
    }
}

/// The non-empty string a member holds.
pub open spec fn nonempty_text(v: Option<Json>) -> Option<Seq<char>> {
    match v {
        Some(j) => match j.str_spec() {
            Some(s) => if s.len() > 0 {
                Some(s)
            } else {
                None
            },
            None => None,
        },
        None => None,
    }
}

/// The image an entry of `images` describes: a non-empty `media_type` (or
/// `mediaType`) and non-empty `data_base64` (or `data`).
pub open spec fn image_of(item: Json) -> Option<(Seq<char>, Seq<char>)> {
    match nonempty_text(member_or(item, "media_type"@, "mediaType"@)) {
        Some(m) => match nonempty_text(member_or(item, "data_base64"@, "data"@)) {
            Some(d) => Some((m, d)),
            None => None,
        },
        None => None,
    }
}

/// The images the entries describe, in order; incomplete entries are
/// skipped.
pub open spec fn images_of(items: Seq<Json>) -> Seq<(Seq<char>, Seq<char>)>
    decreases items.len(),
{
    if items.len() == 0 {
        Seq::empty()
    } else {
        let rest = images_of(items.drop_last());
        match image_of(items.last()) {
            Some(i) => rest.push(i),
            None => rest,
        }
    }
}

/// The view of a list of images.
pub open spec fn images_view(v: Seq<ImageBlock>) -> Seq<(Seq<char>, Seq<char>)> {
    v.map_values(|b: ImageBlock| (b.media_type@, b.data_base64@))
}

fn member_text<'a>(item: &'a Json, key: &str, fallback: &str) -> (r: Option<&'a str>)
    ensures
        match r {
            Some(s) => nonempty_text(member_or(*item, key@, fallback@)) == Some(s@),
            None => nonempty_text(member_or(*item, key@, fallback@)) is None,
        },
{
    let v = match item.get(key) {
        Some(v) => v,
        None => match item.get(fallback) {
            Some(v) => v,
            None => {
                return None;
            },
        },
    };
    match v.as_str() {
        Some(s) => if s.is_empty() {
            None
        } else {
            Some(s)
        },
        None => None,
    }
}

/// The images a turn's input attaches (`images`); entries missing a media
/// type or data are skipped.
pub fn turn_images_from_value(input: &Json) -> (r: Vec<ImageBlock>)
    ensures
        images_view(r@) == match input.get_spec("images"@) {
            Some(Json::Array(items)) => images_of(items@),
            _ => Seq::empty(),
        },
{
    let items = match input.get("images") {
        Some(v) => match v.as_array() {
            Some(items) => items,
            None => {
                let r: Vec<ImageBlock> = Vec::new();
                assert(images_view(r@) =~= Seq::<(Seq<char>, Seq<char>)>::empty());
                return r;
            },
        },
        None => {
            let r: Vec<ImageBlock> = Vec::new();
            assert(images_view(r@) =~= Seq::<(Seq<char>, Seq<char>)>::empty());
            return r;
        },
    };
    let mut r: Vec<ImageBlock> = Vec::new();
    let mut i: usize = 0;
    while i < items.len()
        invariant
            i <= items.len(),
            images_view(r@) == images_of(items@.subrange(0, i as int)),
        decreases items.len() - i,
    {
        proof {
            assert(items@.subrange(0, i + 1).drop_last() =~= items@.subrange(0, i as int));
            assert(items@.subrange(0, i + 1).last() == items@[i as int]);
        }
        match member_text(&items[i], "media_type", "mediaType") {
            Some(m) => match member_text(&items[i], "data_base64", "data") {
                Some(d) => {
                    let ghost before = r@;
                    r.push(ImageBlock { media_type: m.to_owned(), data_base64: d.to_owned() });
                    assert(images_view(r@) =~= images_view(before).push((m@, d@)));
                },
                None => {},
            },
            None => {},
        }
        i += 1;
    }
    assert(items@.subrange(0, items.len() as int) =~= items@);
    r
}

/// The first item that is not a non-empty string.
pub open spec fn first_bad_capability(items: Seq<Json>) -> Option<int>
    decreases items.len(),
{
    if items.len() == 0 {
        None
    } else {
        match first_bad_capability(items.drop_last()) {
            Some(k) => Some(k),
            None => if nonempty_text(Some(items.last())) is None {
                Some(items.len() - 1)
            } else {
                None
            },
        }
    }
}

/// The required capabilities an effect declares: an array of non-empty
/// strings, sorted and without duplicates; otherwise the error naming what
/// is wrong (the first bad item by its index).
pub fn required_capabilities_from_value(value: &Json) -> (r: Result<Vec<String>, String>)
    ensures
        match *value {
            Json::Array(items) => match first_bad_capability(items@) {
                Some(k) => strings_result_view(r) == Err::<Seq<Seq<char>>, Seq<char>>(
                    "effect required_capabilities["@ + decimal(k as nat) + "] must be a non-empty string"@,
                ),
                None => r matches Ok(v) && sorted_strict(views(v@)) && forall|x: Seq<char>|
                    views(v@).contains(x) <==> strings_of(items@).contains(x),
            },
            _ => strings_result_view(r) == Err::<Seq<Seq<char>>, Seq<char>>("effect required_capabilities must be an array"@),
        },
{
    let items = match value.as_array() {
        Some(items) => items,
        None => {
            return Err("effect required_capabilities must be an array".to_owned());
        },
    };
    let mut capabilities: Vec<String> = Vec::new();
    let mut i: usize = 0;
    while i < items.len()
        invariant
            i <= items.len(),
            *value == Json::Array(*items),
            first_bad_capability(items@.subrange(0, i as int)) is None,
            views(capabilities@) == strings_of(items@.subrange(0, i as int)),
        decreases items.len() - i,
    {
        proof {
            assert(items@.subrange(0, i + 1).drop_last() =~= items@.subrange(0, i as int));
            assert(items@.subrange(0, i + 1).last() == items@[i as int]);
        }
        let ok = match items[i].as_str() {
            Some(s) => !s.is_empty(),
            None => false,
        };
        if !ok {
            proof {
                lemma_first_bad_prefix(items@, i as int);
            }
            let mut m = "effect required_capabilities[".to_owned();
            let digits = u64_to_decimal(i as u64);
            m.append(digits.as_str());
            m.append("] must be a non-empty string");
            return Err(m);
        }
        let s = match items[i].as_str() {
            Some(s) => s,
            None => "",
        };
        let ghost before = capabilities@;
        capabilities.push(s.to_owned());
        assert(views(capabilities@) =~= views(before).push(s@));
        i += 1;
    }
    assert(items@.subrange(0, items.len() as int) =~= items@);
    Ok(sorted_unique(capabilities))
}

/// The first bad item of a prefix is the first bad item of the whole.
proof fn lemma_first_bad_prefix(items: Seq<Json>, i: int)
    requires
        0 <= i < items.len(),
        first_bad_capability(items.subrange(0, i)) is None,
        nonempty_text(Some(items[i])) is None,
    ensures
        first_bad_capability(items) == Some(i),
{
    assert(items.subrange(0, i + 1).drop_last() =~= items.subrange(0, i));
    lemma_first_bad_grow(items, i, items.len() - 1);
    assert(items.subrange(0, items.len() as int) =~= items);
}

proof fn lemma_first_bad_grow(items: Seq<Json>, i: int, m: int)
    requires
        0 <= i <= m < items.len(),
        first_bad_capability(items.subrange(0, i + 1)) == Some(i),
    ensures
        first_bad_capability(items.subrange(0, m + 1)) == Some(i),
    decreases m - i,
{
    if m > i {
        lemma_first_bad_grow(items, i, m - 1);
        assert(items.subrange(0, m + 1).drop_last() =~= items.subrange(0, m));
    }
}

} // verus!
