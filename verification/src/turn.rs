//! File-store scopes of one turn: store roots, the grant globs a turn asks
//! for, and the access a turn is given.
use vstd::prelude::*;
use crate::harness::TurnTrackerAccess;
use crate::order::{sorted_strict, sorted_unique, views};
use crate::text::{
    chars_eq, chars_match_at, chars_of, chars_slice, has_prefix, split_chars, split_on,
    string_from_chars, trim_chars, trim_spec,
};

verus! {

/// The pieces joined with `sep` between them (`join`).
pub open spec fn join_on(parts: Seq<Seq<char>>, sep: Seq<char>) -> Seq<char>
    decreases parts.len(),
{
    if parts.len() == 0 {
        Seq::empty()
    } else if parts.len() == 1 {
        parts[0]
    } else {
        join_on(parts.drop_last(), sep) + sep + parts.last()
    }
}

/// A root path component that normalization keeps: not empty, not `.`.
pub open spec fn kept_component(c: Seq<char>) -> bool {
    c.len() > 0 && c != seq!['.']
}

/// The kept components, in order.
pub open spec fn kept_components(cs: Seq<Seq<char>>) -> Seq<Seq<char>>
    decreases cs.len(),
{
    if cs.len() == 0 {
        Seq::empty()
    } else if kept_component(cs.last()) {
        kept_components(cs.drop_last()).push(cs.last())
    } else {
        kept_components(cs.drop_last())
    }
}

/// A file-store root normalized: trimmed, its `/`-separated components with
/// empty and `.` components dropped, joined with `/` (`""` is the workspace
/// root).
pub open spec fn normalized_root(root: Seq<char>) -> Seq<char> {
    join_on(kept_components(split_on(trim_spec(root), seq!['/'])), seq!['/'])
}

fn join_chars(parts: &Vec<Vec<char>>, sep: char) -> (r: Vec<char>)
    ensures
        r@ == join_on(parts@.map_values(|v: Vec<char>| v@), seq![sep]),
{
    let ghost pv = parts@.map_values(|v: Vec<char>| v@);
    let mut out: Vec<char> = Vec::new();
    let mut i: usize = 0;
    assert(pv.subrange(0, 0) =~= Seq::<Seq<char>>::empty());
    while i < parts.len()
        invariant
            i <= parts.len(),
            pv == parts@.map_values(|v: Vec<char>| v@),
            out@ == join_on(pv.subrange(0, i as int), seq![sep]),
        decreases parts.len() - i,
    {
        let ghost prev = pv.subrange(0, i as int);
        assert(pv.subrange(0, i + 1).drop_last() =~= prev);
        assert(pv.subrange(0, i + 1).last() == parts@[i as int]@);
        if i > 0 {
            out.push(sep);
            assert(out@ =~= join_on(prev, seq![sep]) + seq![sep]);
        }
        let part = &parts[i];
        let mut k: usize = 0;
        let ghost base = out@;
        while k < part.len()
            invariant
                k <= part.len(),
                out@ == base + part@.subrange(0, k as int),
            decreases part.len() - k,
        {
            out.push(part[k]);
            k += 1;
            assert(out@ =~= base + part@.subrange(0, k as int));
        }
        assert(part@.subrange(0, part@.len() as int) =~= part@);
        proof {
            if i == 0 {
                assert(pv.subrange(0, 1).len() == 1);
                assert(base =~= Seq::<char>::empty());
                assert(out@ =~= part@);
            }
        }
        i += 1;
    }
    assert(pv.subrange(0, parts@.len() as int) =~= pv);
    out
}

/// Normalizes a `file store` root to a `/`-joined path with no `.` or empty
/// components; `"."`, `"./"` and `""` all become `""`.
pub fn normalize_store_root(root: &str) -> (r: String)
    ensures
        r@ == normalized_root(root@),
{
    let cs = chars_of(root);
    let trimmed = trim_chars(&cs);
    let slash = vec!['/'];
    assert(slash@ =~= seq!['/']);
    let comps = split_chars(&trimmed, &slash);
    let ghost cv = comps@.map_values(|v: Vec<char>| v@);
    let mut kept: Vec<Vec<char>> = Vec::new();
    let mut i: usize = 0;
    let dot = vec!['.'];
    assert(dot@ =~= seq!['.']);
    assert(cv.subrange(0, 0) =~= Seq::<Seq<char>>::empty());
    assert(kept@.map_values(|v: Vec<char>| v@) =~= Seq::<Seq<char>>::empty());
    while i < comps.len()
        invariant
            i <= comps.len(),
            cv == comps@.map_values(|v: Vec<char>| v@),
            dot@ == seq!['.'],
            kept@.map_values(|v: Vec<char>| v@) == kept_components(cv.subrange(0, i as int)),
        decreases comps.len() - i,
    {
        let ghost prev = kept@.map_values(|v: Vec<char>| v@);
        assert(cv.subrange(0, i + 1).drop_last() =~= cv.subrange(0, i as int));
        assert(cv.subrange(0, i + 1).last() == comps@[i as int]@);
        let c = &comps[i];
        if c.len() > 0 && !chars_eq(c, &dot) {
            kept.push(c.clone());
            assert(kept@.map_values(|v: Vec<char>| v@) =~= prev.push(comps@[i as int]@));
        }
        i += 1;
    }
    assert(cv.subrange(0, comps@.len() as int) =~= cv);
    let joined = join_chars(&kept, '/');
    string_from_chars(&joined)
}

/// The store root contains the path: the workspace root contains every
/// path; otherwise the path is the root or lies under `root/`.
pub open spec fn root_contains(root: Seq<char>, path: Seq<char>) -> bool {
    root.len() == 0 || path == root || has_prefix(path, root.push('/'))
}

/// Whether the (normalized) store root contains the workspace-relative path.
pub fn store_root_contains(root: &str, path: &str) -> (r: bool)
    ensures
        r == root_contains(root@, path@),
{
    let rc = chars_of(root);
    let pc = chars_of(path);
    if rc.len() == 0 || chars_eq(&pc, &rc) {
        return true;
    }
    let mut with_slash = rc.clone();
    with_slash.push('/');
    assert(with_slash@ =~= rc@.push('/'));
    chars_match_at(&pc, 0, &with_slash)
}

/// The path relative to the store root: unchanged under the workspace root,
/// empty for the root itself, the part after `root/` when it lies below the
/// root, and unchanged otherwise.
pub open spec fn relative_to_root(root: Seq<char>, path: Seq<char>) -> Seq<char> {
    if root.len() == 0 {
        path
    } else if path == root {
        Seq::empty()
    } else if has_prefix(path, root.push('/')) {
        path.subrange(root.len() as int + 1, path.len() as int)
    } else {
        path
    }
}

/// The path re-expressed relative to the store root.
pub fn store_relative_path(root: &str, path: &str) -> (r: String)
    ensures
        r@ == relative_to_root(root@, path@),
{
    let rc = chars_of(root);
    let pc = chars_of(path);
    if rc.len() == 0 {
        return path.to_owned();
    }
    if chars_eq(&pc, &rc) {
        return String::new();
    }
    let mut with_slash = rc.clone();
    with_slash.push('/');
    assert(with_slash@ =~= rc@.push('/'));
    if chars_match_at(&pc, 0, &with_slash) {
        let rest = chars_slice(&pc, with_slash.len(), pc.len());
        string_from_chars(&rest)
    } else {
        path.to_owned()
    }
}

/// One granted file store's scope for a turn: the store's root, the globs
/// the turn grant asks for (`None`: not granted; empty: anything in the
/// root) and the store's own `allow` globs (empty: anything in the root).
#[derive(Clone, Debug)]
pub struct FileStoreScope {
    pub store_name: String,
    pub root: String,
    pub grant_read: Option<Vec<String>>,
    pub grant_write: Option<Vec<String>>,
    pub store_read: Vec<String>,
    pub store_write: Vec<String>,
}

/// The per-turn file authority: one scope per granted file store.
#[derive(Clone, Debug)]
pub struct TurnFileAccess {
    pub scopes: Vec<FileStoreScope>,
}

impl TurnFileAccess {
    /// No file store granted.
    pub fn deny_all() -> (r: Self)
        ensures
            r.scopes@.len() == 0,
    {
        TurnFileAccess { scopes: Vec::new() }
    }

    /// Some granted store grants reads.
    pub fn grants_read(&self) -> (r: bool)
        ensures
            r == exists|i: int| 0 <= i < self.scopes@.len() && (#[trigger] self.scopes@[i]).grant_read is Some,
    {
        let mut i: usize = 0;
        while i < self.scopes.len()
            invariant
                i <= self.scopes@.len(),
                forall|j: int| 0 <= j < i ==> (#[trigger] self.scopes@[j]).grant_read is None,
            decreases self.scopes.len() - i,
        {
            if self.scopes[i].grant_read.is_some() {
                return true;
            }
            i += 1;
        }
        false
    }

    /// Some granted store grants writes.
    pub fn grants_write(&self) -> (r: bool)
        ensures
            r == exists|i: int| 0 <= i < self.scopes@.len() && (#[trigger] self.scopes@[i]).grant_write is Some,
    {
        let mut i: usize = 0;
        while i < self.scopes.len()
            invariant
                i <= self.scopes@.len(),
                forall|j: int| 0 <= j < i ==> (#[trigger] self.scopes@[j]).grant_write is None,
            decreases self.scopes.len() - i,
        {
            if self.scopes[i].grant_write.is_some() {
                return true;
            }
            i += 1;
        }
        false
    }
}

/// Everything one turn is granted: file stores, the file resources named,
/// command execution and tracker access.
#[derive(Clone, Debug)]
pub struct TurnToolAccess {
    pub file: TurnFileAccess,
    pub file_resources: Vec<String>,
    pub command_run: bool,
    pub tracker: TurnTrackerAccess,
}

impl TurnToolAccess {
    /// Nothing granted.
    pub fn deny_all() -> (r: Self)
        ensures
            r.file.scopes@.len() == 0,
            r.file_resources@.len() == 0,
            !r.command_run,
            !r.tracker.file && !r.tracker.claim && !r.tracker.finish && !r.tracker.release,
    {
        TurnToolAccess {
            file: TurnFileAccess::deny_all(),
            file_resources: Vec::new(),
            command_run: false,
            tracker: TurnTrackerAccess::deny_all(),
        }
    }
}

/// The globs `slot` holds after a grant with `globs` merges into it: a first
/// grant is taken as it is; an unrestricted grant (empty) stays
/// unrestricted and makes the merge unrestricted; otherwise the union,
/// sorted and without duplicates.
pub open spec fn merged_globs(old: Option<Seq<Seq<char>>>, globs: Seq<Seq<char>>, new: Option<Seq<Seq<char>>>) -> bool {
    match old {
        None => new == Some(globs),
        Some(e) => if e.len() == 0 {
            new == Some(e)
        } else if globs.len() == 0 {
            new == Some(Seq::<Seq<char>>::empty())
        } else {
            new matches Some(n) && sorted_strict(n) && forall|x: Seq<char>|
                n.contains(x) <==> (e.contains(x) || globs.contains(x))
        },
    }
}

/// The union of two glob lists, sorted and without duplicates.
pub open spec fn sorted_union(a: Seq<Seq<char>>, b: Seq<Seq<char>>) -> Seq<Seq<char>> {
    choose|n: Seq<Seq<char>>|
        sorted_strict(n) && forall|x: Seq<char>| #[trigger] n.contains(x) <==> (a.contains(x) || b.contains(x))
}

/// The globs a slot holds after a grant with `globs` merges into it, as a
/// function: the sorted union is the one strictly sorted list of the
/// union's strings.
pub open spec fn merge_globs(old: Option<Seq<Seq<char>>>, globs: Seq<Seq<char>>) -> Option<Seq<Seq<char>>> {
    match old {
        None => Some(globs),
        Some(e) => if e.len() == 0 {
            Some(e)
        } else if globs.len() == 0 {
            Some(Seq::<Seq<char>>::empty())
        } else {
            Some(sorted_union(e, globs))
        },
    }
}

/// A merge leaves exactly the globs `merge_globs` names.
pub proof fn lemma_merged_globs_functional(old: Option<Seq<Seq<char>>>, globs: Seq<Seq<char>>, new: Option<Seq<Seq<char>>>)
    requires
        merged_globs(old, globs, new),
    ensures
        new == merge_globs(old, globs),
{
    if let Some(e) = old {
        if e.len() > 0 && globs.len() > 0 {
            let n = new->0;
            assert(sorted_strict(n) && forall|x: Seq<char>| #[trigger] n.contains(x) <==> (e.contains(x) || globs.contains(x)));
            let c = sorted_union(e, globs);
            crate::order::lemma_sorted_strict_unique(n, c);
        }
    }
}

/// The views of optional string lists.
pub open spec fn opt_views(o: Option<Vec<String>>) -> Option<Seq<Seq<char>>> {
    match o {
        Some(v) => Some(views(v@)),
        None => None,
    }
}

/// Merges a grant's globs into a store scope's glob slot.
pub fn merge_grant_globs(slot: &mut Option<Vec<String>>, globs: Vec<String>)
    ensures
        merged_globs(opt_views(*old(slot)), views(globs@), opt_views(*final(slot))),
        opt_views(*final(slot)) == merge_globs(opt_views(*old(slot)), views(globs@)),
{
    merge_grant_globs_into(slot, globs);
    proof {
        lemma_merged_globs_functional(opt_views(*old(slot)), views(globs@), opt_views(*slot));
    }
}

fn merge_grant_globs_into(slot: &mut Option<Vec<String>>, globs: Vec<String>)
    ensures
        merged_globs(opt_views(*old(slot)), views(globs@), opt_views(*final(slot))),
{
    let current = slot.take();
    match current {
        None => {
            *slot = Some(globs);
        },
        Some(existing) => {
            if existing.len() == 0 {
                *slot = Some(existing);
            } else if globs.len() == 0 {
                let empty: Vec<String> = Vec::new();
                assert(views(empty@) =~= Seq::<Seq<char>>::empty());
                *slot = Some(empty);
            } else {
                let mut all = existing.clone();
                let mut k: usize = 0;
                let ghost e = views(existing@);
                let ghost g = views(globs@);
                while k < globs.len()
                    invariant
                        k <= globs.len(),
                        e == views(existing@),
                        g == views(globs@),
                        views(all@) == e + g.subrange(0, k as int),
                    decreases globs.len() - k,
                {
                    let item = globs[k].clone();
                    assert(item@ == g[k as int]);
                    let ghost before = all@;
                    all.push(item);
                    assert(views(all@) =~= views(before).push(g[k as int]));
                    assert(g.subrange(0, k + 1) =~= g.subrange(0, k as int).push(g[k as int]));
                    k += 1;
                    assert(views(all@) =~= e + g.subrange(0, k as int));
                }
                assert(g.subrange(0, globs@.len() as int) =~= g);
                let merged = sorted_unique(all);
                proof {
                    assert forall|x: Seq<char>| (e + g).contains(x) <==> (e.contains(x) || g.contains(x)) by {
                        if (e + g).contains(x) {
                            let k = choose|k: int| 0 <= k < (e + g).len() && (e + g)[k] == x;
                            if k < e.len() {
                                assert(e[k] == x);
                            } else {
                                assert(g[k - e.len()] == x);
                            }
                        }
                        if e.contains(x) {
                            let k = choose|k: int| 0 <= k < e.len() && e[k] == x;
                            assert((e + g)[k] == x);
                        }
                        if g.contains(x) {
                            let k = choose|k: int| 0 <= k < g.len() && g[k] == x;
                            assert((e + g)[k + e.len()] == x);
                        }
                    }
                }
                *slot = Some(merged);
            }
        },
    }
}

} // verus!
