//! The governance document a host writes for its product authorities, and
//! the check of its referential shape.
//!
//! The document's maps and sets are lists of entries in key order, each key
//! once ([`HostGovernancePolicy::well_formed`]); a lookup reads the first
//! entry with the key.
use vstd::prelude::*;
use crate::order::{sorted_strict, strictly_sorted, views};
use crate::text::{chars_of, chars_starts_with, has_prefix, str_eq, trim_chars, trim_spec};

verus! {

/// Reader and writer labels of one canonical resource identity.
#[derive(Clone, Debug)]
pub struct ResourcePolicy {
    pub reader: Vec<String>,
    pub writer: Vec<String>,
    pub principal: bool,
    pub internal: bool,
}

/// The non-secret identity of one provider binding an epoch admits.
#[derive(Clone, Debug)]
pub struct ProviderBindingPolicy {
    pub provider: String,
    pub model: String,
    pub base_url: String,
    pub credential_ref: String,
}

/// Placement constraints below the policy envelope.
#[derive(Clone, Debug)]
pub struct PlacementPolicy {
    /// Stable placement class (`local`, `durable_object`, `wasm`, ...).
    pub kind: String,
    /// Provider binding handles this placement may realize.
    pub provider_bindings: Vec<String>,
    /// Whether commands of this placement may reach the network.
    pub command_network: bool,
}

/// The complete host-authored governance document.
#[derive(Clone, Debug)]
pub struct HostGovernancePolicy {
    pub resources: Vec<(String, ResourcePolicy)>,
    pub bindings: Vec<(String, String)>,
    pub parties: Vec<(String, String)>,
    pub delegations: Vec<(String, String)>,
    pub declassifications: Vec<(String, String)>,
    pub endorsements: Vec<(String, String)>,
    pub capabilities: Vec<String>,
    pub provider_bindings: Vec<(String, ProviderBindingPolicy)>,
    pub placements: Vec<(String, PlacementPolicy)>,
}

impl Default for ResourcePolicy {
    fn default() -> (r: Self)
        ensures
            r.reader@.len() == 0,
            r.writer@.len() == 0,
            !r.principal,
            !r.internal,
    {
        ResourcePolicy { reader: Vec::new(), writer: Vec::new(), principal: false, internal: false }
    }
}

impl Default for HostGovernancePolicy {
    fn default() -> (r: Self)
        ensures
            r.resources@.len() == 0,
            r.bindings@.len() == 0,
            r.parties@.len() == 0,
            r.delegations@.len() == 0,
            r.declassifications@.len() == 0,
            r.endorsements@.len() == 0,
            r.capabilities@.len() == 0,
            r.provider_bindings@.len() == 0,
            r.placements@.len() == 0,
    {
        HostGovernancePolicy {
            resources: Vec::new(),
            bindings: Vec::new(),
            parties: Vec::new(),
            delegations: Vec::new(),
            declassifications: Vec::new(),
            endorsements: Vec::new(),
            capabilities: Vec::new(),
            provider_bindings: Vec::new(),
            placements: Vec::new(),
        }
    }
}

/// Whether a flag is off (what the document leaves out when serialized).
pub fn is_false(value: &bool) -> (r: bool)
    ensures
        r == !*value,
{
    !*value
}

/// The first error of the checks over `items`, in order.
pub open spec fn first_error<T>(items: Seq<T>, check: spec_fn(T) -> Result<(), Seq<char>>) -> Result<(), Seq<char>>
    decreases items.len(),
{
    if items.len() == 0 {
        Ok(())
    } else {
        match first_error(items.drop_last(), check) {
            Err(e) => Err(e),
            Ok(_) => check(items.last()),
        }
    }
}

/// `a`, then `b` where `a` passed.
pub open spec fn and_then(a: Result<(), Seq<char>>, b: Result<(), Seq<char>>) -> Result<(), Seq<char>> {
    match a {
        Err(e) => Err(e),
        Ok(_) => b,
    }
}

/// A value that is blank after trimming is an error naming `what`.
pub open spec fn nonempty_spec(what: Seq<char>, value: Seq<char>) -> Result<(), Seq<char>> {
    if trim_spec(value).len() == 0 {
        Err(what + " must not be empty"@)
    } else {
        Ok(())
    }
}

/// The view of a unit result.
pub open spec fn unit_view(r: Result<(), String>) -> Result<(), Seq<char>> {
    match r {
        Ok(_) => Ok(()),
        Err(e) => Err(e@),
    }
}

/// A blank `value` is an error naming `what`.
pub fn nonempty(what: &str, value: &str) -> (r: Result<(), String>)
    ensures
        unit_view(r) == nonempty_spec(what@, value@),
{
    let cs = chars_of(value);
    let trimmed = trim_chars(&cs);
    if trimmed.len() == 0 {
        let mut m = what.to_owned();
        m.append(" must not be empty");
        Err(m)
    } else {
        Ok(())
    }
}

/// The value of the first entry with key `key`.
pub open spec fn lookup<V>(entries: Seq<(String, V)>, key: Seq<char>) -> Option<V>
    decreases entries.len(),
{
    if entries.len() == 0 {
        None
    } else if entries[0].0@ == key {
        Some(entries[0].1)
    } else {
        lookup(entries.drop_first(), key)
    }
}

/// The index of the first entry with key `key`.
fn find_key<V>(entries: &Vec<(String, V)>, key: &str) -> (r: Option<usize>)
    ensures
        match r {
            Some(i) => i < entries.len() && lookup(entries@, key@) == Some(entries@[i as int].1),
            None => lookup(entries@, key@) is None,
        },
{
    let mut i: usize = 0;
    assert(entries@.subrange(0, entries@.len() as int) =~= entries@);
    while i < entries.len()
        invariant
            i <= entries.len(),
            lookup(entries@, key@) == lookup(entries@.subrange(i as int, entries@.len() as int), key@),
        decreases entries.len() - i,
    {
        proof {
            assert(entries@.subrange(i as int, entries@.len() as int).drop_first() =~= entries@.subrange(
                i + 1,
                entries@.len() as int,
            ));
        }
        if str_eq(entries[i].0.as_str(), key) {
            return Some(i);
        }
        i += 1;
    }
    None
}

/// `kind` `` `handle` `` `rest`.
pub open spec fn handle_message(kind: Seq<char>, handle: Seq<char>, rest: Seq<char>) -> Seq<char> {
    kind + " `"@ + handle + "` "@ + rest
}

/// A provider or placement handle must be bound to an address naming a
/// governed resource that is a principal and whose address starts with
/// `<kind>:`.
pub open spec fn principal_binding_spec(policy: HostGovernancePolicy, handle: Seq<char>, kind: Seq<char>) -> Result<(), Seq<char>> {
    match lookup(policy.bindings@, handle) {
        None => Err(handle_message(kind, handle, "has no resource binding"@)),
        Some(address) => match lookup(policy.resources@, address@) {
            None => Err(handle_message(kind, handle, "has no governed resource"@)),
            Some(resource) => if !resource.principal || !has_prefix(address@, kind.push(':')) {
                Err(handle_message(kind, handle, "must bind to a principal `"@ + kind + ":\u{2026}` resource"@))
            } else {
                Ok(())
            },
        },
    }
}

fn handle_error(kind: &str, handle: &str, rest: &str) -> (r: String)
    ensures
        r@ == handle_message(kind@, handle@, rest@),
{
    let mut m = kind.to_owned();
    m.append(" `");
    m.append(handle);
    m.append("` ");
    m.append(rest);
    m
}

/// Checks that `handle` is bound to a principal `<kind>:` resource.
pub fn require_principal_binding(policy: &HostGovernancePolicy, handle: &str, expected_kind: &str) -> (r: Result<(), String>)
    ensures
        unit_view(r) == principal_binding_spec(*policy, handle@, expected_kind@),
{
    let b = match find_key(&policy.bindings, handle) {
        Some(b) => b,
        None => {
            return Err(handle_error(expected_kind, handle, "has no resource binding"));
        },
    };
    let address = policy.bindings[b].1.as_str();
    let res = match find_key(&policy.resources, address) {
        Some(i) => i,
        None => {
            return Err(handle_error(expected_kind, handle, "has no governed resource"));
        },
    };
    let mut prefix = chars_of(expected_kind);
    prefix.push(':');
    let address_chars = chars_of(address);
    if !policy.resources[res].1.principal || !chars_starts_with(&address_chars, &prefix) {
        let mut rest = "must bind to a principal `".to_owned();
        rest.append(expected_kind);
        rest.append(":\u{2026}` resource");
        return Err(handle_error(expected_kind, handle, rest.as_str()));
    }
    Ok(())
}

/// Once a check fails on a prefix, the checks over the whole fail the same.
proof fn lemma_first_error_persists<T>(items: Seq<T>, check: spec_fn(T) -> Result<(), Seq<char>>, i: int)
    requires
        0 <= i < items.len(),
        first_error(items.subrange(0, i + 1), check) is Err,
    ensures
        first_error(items, check) == first_error(items.subrange(0, i + 1), check),
    decreases items.len() - i,
{
    if i + 1 < items.len() {
        assert(items.subrange(0, i + 2).drop_last() =~= items.subrange(0, i + 1));
        lemma_first_error_persists(items, check, i + 1);
    } else {
        assert(items.subrange(0, i + 1) =~= items);
    }
}

/// A resource binding: a non-blank handle bound to a non-blank, declared
/// address.
pub open spec fn binding_check(p: HostGovernancePolicy) -> spec_fn((String, String)) -> Result<(), Seq<char>> {
    |e: (String, String)|
        and_then(
            nonempty_spec("resource handle"@, e.0@),
            and_then(
                nonempty_spec("resource address"@, e.1@),
                if lookup(p.resources@, e.1@) is None {
                    Err("resource binding `"@ + e.0@ + "` names undeclared address `"@ + e.1@ + "`"@)
                } else {
                    Ok(())
                },
            ),
        )
}

/// A capability: not blank.
pub open spec fn capability_check() -> spec_fn(String) -> Result<(), Seq<char>> {
    |c: String| nonempty_spec("capability"@, c@)
}

/// A provider binding: non-blank handle, provider, model, base URL and
/// credential reference, and a principal `provider:` resource binding.
pub open spec fn provider_check(p: HostGovernancePolicy) -> spec_fn((String, ProviderBindingPolicy)) -> Result<(), Seq<char>> {
    |e: (String, ProviderBindingPolicy)|
        and_then(
            nonempty_spec("provider binding handle"@, e.0@),
            and_then(
                nonempty_spec("provider"@, e.1.provider@),
                and_then(
                    nonempty_spec("provider model"@, e.1.model@),
                    and_then(
                        nonempty_spec("provider base URL"@, e.1.base_url@),
                        and_then(
                            nonempty_spec("credential reference"@, e.1.credential_ref@),
                            principal_binding_spec(p, e.0@, "provider"@),
                        ),
                    ),
                ),
            ),
        )
}

/// Each provider binding a placement names must be declared.
pub open spec fn placement_binding_check(p: HostGovernancePolicy, handle: Seq<char>) -> spec_fn(String) -> Result<(), Seq<char>> {
    |b: String|
        if lookup(p.provider_bindings@, b@) is None {
            Err("placement `"@ + handle + "` names undeclared provider binding `"@ + b@ + "`"@)
        } else {
            Ok(())
        }
}

/// A placement: non-blank handle and kind, a principal `placement:`
/// resource binding, and at least one provider binding, each declared.
pub open spec fn placement_check(p: HostGovernancePolicy) -> spec_fn((String, PlacementPolicy)) -> Result<(), Seq<char>> {
    |e: (String, PlacementPolicy)|
        and_then(
            nonempty_spec("placement handle"@, e.0@),
            and_then(
                nonempty_spec("placement kind"@, e.1.kind@),
                and_then(
                    principal_binding_spec(p, e.0@, "placement"@),
                    if e.1.provider_bindings@.len() == 0 {
                        Err("placement `"@ + e.0@ + "` admits no provider binding"@)
                    } else {
                        first_error(e.1.provider_bindings@, placement_binding_check(p, e.0@))
                    },
                ),
            ),
        )
}

/// A party: non-blank identity and role.
pub open spec fn party_check() -> spec_fn((String, String)) -> Result<(), Seq<char>> {
    |e: (String, String)| and_then(nonempty_spec("party identity"@, e.0@), nonempty_spec("party role"@, e.1@))
}

/// The document's referential shape, checked in order: resource bindings,
/// capabilities, provider bindings, placements, parties; the first failure
/// is the error.
pub open spec fn validate_spec(p: HostGovernancePolicy) -> Result<(), Seq<char>> {
    and_then(
        first_error(p.bindings@, binding_check(p)),
        and_then(
            first_error(p.capabilities@, capability_check()),
            and_then(
                first_error(p.provider_bindings@, provider_check(p)),
                and_then(first_error(p.placements@, placement_check(p)), first_error(p.parties@, party_check())),
            ),
        ),
    )
}

fn check_bindings(p: &HostGovernancePolicy) -> (r: Result<(), String>)
    ensures
        unit_view(r) == first_error(p.bindings@, binding_check(*p)),
{
    let mut i: usize = 0;
    while i < p.bindings.len()
        invariant
            i <= p.bindings.len(),
            first_error(p.bindings@.subrange(0, i as int), binding_check(*p)) == Ok::<(), Seq<char>>(()),
        decreases p.bindings.len() - i,
    {
        proof {
            assert(p.bindings@.subrange(0, i + 1).drop_last() =~= p.bindings@.subrange(0, i as int));
            assert(p.bindings@.subrange(0, i + 1).last() == p.bindings@[i as int]);
        }
        let handle = p.bindings[i].0.as_str();
        let address = p.bindings[i].1.as_str();
        let r = match nonempty("resource handle", handle) {
            Err(e) => Err(e),
            Ok(_) => match nonempty("resource address", address) {
                Err(e) => Err(e),
                Ok(_) => match find_key(&p.resources, address) {
                    None => {
                        let mut m = "resource binding `".to_owned();
                        m.append(handle);
                        m.append("` names undeclared address `");
                        m.append(address);
                        m.append("`");
                        Err(m)
                    },
                    Some(_) => Ok(()),
                },
            },
        };
        assert(unit_view(r) == (binding_check(*p))(p.bindings@[i as int]));
        match r {
            Err(e) => {
                proof {
                    lemma_first_error_persists(p.bindings@, binding_check(*p), i as int);
                }
                return Err(e);
            },
            Ok(_) => {},
        }
        i += 1;
    }
    assert(p.bindings@.subrange(0, p.bindings.len() as int) =~= p.bindings@);
    Ok(())
}

fn check_capabilities(p: &HostGovernancePolicy) -> (r: Result<(), String>)
    ensures
        unit_view(r) == first_error(p.capabilities@, capability_check()),
{
    let mut i: usize = 0;
    while i < p.capabilities.len()
        invariant
            i <= p.capabilities.len(),
            first_error(p.capabilities@.subrange(0, i as int), capability_check()) == Ok::<(), Seq<char>>(()),
        decreases p.capabilities.len() - i,
    {
        proof {
            assert(p.capabilities@.subrange(0, i + 1).drop_last() =~= p.capabilities@.subrange(0, i as int));
            assert(p.capabilities@.subrange(0, i + 1).last() == p.capabilities@[i as int]);
        }
        let r = nonempty("capability", p.capabilities[i].as_str());
        match r {
            Err(e) => {
                proof {
                    lemma_first_error_persists(p.capabilities@, capability_check(), i as int);
                }
                return Err(e);
            },
            Ok(_) => {},
        }
        i += 1;
    }
    assert(p.capabilities@.subrange(0, p.capabilities.len() as int) =~= p.capabilities@);
    Ok(())
}

fn check_providers(p: &HostGovernancePolicy) -> (r: Result<(), String>)
    ensures
        unit_view(r) == first_error(p.provider_bindings@, provider_check(*p)),
{
    let mut i: usize = 0;
    while i < p.provider_bindings.len()
        invariant
            i <= p.provider_bindings.len(),
            first_error(p.provider_bindings@.subrange(0, i as int), provider_check(*p)) == Ok::<(), Seq<char>>(()),
        decreases p.provider_bindings.len() - i,
    {
        proof {
            assert(p.provider_bindings@.subrange(0, i + 1).drop_last() =~= p.provider_bindings@.subrange(0, i as int));
            assert(p.provider_bindings@.subrange(0, i + 1).last() == p.provider_bindings@[i as int]);
        }
        let handle = p.provider_bindings[i].0.as_str();
        let b = &p.provider_bindings[i].1;
        let r = match nonempty("provider binding handle", handle) {
            Err(e) => Err(e),
            Ok(_) => match nonempty("provider", b.provider.as_str()) {
                Err(e) => Err(e),
                Ok(_) => match nonempty("provider model", b.model.as_str()) {
                    Err(e) => Err(e),
                    Ok(_) => match nonempty("provider base URL", b.base_url.as_str()) {
                        Err(e) => Err(e),
                        Ok(_) => match nonempty("credential reference", b.credential_ref.as_str()) {
                            Err(e) => Err(e),
                            Ok(_) => require_principal_binding(p, handle, "provider"),
                        },
                    },
                },
            },
        };
        assert(unit_view(r) == (provider_check(*p))(p.provider_bindings@[i as int]));
        match r {
            Err(e) => {
                proof {
                    lemma_first_error_persists(p.provider_bindings@, provider_check(*p), i as int);
                }
                return Err(e);
            },
            Ok(_) => {},
        }
        i += 1;
    }
    assert(p.provider_bindings@.subrange(0, p.provider_bindings.len() as int) =~= p.provider_bindings@);
    Ok(())
}

fn check_placement_bindings(p: &HostGovernancePolicy, handle: &str, bindings: &Vec<String>) -> (r: Result<(), String>)
    ensures
        unit_view(r) == first_error(bindings@, placement_binding_check(*p, handle@)),
{
    let mut i: usize = 0;
    while i < bindings.len()
        invariant
            i <= bindings.len(),
            first_error(bindings@.subrange(0, i as int), placement_binding_check(*p, handle@)) == Ok::<(), Seq<char>>(()),
        decreases bindings.len() - i,
    {
        proof {
            assert(bindings@.subrange(0, i + 1).drop_last() =~= bindings@.subrange(0, i as int));
            assert(bindings@.subrange(0, i + 1).last() == bindings@[i as int]);
        }
        match find_key(&p.provider_bindings, bindings[i].as_str()) {
            None => {
                let mut m = "placement `".to_owned();
                m.append(handle);
                m.append("` names undeclared provider binding `");
                m.append(bindings[i].as_str());
                m.append("`");
                proof {
                    lemma_first_error_persists(bindings@, placement_binding_check(*p, handle@), i as int);
                }
                return Err(m);
            },
            Some(_) => {},
        }
        i += 1;
    }
    assert(bindings@.subrange(0, bindings.len() as int) =~= bindings@);
    Ok(())
}

fn check_placements(p: &HostGovernancePolicy) -> (r: Result<(), String>)
    ensures
        unit_view(r) == first_error(p.placements@, placement_check(*p)),
{
    let mut i: usize = 0;
    while i < p.placements.len()
        invariant
            i <= p.placements.len(),
            first_error(p.placements@.subrange(0, i as int), placement_check(*p)) == Ok::<(), Seq<char>>(()),
        decreases p.placements.len() - i,
    {
        proof {
            assert(p.placements@.subrange(0, i + 1).drop_last() =~= p.placements@.subrange(0, i as int));
            assert(p.placements@.subrange(0, i + 1).last() == p.placements@[i as int]);
        }
        let handle = p.placements[i].0.as_str();
        let pl = &p.placements[i].1;
        let r = match nonempty("placement handle", handle) {
            Err(e) => Err(e),
            Ok(_) => match nonempty("placement kind", pl.kind.as_str()) {
                Err(e) => Err(e),
                Ok(_) => match require_principal_binding(p, handle, "placement") {
                    Err(e) => Err(e),
                    Ok(_) => if pl.provider_bindings.len() == 0 {
                        let mut m = "placement `".to_owned();
                        m.append(handle);
                        m.append("` admits no provider binding");
                        Err(m)
                    } else {
                        check_placement_bindings(p, handle, &pl.provider_bindings)
                    },
                },
            },
        };
        assert(unit_view(r) == (placement_check(*p))(p.placements@[i as int]));
        match r {
            Err(e) => {
                proof {
                    lemma_first_error_persists(p.placements@, placement_check(*p), i as int);
                }
                return Err(e);
            },
            Ok(_) => {},
        }
        i += 1;
    }
    assert(p.placements@.subrange(0, p.placements.len() as int) =~= p.placements@);
    Ok(())
}

fn check_parties(p: &HostGovernancePolicy) -> (r: Result<(), String>)
    ensures
        unit_view(r) == first_error(p.parties@, party_check()),
{
    let mut i: usize = 0;
    while i < p.parties.len()
        invariant
            i <= p.parties.len(),
            first_error(p.parties@.subrange(0, i as int), party_check()) == Ok::<(), Seq<char>>(()),
        decreases p.parties.len() - i,
    {
        proof {
            assert(p.parties@.subrange(0, i + 1).drop_last() =~= p.parties@.subrange(0, i as int));
            assert(p.parties@.subrange(0, i + 1).last() == p.parties@[i as int]);
        }
        let r = match nonempty("party identity", p.parties[i].0.as_str()) {
            Err(e) => Err(e),
            Ok(_) => nonempty("party role", p.parties[i].1.as_str()),
        };
        assert(unit_view(r) == (party_check())(p.parties@[i as int]));
        match r {
            Err(e) => {
                proof {
                    lemma_first_error_persists(p.parties@, party_check(), i as int);
                }
                return Err(e);
            },
            Ok(_) => {},
        }
        i += 1;
    }
    assert(p.parties@.subrange(0, p.parties.len() as int) =~= p.parties@);
    Ok(())
}

/// The keys of a list of entries.
pub open spec fn keys_of<V>(entries: Seq<(String, V)>) -> Seq<Seq<char>> {
    entries.map_values(|e: (String, V)| e.0@)
}

impl HostGovernancePolicy {
    /// The document as its maps and sets hold it: the entries of each map,
    /// and the items of each set, in strictly increasing key order (so each
    /// key once).
    pub open spec fn well_formed(self) -> bool {
        &&& sorted_strict(keys_of(self.resources@))
        &&& forall|i: int| 0 <= i < self.resources@.len() ==> sorted_strict(views(#[trigger] self.resources@[i].1.reader@))
            && sorted_strict(views(self.resources@[i].1.writer@))
        &&& sorted_strict(keys_of(self.bindings@))
        &&& sorted_strict(keys_of(self.parties@))
        &&& sorted_strict(views(self.capabilities@))
        &&& sorted_strict(keys_of(self.provider_bindings@))
        &&& sorted_strict(keys_of(self.placements@))
        &&& forall|i: int| 0 <= i < self.placements@.len() ==> sorted_strict(
            views(#[trigger] self.placements@[i].1.provider_bindings@),
        )
    }
}

/// The keys of a list of entries, in order.
fn entry_keys<V>(entries: &Vec<(String, V)>) -> (r: Vec<String>)
    ensures
        views(r@) == keys_of(entries@),
{
    let mut r: Vec<String> = Vec::new();
    let mut i: usize = 0;
    while i < entries.len()
        invariant
            i <= entries@.len(),
            views(r@) == keys_of(entries@).subrange(0, i as int),
        decreases entries.len() - i,
    {
        let ghost before = r@;
        r.push(entries[i].0.clone());
        assert(views(r@) =~= views(before).push(entries@[i as int].0@));
        assert(keys_of(entries@).subrange(0, i + 1) =~= keys_of(entries@).subrange(0, i as int).push(entries@[i as int].0@));
        i += 1;
    }
    assert(keys_of(entries@).subrange(0, entries@.len() as int) =~= keys_of(entries@));
    r
}

impl HostGovernancePolicy {
    /// Whether the document is as its maps and sets hold it.
    pub fn is_well_formed(&self) -> (r: bool)
        ensures
            r == self.well_formed(),
    {
        let mut i: usize = 0;
        while i < self.resources.len()
            invariant
                i <= self.resources@.len(),
                forall|k: int| 0 <= k < i ==> sorted_strict(views(#[trigger] self.resources@[k].1.reader@))
                    && sorted_strict(views(self.resources@[k].1.writer@)),
            decreases self.resources.len() - i,
        {
            if !strictly_sorted(&self.resources[i].1.reader) || !strictly_sorted(&self.resources[i].1.writer) {
                return false;
            }
            i += 1;
        }
        let mut i: usize = 0;
        while i < self.placements.len()
            invariant
                i <= self.placements@.len(),
                forall|k: int| 0 <= k < i ==> sorted_strict(views(#[trigger] self.placements@[k].1.provider_bindings@)),
            decreases self.placements.len() - i,
        {
            if !strictly_sorted(&self.placements[i].1.provider_bindings) {
                return false;
            }
            i += 1;
        }
        strictly_sorted(&entry_keys(&self.resources)) && strictly_sorted(&entry_keys(&self.bindings))
            && strictly_sorted(&entry_keys(&self.parties)) && strictly_sorted(&self.capabilities)
            && strictly_sorted(&entry_keys(&self.provider_bindings)) && strictly_sorted(
            &entry_keys(&self.placements),
        )
    }
}

impl HostGovernancePolicy {
    /// Checks the document's referential shape: every resource binding
    /// names a declared address; capabilities are not blank; every provider
    /// binding is complete and bound to a principal `provider:` resource;
    /// every placement is bound to a principal `placement:` resource and
    /// admits at least one declared provider binding; parties are complete.
    pub fn validate(&self) -> (r: Result<(), String>)
        requires
            self.well_formed(),
        ensures
            unit_view(r) == validate_spec(*self),
    {
        match check_bindings(self) {
            Err(e) => {
                return Err(e);
            },
            Ok(_) => {},
        }
        match check_capabilities(self) {
            Err(e) => {
                return Err(e);
            },
            Ok(_) => {},
        }
        match check_providers(self) {
            Err(e) => {
                return Err(e);
            },
            Ok(_) => {},
        }
        match check_placements(self) {
            Err(e) => {
                return Err(e);
            },
            Ok(_) => {},
        }
        check_parties(self)
    }
}

} // verus!
