//! The unsigned JSON document of a host governance policy: its maps as
//! objects in key order, its sets and pair lists as arrays, and the flags
//! and label sets that are off or empty left out.
use vstd::prelude::*;
use crate::host_policy::{unit_view, validate_spec, HostGovernancePolicy, PlacementPolicy, ProviderBindingPolicy, ResourcePolicy};
use crate::json::{Json, JsonValue};
use crate::sse::{lemma_object_value, members_value};

verus! {

/// Strings as JSON string values.
pub open spec fn str_items(v: Seq<String>) -> Seq<JsonValue> {
    v.map_values(|s: String| JsonValue::Str(s@))
}

/// A member, where `present`.
pub open spec fn member_if(present: bool, key: Seq<char>, value: JsonValue) -> Seq<(Seq<char>, JsonValue)> {
    if present {
        seq![(key, value)]
    } else {
        Seq::empty()
    }
}

/// A resource policy: its reader and writer labels where there are any,
/// and its principal and internal flags where they are set.
pub open spec fn resource_value(r: ResourcePolicy) -> JsonValue {
    JsonValue::Object(
        member_if(r.reader@.len() > 0, "reader"@, JsonValue::Array(str_items(r.reader@)))
            + member_if(r.writer@.len() > 0, "writer"@, JsonValue::Array(str_items(r.writer@)))
            + member_if(r.principal, "principal"@, JsonValue::Bool(true))
            + member_if(r.internal, "internal"@, JsonValue::Bool(true)),
    )
}

/// A provider binding: provider, model, base URL and credential reference.
pub open spec fn provider_value(p: ProviderBindingPolicy) -> JsonValue {
    JsonValue::Object(
        seq![
            ("provider"@, JsonValue::Str(p.provider@)),
            ("model"@, JsonValue::Str(p.model@)),
            ("base_url"@, JsonValue::Str(p.base_url@)),
            ("credential_ref"@, JsonValue::Str(p.credential_ref@)),
        ],
    )
}

/// A placement: its kind, its provider bindings, and command network
/// access where it is allowed.
pub open spec fn placement_value(p: PlacementPolicy) -> JsonValue {
    JsonValue::Object(
        seq![
            ("kind"@, JsonValue::Str(p.kind@)),
            ("provider_bindings"@, JsonValue::Array(str_items(p.provider_bindings@))),
        ] + member_if(p.command_network, "command_network"@, JsonValue::Bool(true)),
    )
}

/// A map of strings to strings as an object.
pub open spec fn string_map_value(m: Seq<(String, String)>) -> JsonValue {
    JsonValue::Object(m.map_values(|e: (String, String)| (e.0@, JsonValue::Str(e.1@))))
}

/// A list of pairs as an array of two-element arrays.
pub open spec fn pairs_value(m: Seq<(String, String)>) -> JsonValue {
    JsonValue::Array(
        m.map_values(|e: (String, String)| JsonValue::Array(seq![JsonValue::Str(e.0@), JsonValue::Str(e.1@)])),
    )
}

/// The document of a policy, its fields in declaration order.
pub open spec fn policy_value(p: HostGovernancePolicy) -> JsonValue {
    JsonValue::Object(
        seq![
            ("resources"@, JsonValue::Object(p.resources@.map_values(|e: (String, ResourcePolicy)| (e.0@, resource_value(e.1))))),
            ("bindings"@, string_map_value(p.bindings@)),
            ("parties"@, string_map_value(p.parties@)),
            ("delegations"@, pairs_value(p.delegations@)),
            ("declassifications"@, pairs_value(p.declassifications@)),
            ("endorsements"@, pairs_value(p.endorsements@)),
            ("capabilities"@, JsonValue::Array(str_items(p.capabilities@))),
            ("provider_bindings"@, JsonValue::Object(p.provider_bindings@.map_values(|e: (String, ProviderBindingPolicy)| (e.0@, provider_value(e.1))))),
            ("placements"@, JsonValue::Object(p.placements@.map_values(|e: (String, PlacementPolicy)| (e.0@, placement_value(e.1))))),
        ],
    )
}

/// Strings as a JSON array of strings.
fn str_array(v: &Vec<String>) -> (r: Json)
    ensures
        r.value() == JsonValue::Array(str_items(v@)),
{
    let mut items: Vec<Json> = Vec::new();
    let mut i: usize = 0;
    while i < v.len()
        invariant
            i <= v.len(),
            items@.len() == i,
            forall|k: int| 0 <= k < i ==> (#[trigger] items@[k]).value() == JsonValue::Str(v@[k]@),
        decreases v.len() - i,
    {
        items.push(Json::Str(v[i].clone()));
        i += 1;
    }
    let r = Json::Array(items);
    assert(r.value()->Array_0 =~= str_items(v@));
    r
}

/// A resource policy as JSON.
fn resource_json(r: &ResourcePolicy) -> (j: Json)
    ensures
        j.value() == resource_value(*r),
{
    let mut ms: Vec<(String, Json)> = Vec::new();
    let ghost want = resource_value(*r)->Object_0;
    if r.reader.len() > 0 {
        ms.push(("reader".to_owned(), str_array(&r.reader)));
    }
    assert(members_value(ms@) =~= member_if(r.reader@.len() > 0, "reader"@, JsonValue::Array(str_items(r.reader@))));
    let ghost m1 = members_value(ms@);
    if r.writer.len() > 0 {
        ms.push(("writer".to_owned(), str_array(&r.writer)));
    }
    assert(members_value(ms@) =~= m1 + member_if(r.writer@.len() > 0, "writer"@, JsonValue::Array(str_items(r.writer@))));
    let ghost m2 = members_value(ms@);
    if r.principal {
        ms.push(("principal".to_owned(), Json::Bool(true)));
    }
    assert(members_value(ms@) =~= m2 + member_if(r.principal, "principal"@, JsonValue::Bool(true)));
    let ghost m3 = members_value(ms@);
    if r.internal {
        ms.push(("internal".to_owned(), Json::Bool(true)));
    }
    assert(members_value(ms@) =~= m3 + member_if(r.internal, "internal"@, JsonValue::Bool(true)));
    proof {
        lemma_object_value(ms);
    }
    Json::Object(ms)
}

/// A provider binding as JSON.
fn provider_json(p: &ProviderBindingPolicy) -> (j: Json)
    ensures
        j.value() == provider_value(*p),
{
    let mut ms: Vec<(String, Json)> = Vec::new();
    ms.push(("provider".to_owned(), Json::Str(p.provider.clone())));
    ms.push(("model".to_owned(), Json::Str(p.model.clone())));
    ms.push(("base_url".to_owned(), Json::Str(p.base_url.clone())));
    ms.push(("credential_ref".to_owned(), Json::Str(p.credential_ref.clone())));
    proof {
        lemma_object_value(ms);
    }
    let j = Json::Object(ms);
    assert(j.value()->Object_0 =~= provider_value(*p)->Object_0);
    j
}

/// A placement as JSON.
fn placement_json(p: &PlacementPolicy) -> (j: Json)
    ensures
        j.value() == placement_value(*p),
{
    let mut ms: Vec<(String, Json)> = Vec::new();
    ms.push(("kind".to_owned(), Json::Str(p.kind.clone())));
    ms.push(("provider_bindings".to_owned(), str_array(&p.provider_bindings)));
    if p.command_network {
        ms.push(("command_network".to_owned(), Json::Bool(true)));
    }
    proof {
        lemma_object_value(ms);
    }
    let j = Json::Object(ms);
    assert(j.value()->Object_0 =~= placement_value(*p)->Object_0);
    j
}

/// A map of strings to strings as a JSON object.
fn string_map_json(m: &Vec<(String, String)>) -> (j: Json)
    ensures
        j.value() == string_map_value(m@),
{
    let mut ms: Vec<(String, Json)> = Vec::new();
    let mut i: usize = 0;
    while i < m.len()
        invariant
            i <= m.len(),
            members_value(ms@) =~= m@.subrange(0, i as int).map_values(|e: (String, String)| (e.0@, JsonValue::Str(e.1@))),
        decreases m.len() - i,
    {
        let ghost before = members_value(ms@);
        let k = m[i].0.clone();
        let v = m[i].1.clone();
        ms.push((k, Json::Str(v)));
        assert(members_value(ms@) =~= before.push((m@[i as int].0@, JsonValue::Str(m@[i as int].1@))));
        assert(m@.subrange(0, i + 1).map_values(|e: (String, String)| (e.0@, JsonValue::Str(e.1@))) =~= m@.subrange(
            0,
            i as int,
        ).map_values(|e: (String, String)| (e.0@, JsonValue::Str(e.1@))).push((m@[i as int].0@, JsonValue::Str(m@[i as int].1@))));
        i += 1;
    }
    assert(m@.subrange(0, m.len() as int) =~= m@);
    proof {
        lemma_object_value(ms);
    }
    Json::Object(ms)
}

/// A list of pairs as a JSON array of two-element arrays.
fn pairs_json(m: &Vec<(String, String)>) -> (j: Json)
    ensures
        j.value() == pairs_value(m@),
{
    let mut items: Vec<Json> = Vec::new();
    let mut i: usize = 0;
    while i < m.len()
        invariant
            i <= m.len(),
            items@.len() == i,
            forall|k: int| 0 <= k < i ==> (#[trigger] items@[k]).value() == JsonValue::Array(
                seq![JsonValue::Str(m@[k].0@), JsonValue::Str(m@[k].1@)],
            ),
        decreases m.len() - i,
    {
        let a = m[i].0.clone();
        let b = m[i].1.clone();
        let mut pair: Vec<Json> = Vec::new();
        pair.push(Json::Str(a));
        pair.push(Json::Str(b));
        assert(pair@[0].value() == JsonValue::Str(m@[i as int].0@));
        assert(pair@[1].value() == JsonValue::Str(m@[i as int].1@));
        let p = Json::Array(pair);
        assert(p.value()->Array_0 =~= seq![JsonValue::Str(m@[i as int].0@), JsonValue::Str(m@[i as int].1@)]);
        items.push(p);
        i += 1;
    }
    let j = Json::Array(items);
    assert(j.value()->Array_0 =~= pairs_value(m@)->Array_0);
    j
}

/// The resources of a policy as a JSON object.
fn resources_json(m: &Vec<(String, ResourcePolicy)>) -> (j: Json)
    ensures
        j.value() == JsonValue::Object(m@.map_values(|e: (String, ResourcePolicy)| (e.0@, resource_value(e.1)))),
{
    let mut ms: Vec<(String, Json)> = Vec::new();
    let mut i: usize = 0;
    while i < m.len()
        invariant
            i <= m.len(),
            members_value(ms@) =~= m@.subrange(0, i as int).map_values(
                |e: (String, ResourcePolicy)| (e.0@, resource_value(e.1)),
            ),
        decreases m.len() - i,
    {
        let ghost before = members_value(ms@);
        let k = m[i].0.clone();
        let v = resource_json(&m[i].1);
        ms.push((k, v));
        assert(members_value(ms@) =~= before.push((m@[i as int].0@, resource_value(m@[i as int].1))));
        assert(m@.subrange(0, i + 1).map_values(|e: (String, ResourcePolicy)| (e.0@, resource_value(e.1))) =~= m@.subrange(
            0,
            i as int,
        ).map_values(|e: (String, ResourcePolicy)| (e.0@, resource_value(e.1))).push((m@[i as int].0@, resource_value(m@[i as int].1))));
        i += 1;
    }
    assert(m@.subrange(0, m.len() as int) =~= m@);
    proof {
        lemma_object_value(ms);
    }
    Json::Object(ms)
}

/// The provider bindings of a policy as a JSON object.
fn providers_json(m: &Vec<(String, ProviderBindingPolicy)>) -> (j: Json)
    ensures
        j.value() == JsonValue::Object(
            m@.map_values(|e: (String, ProviderBindingPolicy)| (e.0@, provider_value(e.1))),
        ),
{
    let mut ms: Vec<(String, Json)> = Vec::new();
    let mut i: usize = 0;
    while i < m.len()
        invariant
            i <= m.len(),
            members_value(ms@) =~= m@.subrange(0, i as int).map_values(
                |e: (String, ProviderBindingPolicy)| (e.0@, provider_value(e.1)),
            ),
        decreases m.len() - i,
    {
        let ghost before = members_value(ms@);
        let k = m[i].0.clone();
        let v = provider_json(&m[i].1);
        ms.push((k, v));
        assert(members_value(ms@) =~= before.push((m@[i as int].0@, provider_value(m@[i as int].1))));
        assert(m@.subrange(0, i + 1).map_values(|e: (String, ProviderBindingPolicy)| (e.0@, provider_value(e.1))) =~= m@.subrange(
            0,
            i as int,
        ).map_values(|e: (String, ProviderBindingPolicy)| (e.0@, provider_value(e.1))).push((m@[i as int].0@, provider_value(m@[i as int].1))));
        i += 1;
    }
    assert(m@.subrange(0, m.len() as int) =~= m@);
    proof {
        lemma_object_value(ms);
    }
    Json::Object(ms)
}

/// The placements of a policy as a JSON object.
fn placements_json(m: &Vec<(String, PlacementPolicy)>) -> (j: Json)
    ensures
        j.value() == JsonValue::Object(m@.map_values(|e: (String, PlacementPolicy)| (e.0@, placement_value(e.1)))),
{
    let mut ms: Vec<(String, Json)> = Vec::new();
    let mut i: usize = 0;
    while i < m.len()
        invariant
            i <= m.len(),
            members_value(ms@) =~= m@.subrange(0, i as int).map_values(
                |e: (String, PlacementPolicy)| (e.0@, placement_value(e.1)),
            ),
        decreases m.len() - i,
    {
        let ghost before = members_value(ms@);
        let k = m[i].0.clone();
        let v = placement_json(&m[i].1);
        ms.push((k, v));
        assert(members_value(ms@) =~= before.push((m@[i as int].0@, placement_value(m@[i as int].1))));
        assert(m@.subrange(0, i + 1).map_values(|e: (String, PlacementPolicy)| (e.0@, placement_value(e.1))) =~= m@.subrange(
            0,
            i as int,
        ).map_values(|e: (String, PlacementPolicy)| (e.0@, placement_value(e.1))).push((m@[i as int].0@, placement_value(m@[i as int].1))));
        i += 1;
    }
    assert(m@.subrange(0, m.len() as int) =~= m@);
    proof {
        lemma_object_value(ms);
    }
    Json::Object(ms)
}

impl HostGovernancePolicy {
    /// The unsigned document of the policy, once it validates; the
    /// validation error otherwise.
    pub fn to_json(&self) -> (r: Result<Json, String>)
        requires
            self.well_formed(),
        ensures
            match validate_spec(*self) {
                Ok(_) => r matches Ok(j) && j.value() == policy_value(*self),
                Err(e) => r matches Err(m) && m@ == e,
            },
    {
        match self.validate() {
            Err(e) => {
                return Err(e);
            },
            Ok(_) => {},
        }
        let mut ms: Vec<(String, Json)> = Vec::new();
        ms.push(("resources".to_owned(), resources_json(&self.resources)));
        ms.push(("bindings".to_owned(), string_map_json(&self.bindings)));
        ms.push(("parties".to_owned(), string_map_json(&self.parties)));
        ms.push(("delegations".to_owned(), pairs_json(&self.delegations)));
        ms.push(("declassifications".to_owned(), pairs_json(&self.declassifications)));
        ms.push(("endorsements".to_owned(), pairs_json(&self.endorsements)));
        ms.push(("capabilities".to_owned(), str_array(&self.capabilities)));
        ms.push(("provider_bindings".to_owned(), providers_json(&self.provider_bindings)));
        ms.push(("placements".to_owned(), placements_json(&self.placements)));
        proof {
            lemma_object_value(ms);
        }
        let j = Json::Object(ms);
        assert(j.value()->Object_0 =~= policy_value(*self)->Object_0);
        Ok(j)
    }
}

} // verus!
