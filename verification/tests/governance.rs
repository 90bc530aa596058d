use whipplescript::access::turn_tool_access_from_value;
use whipplescript::executor::WorkflowToolEntry;
use whipplescript::gov::{hash_hex, verify_signed_envelope, SignedEnvelope};
use whipplescript::governance::{
    enforce_turn_access_governance, enforce_workflow_tool_invoke_governance, turn_access_resources,
    workflow_invoke_doors, EnvelopeStatus,
};
use whipplescript::host_policy::{
    require_principal_binding, HostGovernancePolicy, PlacementPolicy, ProviderBindingPolicy, ResourcePolicy,
};
use whipplescript::json::Json;

fn to_json(v: &serde_json::Value) -> Json {
    match v {
        serde_json::Value::Null => Json::Null,
        serde_json::Value::Bool(b) => Json::Bool(*b),
        serde_json::Value::Number(n) => Json::Number(n.to_string()),
        serde_json::Value::String(s) => Json::Str(s.clone()),
        serde_json::Value::Array(items) => Json::Array(items.iter().map(to_json).collect()),
        serde_json::Value::Object(members) => {
            Json::Object(members.iter().map(|(k, v)| (k.clone(), to_json(v))).collect())
        }
    }
}

fn from_json(v: &Json) -> serde_json::Value {
    match v {
        Json::Null => serde_json::Value::Null,
        Json::Bool(b) => serde_json::Value::Bool(*b),
        Json::Number(n) => serde_json::from_str(n).expect("number text"),
        Json::Str(s) => serde_json::Value::String(s.clone()),
        Json::Array(items) => serde_json::Value::Array(items.iter().map(from_json).collect()),
        Json::Object(members) => {
            let mut map = serde_json::Map::new();
            for (k, v) in members {
                map.insert(k.clone(), from_json(v));
            }
            serde_json::Value::Object(map)
        }
    }
}

fn parse(text: &str) -> Json {
    to_json(&serde_json::from_str(text).expect("valid json"))
}

/// The canonical content of the test envelope: its resources as canonical JSON.
const CANONICAL: &str = "{\"resources\":{\"ledger\":{\"reader\":\"Operator\"},\"outbox\":{\"reader\":\"public\"}}}";

/// The signed-envelope JSON of a signature: the resources and the attestation.
fn signed_json(signed: &SignedEnvelope) -> String {
    let canonical: serde_json::Value = serde_json::from_str(&signed.canonical).expect("canonical json");
    let mut attestation = serde_json::Map::new();
    attestation.insert("envelope_hash".to_owned(), serde_json::Value::String(signed.envelope_hash.clone()));
    attestation.insert("signer".to_owned(), serde_json::Value::String(signed.signer.clone()));
    let mut doc = serde_json::Map::new();
    doc.insert("resources".to_owned(), canonical["resources"].clone());
    doc.insert("attestation".to_owned(), serde_json::Value::Object(attestation));
    serde_json::Value::Object(doc).to_string()
}

/// The canonical content recomputed from a signed-envelope JSON's resources.
fn recanonical(json: &str) -> Result<String, String> {
    let value: serde_json::Value = serde_json::from_str(json).map_err(|e| e.to_string())?;
    let mut doc = serde_json::Map::new();
    doc.insert("resources".to_owned(), value["resources"].clone());
    Ok(serde_json::Value::Object(doc).to_string())
}

#[test]
fn governance_agent_signs_and_whip_agent_verifies() {
    let signed =
        SignedEnvelope::sign_with_privilege(Ok(CANONICAL.to_owned()), "alice@admin", true).expect("privileged");
    assert_eq!(signed.envelope_hash, hash_hex(CANONICAL));
    let json = signed_json(&signed);
    assert_eq!(verify_signed_envelope(&parse(&json), recanonical(&json)).expect("verifies"), "alice@admin");
}

#[test]
fn tampered_envelope_fails_verification() {
    let signed =
        SignedEnvelope::sign_with_privilege(Ok(CANONICAL.to_owned()), "alice@admin", true).expect("privileged");
    let json = signed_json(&signed);
    let tampered = json.replace("\"ledger\":{\"reader\":\"Operator\"}", "\"ledger\":{\"reader\":\"public\"}");
    assert_ne!(tampered, json, "test should actually modify the content");
    assert!(verify_signed_envelope(&parse(&tampered), recanonical(&tampered)).is_err());
}

#[test]
fn signing_passes_a_canonicalization_error_through() {
    let error = SignedEnvelope::sign_with_privilege(Err("bad config".to_owned()), "alice", true)
        .err()
        .expect("config error");
    assert_eq!(error, "bad config");
}

#[test]
fn unsigned_envelopes_are_rejected() {
    let error = verify_signed_envelope(&parse("{\"resources\":{}}"), Ok("{}".to_owned())).expect_err("unsigned");
    assert!(error.contains("no attestation"), "{error}");
    let error = verify_signed_envelope(&parse("{\"attestation\":{}}"), Ok("{}".to_owned())).expect_err("no hash");
    assert!(error.contains("no envelope_hash"), "{error}");
    let hash = hash_hex("{}");
    let anonymous = format!("{{\"attestation\":{{\"envelope_hash\":\"{hash}\"}}}}");
    assert_eq!(verify_signed_envelope(&parse(&anonymous), Ok("{}".to_owned())).expect("verifies"), "unknown");
}

fn access(text: &str) -> whipplescript::turn::TurnToolAccess {
    turn_tool_access_from_value(&parse(text)).expect("grants parse")
}

#[test]
fn turn_access_governance_requires_envelope_to_cover_file_resources() {
    let governed = access(
        r#"{"access_grants":[{"resource":"project_files","operations":[{"operation":"read","globs":["src/**"]}]}]}"#,
    );
    assert_eq!(turn_access_resources(&governed), vec!["project_files".to_owned()]);
    assert!(enforce_turn_access_governance(&governed, &EnvelopeStatus::Verified, &vec![true]).is_ok());
    let ungoverned = access(
        r#"{"access_grants":[{"resource":"secret_files","operations":[{"operation":"read","globs":["secrets/**"]}]}]}"#,
    );
    let error = enforce_turn_access_governance(&ungoverned, &EnvelopeStatus::Verified, &vec![false])
        .expect_err("ungoverned resource must fail closed");
    assert!(error.contains("not governed"), "{error}");
    assert!(error.contains("secret_files"), "{error}");
    let command = access(r#"{"access_grants":[{"resource":"command","operations":[{"operation":"run"}]}]}"#);
    assert_eq!(turn_access_resources(&command), vec!["command".to_owned()]);
    assert!(enforce_turn_access_governance(&command, &EnvelopeStatus::Verified, &vec![false]).is_err());
    let tracker = access(r#"{"access_grants":[{"resource":"tracker","operations":[{"operation":"file"}]}]}"#);
    assert_eq!(turn_access_resources(&tracker), vec!["tracker".to_owned()]);
    assert!(enforce_turn_access_governance(&tracker, &EnvelopeStatus::Verified, &vec![true]).is_ok());
}

#[test]
fn ungoverned_and_rejected_envelopes() {
    let any = access(r#"{"access_grants":[{"resource":"docs","operations":[{"operation":"read"}]}]}"#);
    assert!(enforce_turn_access_governance(&any, &EnvelopeStatus::Ungoverned, &Vec::new()).is_ok());
    let error = enforce_turn_access_governance(&any, &EnvelopeStatus::Rejected("bad hash".to_owned()), &Vec::new())
        .expect_err("rejected envelope fails");
    assert_eq!(error, "governance envelope rejected: bad hash");
}

fn tool(name: &str, package: &str) -> WorkflowToolEntry {
    WorkflowToolEntry {
        name: name.to_owned(),
        path: format!("{name}.whip"),
        root: name.to_owned(),
        package_id: package.to_owned(),
    }
}

#[test]
fn package_workflow_tool_invoke_requires_governed_door() {
    let local = vec![tool("LocalTool", "local")];
    assert!(workflow_invoke_doors(&local, "local").is_empty());
    assert!(enforce_workflow_tool_invoke_governance(&local, "local", &EnvelopeStatus::Verified, &Vec::new()).is_ok());
    let leaky = vec![tool("LocalTool", "local"), tool("LeakyTool", "package-leaky")];
    assert_eq!(
        workflow_invoke_doors(&leaky, "local"),
        vec![("LeakyTool".to_owned(), "invoke:package-leaky/LeakyTool".to_owned())]
    );
    let error = enforce_workflow_tool_invoke_governance(&leaky, "local", &EnvelopeStatus::Verified, &vec![false])
        .expect_err("cross-package tool invoke must be governed");
    assert!(error.contains("invoke:package-leaky/LeakyTool"), "{error}");
    assert!(enforce_workflow_tool_invoke_governance(&leaky, "local", &EnvelopeStatus::Verified, &vec![true]).is_ok());
}

fn principal() -> ResourcePolicy {
    ResourcePolicy { principal: true, ..ResourcePolicy::default() }
}

fn complete_policy() -> HostGovernancePolicy {
    HostGovernancePolicy {
        resources: vec![
            ("placement:local".to_owned(), principal()),
            ("provider:openai".to_owned(), principal()),
        ],
        bindings: vec![
            ("local".to_owned(), "placement:local".to_owned()),
            ("model".to_owned(), "provider:openai".to_owned()),
        ],
        capabilities: vec!["workspace.read".to_owned()],
        provider_bindings: vec![(
            "model".to_owned(),
            ProviderBindingPolicy {
                provider: "openai".to_owned(),
                model: "gpt-5".to_owned(),
                base_url: "https://api.openai.com/v1/responses".to_owned(),
                credential_ref: "credential:account:openai".to_owned(),
            },
        )],
        placements: vec![(
            "local".to_owned(),
            PlacementPolicy {
                kind: "local".to_owned(),
                provider_bindings: vec!["model".to_owned()],
                command_network: false,
            },
        )],
        ..HostGovernancePolicy::default()
    }
}

#[test]
fn validates_and_serializes_a_complete_host_policy() {
    let json = from_json(&complete_policy().to_json().expect("policy")).to_string();
    assert!(json.contains("credential:account:openai"));
    assert!(json.contains("workspace.read"));
}

#[test]
fn rejects_a_placement_that_widens_to_an_unknown_provider() {
    let mut policy = complete_policy();
    policy.placements[0].1.provider_bindings.push("other".to_owned());
    assert!(policy.validate().expect_err("unknown provider must fail").contains("undeclared provider"));
}

#[test]
fn host_policy_document_leaves_out_empty_labels_and_unset_flags() {
    let document = from_json(&complete_policy().to_json().expect("policy"));
    assert_eq!(document["resources"]["provider:openai"].to_string(), "{\"principal\":true}");
    assert_eq!(document["placements"]["local"].to_string(), "{\"kind\":\"local\",\"provider_bindings\":[\"model\"]}");
    assert_eq!(document["delegations"].to_string(), "[]");
    assert_eq!(document["bindings"]["model"], "provider:openai");
    let mut invalid = complete_policy();
    invalid.placements[0].1.provider_bindings.push("other".to_owned());
    assert!(invalid.to_json().is_err());
}

#[test]
fn host_policy_rejects_dangling_bindings_and_blank_fields() {
    let mut dangling = complete_policy();
    dangling.bindings.push(("zz".to_owned(), "missing:addr".to_owned()));
    let error = dangling.validate().expect_err("dangling binding");
    assert_eq!(error, "resource binding `zz` names undeclared address `missing:addr`");
    let mut blank = complete_policy();
    blank.capabilities.push("  ".to_owned());
    assert_eq!(blank.validate().expect_err("blank capability"), "capability must not be empty");
    let mut empty_placement = complete_policy();
    empty_placement.placements[0].1.provider_bindings.clear();
    assert_eq!(
        empty_placement.validate().expect_err("no provider binding"),
        "placement `local` admits no provider binding"
    );
}

#[test]
fn principal_binding_must_be_a_principal_of_the_right_kind() {
    let policy = complete_policy();
    assert!(require_principal_binding(&policy, "model", "provider").is_ok());
    assert!(require_principal_binding(&policy, "local", "provider").is_err());
    assert!(require_principal_binding(&policy, "nothing", "provider")
        .expect_err("unbound")
        .contains("has no resource binding"));
}

#[test]
fn policy_documents_hold_their_maps_in_key_order() {
    assert!(complete_policy().is_well_formed());
    let mut unordered = complete_policy();
    unordered.bindings.reverse();
    assert!(!unordered.is_well_formed());
}
