use whipplescript::access::turn_tool_access_from_value;
use whipplescript::harness::{HarnessProfilePolicy, TOOL_BASH, TOOL_READ, TOOL_WRITE};
use whipplescript::json::Json;
use whipplescript::turn::merge_grant_globs;

fn to_json(v: &serde_json::Value) -> Json {
    match v {
        serde_json::Value::Null => Json::Null,
        serde_json::Value::Bool(b) => Json::Bool(*b),
        serde_json::Value::Number(n) => Json::Number(n.to_string()),
        serde_json::Value::String(s) => Json::Str(s.clone()),
        serde_json::Value::Array(items) => Json::Array(items.iter().map(to_json).collect()),
        serde_json::Value::Object(members) => {
            Json::Object(members.iter().map(|(k, v)| (k.clone(), to_json(v))).collect())
        }
    }
}

fn parse(text: &str) -> Json {
    to_json(&serde_json::from_str(text).expect("valid json"))
}

fn same_authority(a: &HarnessProfilePolicy, b: &HarnessProfilePolicy) -> bool {
    a.read_files == b.read_files
        && a.write_files == b.write_files
        && a.bash == b.bash
        && a.tracker_file == b.tracker_file
        && a.tracker_claim == b.tracker_claim
        && a.tracker_finish == b.tracker_finish
        && a.tracker_release == b.tracker_release
        && a.workflow_invoke == b.workflow_invoke
}

#[test]
fn intersecting_policies_commutes_and_never_widens() {
    let reader = HarnessProfilePolicy::for_profile(Some("repo-reader"));
    let writer = HarnessProfilePolicy::for_profile(Some("repo-writer"));
    let ab = reader.intersect(&writer);
    let ba = writer.intersect(&reader);
    assert!(same_authority(&ab, &ba));
    assert!(!ab.allows_tool(TOOL_WRITE));
    assert!(!ab.allows_tool(TOOL_BASH));
    assert!(ab.allows_tool(TOOL_READ));
    assert_eq!(ab.profile.as_deref(), Some("repo-reader"));
}

#[test]
fn permissive_policy_is_neutral_under_intersection() {
    let reader = HarnessProfilePolicy::for_profile(Some("repo-reader"));
    let both = HarnessProfilePolicy::permissive().intersect(&reader);
    assert!(same_authority(&both, &reader));
}

#[test]
fn repeating_a_grant_changes_nothing_more() {
    let mut slot: Option<Vec<String>> = Some(vec!["docs/**".to_owned()]);
    merge_grant_globs(&mut slot, vec!["src/**".to_owned(), "lib/**".to_owned()]);
    let once = slot.clone();
    assert_eq!(once, Some(vec!["docs/**".to_owned(), "lib/**".to_owned(), "src/**".to_owned()]));
    merge_grant_globs(&mut slot, vec!["src/**".to_owned(), "lib/**".to_owned()]);
    assert_eq!(slot, once);
    let mut unrestricted: Option<Vec<String>> = None;
    merge_grant_globs(&mut unrestricted, Vec::new());
    merge_grant_globs(&mut unrestricted, vec!["src/**".to_owned()]);
    assert_eq!(unrestricted, Some(Vec::new()));
}

#[test]
fn repeated_grants_on_one_store_share_one_scope() {
    let access = turn_tool_access_from_value(&parse(
        r#"{"access_grants":[
            {"resource":"project_files","operations":[{"operation":"read","globs":["src/**"]}]},
            {"resource":"project_files","operations":[{"operation":"write","globs":["src/**"]}]}
        ]}"#,
    ))
    .expect("grants parse");
    assert_eq!(access.file.scopes.len(), 1);
    assert_eq!(access.file_resources, vec!["project_files".to_owned()]);
    assert!(access.file.scopes[0].grant_read.is_some());
    assert!(access.file.scopes[0].grant_write.is_some());
}
