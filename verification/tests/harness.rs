use whipplescript::access::{
    required_capabilities_from_value, turn_file_access_from_value, turn_images_from_value,
    turn_pinned_skills_from_value, turn_tool_access_from_value,
};
use whipplescript::harness::{
    HarnessProfilePolicy, RegisteredProfilePolicy, TOOL_ADD_TODO, TOOL_BASH, TOOL_EDIT, TOOL_FIND, TOOL_GREP,
    TOOL_LIST_TODOS, TOOL_LS, TOOL_READ, TOOL_RECALL, TOOL_UPDATE_TODO, TOOL_WRITE,
};
use whipplescript::executor::WorkflowToolEntry;
use whipplescript::json::Json;
use whipplescript::owned::{
    compaction_kind, harness_model_config, harness_provider, lease_decision, merge_workflow_tools,
    owned_max_steps_from_value, owned_turn_policy, owned_turn_tools, owned_work_unit, CompactionKind, LeaseDecision,
    OWNED_MAX_STEPS,
};
use whipplescript::selection::CoerceProvider;
use whipplescript::lines::SkillCatalogueEntry;
use whipplescript::prompt::{owned_context_bundles, BundleKind, ContextBundle};
use whipplescript::tools::{
    file_tool_specs_for_policy, file_tool_specs_for_profile, file_tool_specs_for_turn, has_read_class_tool,
    tracker_tool_specs, tracker_tool_specs_for_turn, workflow_tool_specs_for_policy, ToolSpec,
};

fn to_json(v: &serde_json::Value) -> Json {
    match v {
        serde_json::Value::Null => Json::Null,
        serde_json::Value::Bool(b) => Json::Bool(*b),
        serde_json::Value::Number(n) => Json::Number(n.to_string()),
        serde_json::Value::String(s) => Json::Str(s.clone()),
        serde_json::Value::Array(items) => Json::Array(items.iter().map(to_json).collect()),
        serde_json::Value::Object(members) => {
            Json::Object(members.iter().map(|(k, v)| (k.clone(), to_json(v))).collect())
        }
    }
}

fn parse(text: &str) -> Json {
    to_json(&serde_json::from_str(text).expect("valid json"))
}

/// The system prompt the bundles assemble to, in order, blank-line separated.
fn system_prompt(bundles: &[ContextBundle]) -> String {
    bundles.iter().map(|b| b.body.as_str()).collect::<Vec<_>>().join("\n\n")
}

fn names(specs: Vec<ToolSpec>) -> Vec<String> {
    specs.into_iter().map(|spec| spec.name).collect()
}

fn tool(name: &str, description: &str) -> ToolSpec {
    ToolSpec { name: name.into(), description: description.into(), input_schema: "{}".into() }
}

#[test]
fn owned_context_prompt_mirrors_pi_shape_and_keeps_authority_contract() {
    let tools = vec![tool("read", "Read a file from the workspace.")];
    let bundles = owned_context_bundles(&tools, "2026-07-04", "/repo", &[], None);
    let prompt = system_prompt(&bundles);
    assert!(prompt.contains("authority granted for this turn"));
    assert!(prompt.contains("make no further tool calls"));
    assert!(prompt.contains("Available tools:"));
    assert!(prompt.contains("- read: Read a file from the workspace."));
    assert!(prompt.contains("Current date: 2026-07-04"));
    assert!(prompt.contains("Current working directory: /repo"));
    let persona_at = prompt.find("expert coding assistant").expect("persona marker present");
    let tools_at = prompt.find("Available tools:").expect("tools marker present");
    let date_at = prompt.find("Current date:").expect("date marker present");
    let cwd_at = prompt.find("Current working directory:").expect("cwd marker present");
    assert!(persona_at < tools_at && tools_at < date_at && date_at < cwd_at);
    assert_eq!(bundles.len(), 5);
}

#[test]
fn owned_context_prompt_omits_tool_list_when_no_tools_offered() {
    let bundles = owned_context_bundles(&Vec::new(), "2026-07-04", "/repo", &[], None);
    assert!(!system_prompt(&bundles).contains("Available tools:"));
    assert_eq!(bundles.len(), 4);
}

#[test]
fn available_skills_catalogue_renders_only_with_a_read_tool() {
    let read = vec![tool("read", "Read a file.")];
    let skills = vec![SkillCatalogueEntry {
        name: "triage".into(),
        description: "Triage the inbox.".into(),
        location: ".whipplescript/skills/triage/SKILL.md".into(),
    }];
    let with_read = owned_context_bundles(&read, "2026-07-04", "/repo", &skills, None);
    let prompt = system_prompt(&with_read);
    assert!(prompt.contains("<available_skills>"));
    assert!(prompt.contains("<skill name=\"triage\" location=\".whipplescript/skills/triage/SKILL.md\">"));
    assert!(prompt.contains("Triage the inbox."));
    assert!(with_read.iter().any(|bundle| bundle.kind == BundleKind::AvailableSkills));
    let no_read = owned_context_bundles(&Vec::new(), "2026-07-04", "/repo", &skills, None);
    assert!(!system_prompt(&no_read).contains("<available_skills>"));
}

#[test]
fn project_context_bundle_follows_the_working_directory() {
    let bundles = owned_context_bundles(&Vec::new(), "2026-07-04", "/repo", &[], Some("Use tabs.".to_owned()));
    assert_eq!(bundles.len(), 5);
    assert_eq!(bundles[3].kind, BundleKind::Cwd);
    assert_eq!(bundles[4].kind, BundleKind::ProjectContext);
    assert!(bundles[4].body.contains("Use tabs."));
}

#[test]
fn tool_snippets_keep_only_the_first_description_line() {
    let tools = vec![tool("grep", "Search files.\nSecond line.")];
    let prompt = system_prompt(&owned_context_bundles(&tools, "d", "/", &[], None));
    assert!(prompt.contains("- grep: Search files.\n"));
    assert!(!prompt.contains("Second line."));
}

#[test]
fn recall_is_a_read_class_tool_in_the_spec_set() {
    let specs = file_tool_specs_for_policy(&HarnessProfilePolicy::permissive());
    assert!(specs.iter().any(|s| s.name == TOOL_RECALL));
    assert!(HarnessProfilePolicy::permissive().allows_tool(TOOL_RECALL));
    assert!(has_read_class_tool(&specs));
    assert!(!has_read_class_tool(&tracker_tool_specs()));
}

#[test]
fn turn_images_from_input_parses_both_key_spellings_and_defaults_empty() {
    assert!(turn_images_from_value(&parse(r#"{"prompt":"work"}"#)).is_empty());
    let images = turn_images_from_value(&parse(
        r#"{
            "prompt": "what is this?",
            "images": [
                { "media_type": "image/png", "data_base64": "aGVsbG8=" },
                { "mediaType": "image/jpeg", "data": "QUJD" },
                { "media_type": "image/gif" }
            ]
        }"#,
    ));
    assert_eq!(images.len(), 2);
    assert_eq!(images[0].media_type, "image/png");
    assert_eq!(images[0].data_base64, "aGVsbG8=");
    assert_eq!(images[1].media_type, "image/jpeg");
    assert_eq!(images[1].data_base64, "QUJD");
}

#[test]
fn turn_tool_access_tracks_file_resources_for_governance() {
    let input = parse(
        r#"{
            "access_grants": [
                {"resource": "project_files", "operations": [{"operation": "read", "globs": ["src/**"]}]},
                {"resource": "command", "operations": [{"operation": "run"}]},
                {"resource": "docs", "operations": [{"operation": "write", "globs": ["docs/**"]}]}
            ]
        }"#,
    );
    let access = turn_tool_access_from_value(&input).expect("parse grants");
    assert_eq!(access.file_resources, vec!["project_files".to_owned(), "docs".to_owned()]);
    assert!(access.command_run);
}

fn access(text: &str) -> whipplescript::turn::TurnToolAccess {
    turn_tool_access_from_value(&parse(text)).expect("grants parse")
}

#[test]
fn tracker_write_grants_filter_model_facing_tracker_tools() {
    let policy = HarnessProfilePolicy::for_profile(Some("repo-writer"));
    let no_tracker = access(r#"{"prompt":"work"}"#);
    assert_eq!(names(tracker_tool_specs_for_turn(&policy, &no_tracker)), vec![TOOL_LIST_TODOS.to_owned()]);

    let file_only = access(r#"{"access_grants":[{"resource":"tracker","operations":[{"operation":"file"}]}]}"#);
    assert_eq!(
        names(tracker_tool_specs_for_turn(&policy, &file_only)),
        vec![TOOL_LIST_TODOS.to_owned(), TOOL_ADD_TODO.to_owned()]
    );

    let update = access(r#"{"access_grants":[{"resource":"tracker","operations":[{"operation":"finish"}]}]}"#);
    assert_eq!(
        names(tracker_tool_specs_for_turn(&policy, &update)),
        vec![TOOL_LIST_TODOS.to_owned(), TOOL_UPDATE_TODO.to_owned()]
    );

    let reader_policy = HarnessProfilePolicy::for_profile(Some("repo-reader"));
    assert_eq!(names(tracker_tool_specs_for_turn(&reader_policy, &file_only)), vec![TOOL_LIST_TODOS.to_owned()]);
}

#[test]
fn profile_policy_filters_model_facing_file_tools() {
    let names_for = |profile| names(file_tool_specs_for_profile(profile));

    let reader = names_for(Some("repo-reader"));
    assert!(reader.contains(&TOOL_READ.to_owned()));
    assert!(reader.contains(&TOOL_GREP.to_owned()));
    assert!(reader.contains(&TOOL_FIND.to_owned()));
    assert!(reader.contains(&TOOL_LS.to_owned()));
    assert!(!reader.contains(&TOOL_WRITE.to_owned()));
    assert!(!reader.contains(&TOOL_EDIT.to_owned()));
    assert!(!reader.contains(&TOOL_BASH.to_owned()));

    let writer = names_for(Some("repo-writer"));
    assert!(writer.contains(&TOOL_WRITE.to_owned()));
    assert!(writer.contains(&TOOL_EDIT.to_owned()));
    assert!(writer.contains(&TOOL_BASH.to_owned()));

    assert!(names_for(Some("no-repo")).is_empty());
}

#[test]
fn command_run_turn_grant_filters_model_facing_bash_tool() {
    let policy = HarnessProfilePolicy::for_profile(Some("repo-writer"));
    let without_command = access(r#"{"prompt":"work"}"#);
    let with_command = access(r#"{"access_grants":[{"resource":"command","operations":[{"operation":"run"}]}]}"#);
    assert!(!names(file_tool_specs_for_turn(&policy, &without_command)).contains(&TOOL_BASH.to_owned()));
    assert!(names(file_tool_specs_for_turn(&policy, &with_command)).contains(&TOOL_BASH.to_owned()));
}

#[test]
fn required_capabilities_json_must_be_a_string_array() {
    assert_eq!(
        required_capabilities_from_value(&parse(r#"["agent.tell","repo.read","repo.read"]"#))
            .expect("valid required capabilities"),
        vec!["agent.tell".to_owned(), "repo.read".to_owned()]
    );
    assert!(required_capabilities_from_value(&parse(r#"{"capability":"repo.read"}"#))
        .expect_err("non-array rejects")
        .contains("must be an array"));
    assert!(required_capabilities_from_value(&parse(r#"[1]"#))
        .expect_err("non-string rejects")
        .contains("non-empty string"));
}

#[test]
fn turn_file_grants_filter_model_facing_file_tools() {
    let policy = HarnessProfilePolicy::for_profile(Some("repo-writer"));
    let names_for = |text: &str| names(file_tool_specs_for_turn(&policy, &access(text)));

    let read_only = names_for(
        r#"{"access_grants":[{"resource":"project_files","operations":[{"operation":"read","globs":["src/**"]}]}]}"#,
    );
    assert!(read_only.contains(&TOOL_READ.to_owned()));
    assert!(read_only.contains(&TOOL_GREP.to_owned()));
    assert!(read_only.contains(&TOOL_FIND.to_owned()));
    assert!(read_only.contains(&TOOL_LS.to_owned()));
    assert!(!read_only.contains(&TOOL_WRITE.to_owned()));
    assert!(!read_only.contains(&TOOL_EDIT.to_owned()));

    let write_only = names_for(
        r#"{"access_grants":[{"resource":"project_files","operations":[{"operation":"write","globs":["src/**"]}]}]}"#,
    );
    assert!(!write_only.contains(&TOOL_READ.to_owned()));
    assert!(write_only.contains(&TOOL_WRITE.to_owned()));
    assert!(!write_only.contains(&TOOL_EDIT.to_owned()));

    let read_write = names_for(
        r#"{"access_grants":[{"resource":"project_files","operations":[{"operation":"read","globs":["src/**"]},{"operation":"write","globs":["src/**"]}]}]}"#,
    );
    assert!(read_write.contains(&TOOL_READ.to_owned()));
    assert!(read_write.contains(&TOOL_WRITE.to_owned()));
    assert!(read_write.contains(&TOOL_EDIT.to_owned()));
}

fn echo_tool() -> ToolSpec {
    ToolSpec {
        name: "EchoTool".to_owned(),
        description: "Echo test tool".to_owned(),
        input_schema: "{\"type\":\"object\"}".to_owned(),
    }
}

#[test]
fn registered_custom_profile_policy_filters_model_facing_file_tools() {
    let registered = RegisteredProfilePolicy {
        enforcement_mode: "enforce".to_owned(),
        allowed_capabilities: vec!["repo.read".to_owned()],
    };
    let policy = HarnessProfilePolicy::for_profile_with_registry(Some("docs-reader"), Some(&registered));
    let names = names(file_tool_specs_for_policy(&policy));
    assert!(names.contains(&TOOL_READ.to_owned()));
    assert!(names.contains(&TOOL_GREP.to_owned()));
    assert!(names.contains(&TOOL_FIND.to_owned()));
    assert!(names.contains(&TOOL_LS.to_owned()));
    assert!(!names.contains(&TOOL_WRITE.to_owned()));
    assert!(!names.contains(&TOOL_EDIT.to_owned()));
    assert!(!names.contains(&TOOL_BASH.to_owned()));
    assert!(workflow_tool_specs_for_policy(&policy, vec![echo_tool()]).is_empty());
}

#[test]
fn registered_custom_profile_policy_filters_workflow_tools() {
    let without_invoke = HarnessProfilePolicy::for_profile_with_registry(
        Some("docs-reader"),
        Some(&RegisteredProfilePolicy {
            enforcement_mode: "enforce".to_owned(),
            allowed_capabilities: vec!["repo.read".to_owned()],
        }),
    );
    assert!(workflow_tool_specs_for_policy(&without_invoke, vec![echo_tool()]).is_empty());
    let with_invoke = HarnessProfilePolicy::for_profile_with_registry(
        Some("tool-runner"),
        Some(&RegisteredProfilePolicy {
            enforcement_mode: "enforce".to_owned(),
            allowed_capabilities: vec!["workflow.invoke".to_owned()],
        }),
    );
    assert_eq!(names(workflow_tool_specs_for_policy(&with_invoke, vec![echo_tool()])), vec!["EchoTool".to_owned()]);
}

#[test]
fn audit_mode_registered_policy_grants_everything_the_profile_does() {
    let audit = RegisteredProfilePolicy { enforcement_mode: "audit".to_owned(), allowed_capabilities: Vec::new() };
    let policy = HarnessProfilePolicy::for_profile_with_registry(Some("repo-writer"), Some(&audit));
    assert_eq!(policy, HarnessProfilePolicy::for_profile(Some("repo-writer")));
}

#[test]
fn required_capabilities_policy_names_only_known_capabilities() {
    assert!(HarnessProfilePolicy::from_required_capabilities(&["agent.tell".to_owned()]).is_none());
    let policy = HarnessProfilePolicy::from_required_capabilities(&["repo.read".to_owned()]).expect("known");
    assert!(policy.allows_tool(TOOL_READ));
    assert!(!policy.allows_tool(TOOL_WRITE));
    assert!(!policy.workflow_invoke);
}

#[test]
fn turn_file_access_scopes_one_store_per_grant() {
    let file = turn_file_access_from_value(&parse(
        r#"{"access_grants":[
            {"resource":"a_store","operations":[{"operation":"read"}],"store_policy":{"root":"a","allow_read":["**"]}},
            {"resource":"b_store","operations":[{"operation":"write","globs":["out/**"]}],"store_policy":{"root":"b"}}
        ]}"#,
    ))
    .expect("parse grants");
    assert_eq!(file.scopes.len(), 2);
    assert_eq!(file.scopes[0].store_name, "a_store");
    assert_eq!(file.scopes[0].root, "a");
    assert!(file.scopes[0].grant_read.is_some());
    assert!(file.scopes[0].grant_write.is_none());
    assert_eq!(file.scopes[1].grant_write, Some(vec!["out/**".to_owned()]));
}

#[test]
fn malformed_grants_are_errors() {
    let error = turn_tool_access_from_value(&parse(r#"{"access_grants":[{"resource":"x","operations":{}}]}"#))
        .expect_err("operations must be an array");
    assert!(error.contains("operations must be an array"), "{error}");
    let error = turn_tool_access_from_value(&parse(
        r#"{"access_grants":[{"resource":"x","operations":[{"operation":"read","globs":[""]}]}]}"#,
    ))
    .expect_err("blank glob");
    assert!(error.contains("non-empty string"), "{error}");
}

#[test]
fn pinned_skills_are_the_string_items() {
    let skills = turn_pinned_skills_from_value(&parse(r#"{"turn_skills":["triage",3,"review"]}"#));
    assert_eq!(skills, vec!["triage".to_owned(), "review".to_owned()]);
    assert!(turn_pinned_skills_from_value(&parse("{}")).is_empty());
}

#[test]
fn harness_provider_selects_the_live_client() {
    assert!(matches!(harness_provider(None), Ok(None)));
    assert!(matches!(harness_provider(Some("")), Ok(None)));
    assert!(matches!(harness_provider(Some("openai")), Ok(Some(CoerceProvider::OpenAi))));
    assert!(matches!(harness_provider(Some("anthropic")), Ok(Some(CoerceProvider::Anthropic))));
    let error = harness_provider(Some("gemini")).expect_err("unknown provider");
    assert_eq!(error, "unknown WHIPPLESCRIPT_HARNESS_PROVIDER `gemini` (expected `openai` or `anthropic`)");
}

#[test]
fn harness_model_config_needs_a_credential_and_a_model() {
    let error = harness_model_config(
        CoerceProvider::OpenAi, "openai", None, Some("m".to_owned()), None, "https://api.openai.com", None, None,
    )
    .expect_err("no credential");
    assert_eq!(error, "WHIPPLESCRIPT_HARNESS_PROVIDER=openai is set but no credential resolved");
    let error = harness_model_config(
        CoerceProvider::OpenAi, "openai", Some("sk".to_owned()), Some(String::new()), None, "https://x", None, None,
    )
    .expect_err("no model");
    assert!(error.contains("WHIPPLESCRIPT_HARNESS_MODEL is required"), "{error}");
    let config = harness_model_config(
        CoerceProvider::Anthropic,
        "anthropic",
        Some("sk".to_owned()),
        Some("model-a".to_owned()),
        Some(String::new()),
        "https://default",
        Some("not a number".to_owned()),
        Some("30".to_owned()),
    )
    .expect("configures");
    assert_eq!(config.base_url, "https://default");
    assert_eq!(config.model, "model-a");
    assert_eq!(config.max_tokens, 4096);
    assert_eq!(config.timeout_secs, 30);
}

#[test]
fn granted_workflow_tools_win_name_collisions() {
    let entry = |name: &str, package: &str| WorkflowToolEntry {
        name: name.to_owned(),
        path: format!("{name}.whip"),
        root: name.to_owned(),
        package_id: package.to_owned(),
    };
    let (specs, entries) = merge_workflow_tools(
        vec![tool("Echo", "granted echo")],
        vec![entry("Echo", "granted")],
        &vec![tool("Echo", "env echo"), tool("Lint", "env lint"), tool("Lint", "second lint")],
        &vec![entry("Echo", "env"), entry("Lint", "env"), entry("Lint", "env2")],
    );
    assert_eq!(names(specs.clone()), vec!["Echo".to_owned(), "Lint".to_owned()]);
    assert_eq!(specs[0].description, "granted echo");
    assert_eq!(entries[0].package_id, "granted");
    assert_eq!(entries[1].package_id, "env");
}

#[test]
fn required_capabilities_narrow_the_turn_policy_and_tools() {
    let policy = owned_turn_policy(Some("repo-writer"), None, &["repo.read".to_owned()]);
    assert!(policy.read_files);
    assert!(!policy.write_files);
    assert_eq!(policy.profile.as_deref(), Some("repo-writer"));
    let unknown = owned_turn_policy(Some("repo-writer"), None, &["agent.tell".to_owned()]);
    assert!(unknown.write_files);
    let grants = access(
        r#"{"access_grants":[{"resource":"project_files","operations":[{"operation":"read"},{"operation":"write"}]},{"resource":"tracker","operations":[{"operation":"file"}]}]}"#,
    );
    let writer = owned_turn_policy(Some("repo-writer"), None, &[]);
    let offered = names(owned_turn_tools(&writer, &grants, true, vec![echo_tool()]));
    assert!(offered.contains(&TOOL_WRITE.to_owned()));
    assert!(offered.contains(&TOOL_ADD_TODO.to_owned()));
    assert!(offered.contains(&"EchoTool".to_owned()));
    let narrowed = names(owned_turn_tools(&policy, &grants, true, vec![echo_tool()]));
    assert!(!narrowed.contains(&"EchoTool".to_owned()));
    assert!(!narrowed.contains(&TOOL_WRITE.to_owned()));
    let without_tracker = names(owned_turn_tools(&writer, &grants, false, Vec::new()));
    assert!(!without_tracker.contains(&TOOL_LIST_TODOS.to_owned()));
}

#[test]
fn owned_step_budget_takes_a_positive_integer_or_the_default() {
    assert_eq!(OWNED_MAX_STEPS, 16);
    assert_eq!(owned_max_steps_from_value(None), 16);
    assert_eq!(owned_max_steps_from_value(Some("8")), 8);
    assert_eq!(owned_max_steps_from_value(Some("+8")), 8);
    assert_eq!(owned_max_steps_from_value(Some("0")), 16);
    assert_eq!(owned_max_steps_from_value(Some(" 8")), 16);
    assert_eq!(owned_max_steps_from_value(Some("-1")), 16);
    assert_eq!(owned_max_steps_from_value(Some("eight")), 16);
    assert_eq!(owned_max_steps_from_value(Some("+")), 16);
}

#[test]
fn owned_turn_compaction_lease_and_work_unit_decisions() {
    assert_eq!(compaction_kind(Some("hard_reset")), CompactionKind::HardReset);
    assert_eq!(compaction_kind(Some("tool_results")), CompactionKind::ToolResults);
    assert_eq!(compaction_kind(Some("none")), CompactionKind::NoCompaction);
    assert_eq!(compaction_kind(Some("summarize")), CompactionKind::TurnSummarizing);
    assert_eq!(compaction_kind(None), CompactionKind::TurnSummarizing);
    assert_eq!(owned_work_unit(None, "inst-1"), ("inst-1".to_owned(), true));
    assert_eq!(owned_work_unit(Some("root-9"), "inst-1"), ("root-9".to_owned(), false));
    assert!(matches!(lease_decision(true, "/ws"), LeaseDecision::Run));
    match lease_decision(false, "/ws") {
        LeaseDecision::Block { reason, message } => {
            assert_eq!(reason, "workspace_lease");
            assert_eq!(message, "workspace `/ws` is held by another agent turn");
        }
        LeaseDecision::Run => panic!("a contended lease blocks"),
    }
}
