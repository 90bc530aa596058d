use whipplescript::access::turn_tool_access_from_value;
use whipplescript::edits::edit_file_text;
use whipplescript::executor::{
    bash_allow_from_value, store_ceiling, CeilingVerdict, RecallFailure, FileToolExecutor, PathPolicy, ToolRoute, DEFAULT_MAX_BYTES,
};
use whipplescript::grep::{grep_file_hits, grep_file_report};
use whipplescript::todos::{item_to_todo_status, todo_row, todo_to_item_status, todo_update_action, TodoUpdate};
use whipplescript::files::{
    binary_read_refusal, edits_argument, encoded_edits, optional_str_arg, str_arg, usize_arg, EditsArgument,
};
use whipplescript::harness::HarnessProfilePolicy;
use whipplescript::json::Json;
use whipplescript::lines::{first_line, read_line_window, slice_lines};
use whipplescript::shell::{
    command_argument_policy_violation, command_input_redirection_targets, command_output_redirection_targets,
    command_words, is_fd_redirection_target, path_argument_escapes_workspace,
};
use whipplescript::turn::{
    normalize_store_root, store_relative_path, store_root_contains, FileStoreScope, TurnFileAccess,
};

fn edit(old: &str, new: &str) -> Json {
    Json::Object(vec![
        ("oldText".to_owned(), Json::Str(old.to_owned())),
        ("newText".to_owned(), Json::Str(new.to_owned())),
    ])
}

#[test]
fn edit_requires_unique_match() {
    let dup = edit_file_text("x x", &vec![edit("x", "y")], "f.txt").expect_err("two matches");
    assert!(dup.contains("matches 2 times"), "{dup}");
    let (text, message) = edit_file_text("x x", &vec![edit("x x", "z")], "f.txt").expect("unique match applies");
    assert_eq!(text, "z");
    assert!(message.contains("applied 1 edit(s)"), "{message}");
}

#[test]
fn edits_apply_in_order_to_the_current_text() {
    let (text, _) =
        edit_file_text("alpha beta gamma", &vec![edit("alpha", "A"), edit("gamma", "G")], "f.txt").expect("applies");
    assert_eq!(text, "A beta G");
    let missing = edit_file_text("alpha", &vec![edit("zeta", "Z")], "f.txt").expect_err("not found");
    assert!(missing.contains("oldText not found in `f.txt`"), "{missing}");
    let empty = edit_file_text("alpha", &vec![edit("", "Z")], "f.txt").expect_err("empty oldText");
    assert!(empty.contains("must not be empty"), "{empty}");
    // Each edit applies to the text the edits before it produced.
    let (chained, _) = edit_file_text("abc", &vec![edit("a", "xy"), edit("bc", "z")], "f.txt").expect("applies");
    assert_eq!(chained, "xyz");
    let overlap = edit_file_text("abc", &vec![edit("b", "XY"), edit("aX", "Q")], "f.txt").expect_err("overlap");
    assert_eq!(overlap, "edit 0 and edit 1 overlap in `f.txt`; merge them into one edit or target disjoint regions");
}

#[test]
fn command_words_respect_quotes() {
    assert_eq!(
        command_words("echo 'a; b' \"c d\" e").expect("words"),
        vec!["echo".to_owned(), "a; b".to_owned(), "c d".to_owned(), "e".to_owned()]
    );
}

fn echo_executor() -> FileToolExecutor {
    FileToolExecutor::new(".".to_owned(), vec!["echo".to_owned()])
}

#[test]
fn bash_default_deny_refuses_without_allow_list() {
    let exec = FileToolExecutor::new(".".to_owned(), Vec::new());
    let refusal = exec.bash_refusal("echo hi").expect("refused");
    assert!(refusal.contains("refused"), "{refusal}");
}

#[test]
fn bash_requires_command_run_turn_grant_when_turn_policy_is_installed() {
    let access = whipplescript::access::turn_tool_access_from_value(&Json::Object(vec![(
        "access_grants".to_owned(),
        Json::Array(vec![Json::Object(vec![
            ("resource".to_owned(), Json::Str("project_files".to_owned())),
            (
                "operations".to_owned(),
                Json::Array(vec![Json::Object(vec![("operation".to_owned(), Json::Str("read".to_owned()))])]),
            ),
        ])]),
    )]))
    .expect("read-only grant parses");
    let exec = FileToolExecutor::new(".".to_owned(), vec!["echo".to_owned()])
        .with_profile_policy(Some("repo-writer"))
        .with_turn_tool_access(access);
    let refusal = exec.bash_refusal("echo hello").expect("refused");
    assert!(refusal.contains("command { run }"), "{refusal}");
    let reader = FileToolExecutor::new(".".to_owned(), vec!["echo".to_owned()]).with_profile_policy(Some("repo-reader"));
    assert_eq!(reader.bash_refusal("echo hello").expect("refused"), "bash is not permitted by profile `repo-reader`");
}

#[test]
fn bash_runs_an_allowed_command() {
    assert_eq!(echo_executor().bash_refusal("echo hello"), None);
    assert_eq!(echo_executor().bash_refusal("echo hello > out.txt"), None);
}

#[test]
fn bash_refuses_dynamic_redirection_targets() {
    let refusal = echo_executor().bash_refusal("echo hi > $OUT").expect("refused");
    assert_eq!(refusal, "command output redirection target `$OUT` must be a literal workspace-relative path");
    assert!(echo_executor().bash_refusal("echo hi < in.txt").is_none());
}

#[test]
fn bash_refuses_shell_control_operators_before_execution() {
    for command in ["echo ok; touch owned.txt", "echo ok && touch owned.txt", "echo ok | touch owned.txt", "echo ok\n touch owned.txt"] {
        assert!(command_argument_policy_violation(command).is_some(), "command: {command}");
        let refusal = echo_executor().bash_refusal(command).expect("refused");
        assert!(refusal.contains("command refused"), "command: {command}: {refusal}");
    }
    assert!(command_argument_policy_violation("echo 'a; b | c && d (x)'").is_none());
    assert_eq!(echo_executor().bash_refusal("echo 'a; b | c && d (x)'"), None);
}

#[test]
fn bash_refuses_command_substitution_before_execution() {
    assert!(command_argument_policy_violation("echo $(touch owned.txt)")
        .expect("refused")
        .contains("command substitution"));
    assert!(command_argument_policy_violation("echo `touch backtick-owned.txt`")
        .expect("refused")
        .contains("command substitution"));
    assert!(command_argument_policy_violation("echo '$(touch literal.txt)'").is_none());
}

#[test]
fn bash_refuses_dynamic_shell_expansion_before_execution() {
    for command in ["echo $HOME", "echo *.rs", "echo {a,b}", "echo ~/secret"] {
        assert!(command_argument_policy_violation(command).is_some(), "command: {command}");
        assert!(echo_executor().bash_refusal(command).expect("refused").contains("command refused"));
    }
}

#[test]
fn bash_refuses_out_of_workspace_path_arguments() {
    let exec = FileToolExecutor::new(".".to_owned(), vec!["echo".to_owned()]);
    for command in ["echo ../secret", "echo /tmp/secret", "echo --input=../secret"] {
        let refusal = exec.enforce_command_path_argument_boundary(command).expect_err("escapes");
        assert!(refusal.contains("must stay within the workspace"), "command: {command}");
    }
    assert!(exec.enforce_command_path_argument_boundary("echo src/lib.rs").is_ok());
    assert!(path_argument_escapes_workspace("../x"));
    assert!(!path_argument_escapes_workspace("x/y"));
}

#[test]
fn bash_refuses_command_outside_the_allow_list() {
    let exec = FileToolExecutor::new(".".to_owned(), vec!["echo".to_owned()]);
    assert!(!exec.command_allowed("rm -rf /"));
    assert!(exec.bash_refusal("rm -rf /").expect("refused").contains("refused"));
    assert!(exec.bash_refusal("echofoo bar").is_some());
    assert!(!exec.command_allowed("echofoo bar"));
    assert!(exec.command_allowed("  echo hello  "));
    assert!(exec.command_allowed("echo"));
    let deny_all = FileToolExecutor::new(".".to_owned(), bash_allow_from_value(None));
    assert!(!deny_all.command_allowed("echo hi"));
}

#[test]
fn bash_allow_list_splits_on_commas_and_newlines() {
    assert_eq!(
        bash_allow_from_value(Some(" echo , git status\n\ncargo test ")),
        vec!["echo".to_owned(), "git status".to_owned(), "cargo test".to_owned()]
    );
    assert!(bash_allow_from_value(None).is_empty());
}

#[test]
fn redirection_targets_are_found_outside_quotes() {
    assert_eq!(command_output_redirection_targets("echo hello > out.txt").expect("targets"), vec!["out.txt".to_owned()]);
    assert_eq!(command_input_redirection_targets("cat < input.txt").expect("targets"), vec!["input.txt".to_owned()]);
    assert!(command_output_redirection_targets("echo 'a > b'").expect("targets").is_empty());
    assert!(command_output_redirection_targets("echo >").is_err());
    assert!(is_fd_redirection_target("&2"));
    assert!(!is_fd_redirection_target("out.txt"));
}

#[test]
fn tracker_writes_need_profile_and_turn_grants() {
    let exec = FileToolExecutor::new(".".to_owned(), Vec::new())
        .with_resolved_profile_policy(HarnessProfilePolicy::for_profile(Some("repo-reader")));
    assert!(exec.tracker_write_policy("file", None).expect("refused").contains("profile `repo-reader`"));
    let writer = FileToolExecutor::new(".".to_owned(), Vec::new());
    assert!(writer.tracker_write_policy("file", None).is_none());
}

#[test]
fn binary_files_are_refused_as_text() {
    assert!(binary_read_refusal("a.txt", b"plain text").is_ok());
    assert_eq!(
        binary_read_refusal("img.png", &[0x89, 0x50, 0x00, 0x47]).expect_err("binary"),
        "cannot read binary file `img.png` as text"
    );
}

#[test]
fn tool_arguments_are_read_by_type() {
    let args = Json::Object(vec![
        ("path".to_owned(), Json::Str("src/a.rs".to_owned())),
        ("limit".to_owned(), Json::Number("20".to_owned())),
        ("offset".to_owned(), Json::Number("-1".to_owned())),
    ]);
    assert_eq!(str_arg(&args, "path").expect("path"), "src/a.rs");
    assert_eq!(
        str_arg(&args, "content").expect_err("missing"),
        "missing required string argument `content`"
    );
    assert_eq!(optional_str_arg(&args, "limit"), None);
    assert_eq!(usize_arg(&args, "limit"), Some(20));
    assert_eq!(usize_arg(&args, "offset"), None);
}

#[test]
fn read_window_pages_through_lines() {
    let content = "one\ntwo\nthree\nfour";
    assert_eq!(slice_lines(content, Some(2), Some(2)), "two\nthree");
    let window = read_line_window(content, Some(2), Some(1)).expect("window");
    assert!(window.starts_with("two"), "{window}");
    assert_eq!(first_line("Search files.\nMore."), "Search files.");
}

#[test]
fn store_roots_contain_their_paths() {
    assert_eq!(normalize_store_root("./docs/"), "docs");
    assert!(store_root_contains("docs", "docs/a.md"));
    assert!(!store_root_contains("docs", "docsx/a.md"));
    assert!(store_root_contains("", "anything"));
    assert_eq!(store_relative_path("docs", "docs/a.md"), "a.md");
}

#[test]
fn grep_reports_matches_with_merged_context_up_to_the_limit() {
    let lines: Vec<String> = ["a", "fn main() {}", "b", "fn helper() {}", "c", "d", "fn last() {}"]
        .iter()
        .map(|s| s.to_string())
        .collect();
    let matched: Vec<bool> = lines.iter().map(|l| l.starts_with("fn")).collect();
    let (hits, found) = grep_file_hits("src/a.rs", &lines, &matched, 1, 0, 2);
    assert_eq!(
        hits,
        vec![
            "src/a.rs-1-a".to_owned(),
            "src/a.rs:2:fn main() {}".to_owned(),
            "src/a.rs-3-b".to_owned(),
            "src/a.rs:4:fn helper() {}".to_owned(),
            "src/a.rs-5-c".to_owned(),
        ]
    );
    assert_eq!(found, 2);
    let (none, found) = grep_file_hits("src/b.rs", &lines, &matched, 0, 2, 2);
    assert!(none.is_empty());
    assert_eq!(found, 2);
    let (plain, found) = grep_file_hits("src/a.rs", &lines, &matched, 0, 0, 100);
    assert_eq!(plain, vec!["src/a.rs:2:fn main() {}".to_owned(), "src/a.rs:4:fn helper() {}".to_owned(), "src/a.rs:7:fn last() {}".to_owned()]);
    assert_eq!(found, 3);
}

fn scope(name: &str, root: &str, read: Option<Vec<&str>>, write: Option<Vec<&str>>, store_read: Vec<&str>) -> FileStoreScope {
    let owned = |v: Vec<&str>| v.into_iter().map(str::to_owned).collect::<Vec<String>>();
    FileStoreScope {
        store_name: name.to_owned(),
        root: root.to_owned(),
        grant_read: read.map(owned),
        grant_write: write.map(owned),
        store_read: owned(store_read),
        store_write: Vec::new(),
    }
}

fn refusal(policy: PathPolicy) -> String {
    match policy {
        PathPolicy::Refused(message) => message,
        PathPolicy::Workspace => panic!("expected a refusal, got the workspace check"),
        PathPolicy::Store { store_name, .. } => panic!("expected a refusal, got store `{store_name}`"),
    }
}

#[test]
fn file_policy_refuses_before_any_glob_is_matched() {
    let open = FileToolExecutor::new(".".to_owned(), Vec::new());
    assert!(matches!(open.policy("src/lib.rs", "read"), PathPolicy::Workspace));

    let none = FileToolExecutor::new(".".to_owned(), Vec::new()).with_turn_file_access(TurnFileAccess::deny_all());
    assert_eq!(refusal(none.policy("note.txt", "read")), "file read is not granted for this turn");

    let data = FileToolExecutor::new(".".to_owned(), Vec::new()).with_turn_file_access(TurnFileAccess {
        scopes: vec![scope("data_store", "data", Some(vec!["**"]), None, Vec::new())],
    });
    assert_eq!(refusal(data.policy("../secret", "read")), "path `../secret` escapes the store root");
    assert_eq!(refusal(data.policy("data/../x", "read")), "path `data/../x` escapes the store root");
    assert_eq!(refusal(data.policy("/etc/passwd", "read")), "path `/etc/passwd` escapes the store root");
    assert_eq!(
        refusal(data.policy("secret.txt", "read")),
        "path `secret.txt` is outside every file store granted to this turn"
    );
    assert_eq!(
        refusal(data.policy("data/out.txt", "write")),
        "file write is not granted for store `data_store` in this turn"
    );

    let reader = FileToolExecutor::new(".".to_owned(), Vec::new()).with_profile_policy(Some("repo-reader"));
    assert_eq!(
        refusal(reader.policy("x.txt", "write")),
        "file write is not permitted by profile `repo-reader`"
    );
}

#[test]
fn file_policy_routes_to_the_longest_granted_store_root() {
    let exec = FileToolExecutor::new(".".to_owned(), Vec::new()).with_turn_file_access(TurnFileAccess {
        scopes: vec![
            scope("workspace", "", Some(vec!["**"]), Some(vec![]), vec!["logs/*"]),
            scope("a_store", "a", Some(vec!["**"]), None, Vec::new()),
            scope("b_store", "b", None, Some(vec!["**"]), Vec::new()),
        ],
    });
    match exec.policy("a/in.txt", "read") {
        PathPolicy::Store { store_name, relative, grant_globs, store_globs } => {
            assert_eq!(store_name, "a_store");
            assert_eq!(relative, "in.txt");
            assert_eq!(grant_globs, vec!["**".to_owned()]);
            assert!(store_globs.is_empty());
        }
        _ => panic!("a/in.txt routes to a_store"),
    }
    assert_eq!(
        refusal(exec.policy("b/in.txt", "read")),
        "file read is not granted for store `b_store` in this turn"
    );
    match exec.policy("secret.txt", "read") {
        PathPolicy::Store { store_name, relative, store_globs, .. } => {
            assert_eq!(store_name, "workspace");
            assert_eq!(relative, "secret.txt");
            assert_eq!(store_globs, vec!["logs/*".to_owned()]);
        }
        _ => panic!("secret.txt routes to the workspace store"),
    }
}

fn to_json(v: &serde_json::Value) -> Json {
    match v {
        serde_json::Value::Null => Json::Null,
        serde_json::Value::Bool(b) => Json::Bool(*b),
        serde_json::Value::Number(n) => Json::Number(n.to_string()),
        serde_json::Value::String(s) => Json::Str(s.clone()),
        serde_json::Value::Array(items) => Json::Array(items.iter().map(to_json).collect()),
        serde_json::Value::Object(members) => {
            Json::Object(members.iter().map(|(k, v)| (k.clone(), to_json(v))).collect())
        }
    }
}

fn tool_args(text: &str) -> Json {
    to_json(&serde_json::from_str(text).expect("valid json"))
}

/// The edits of an `edit` call, parsing a JSON-encoded list as the host does.
fn call_edits(args: &Json) -> Result<Vec<Json>, String> {
    match edits_argument(args)? {
        EditsArgument::Items(items) => Ok(items),
        EditsArgument::Encoded(raw) => encoded_edits(
            serde_json::from_str::<serde_json::Value>(&raw).map(|v| to_json(&v)).map_err(|e| e.to_string()),
        ),
    }
}

#[test]
fn edit_accepts_edits_as_a_json_encoded_string() {
    let args = tool_args(r#"{"path": "f.txt", "edits": "[{\"oldText\": \"abc\", \"newText\": \"xyz\"}]"}"#);
    let edits = call_edits(&args).expect("encoded edits are tolerated");
    let (text, _) = edit_file_text("abc", &edits, "f.txt").expect("applies");
    assert_eq!(text, "xyz");
}

#[test]
fn edit_accepts_legacy_top_level_old_new_text() {
    let args = tool_args(r#"{"path": "f.txt", "oldText": "abc", "newText": "xyz"}"#);
    let edits = call_edits(&args).expect("legacy form");
    let (text, _) = edit_file_text("abc", &edits, "f.txt").expect("applies");
    assert_eq!(text, "xyz");
}

#[test]
fn edit_arguments_that_hold_no_list_are_refused() {
    let scalar = tool_args(r#"{"path": "f.txt", "edits": 3}"#);
    assert_eq!(call_edits(&scalar).unwrap_err(), "`edits` must be an array");
    let object_text = tool_args(r#"{"path": "f.txt", "edits": "{}"}"#);
    assert_eq!(call_edits(&object_text).unwrap_err(), "`edits` must be an array");
    let broken = tool_args(r#"{"path": "f.txt", "edits": "[{"}"#);
    assert!(call_edits(&broken).unwrap_err().starts_with("`edits` is a string but not valid JSON: "));
    let half = tool_args(r#"{"path": "f.txt", "oldText": "abc"}"#);
    assert_eq!(call_edits(&half).unwrap_err(), "`edits` must be an array");
}

#[test]
fn edit_preserves_a_leading_bom() {
    let args = tool_args(r#"{"path": "bom.txt", "edits": [{"oldText": "hello world", "newText": "goodbye"}]}"#);
    let edits = call_edits(&args).expect("edits");
    let (raw, _) = edit_file_text("\u{feff}hello world", &edits, "bom.txt").expect("applies");
    assert_eq!(raw, "\u{feff}goodbye", "BOM restored on write");
}

#[test]
fn edit_overlapping_edits_are_rejected() {
    let overlap = tool_args(
        r#"{"path": "f.txt", "edits": [{"oldText": "alpha beta", "newText": "alpha beta"}, {"oldText": "beta gamma", "newText": "BETA gamma"}]}"#,
    );
    let err = edit_file_text("alpha beta gamma", &call_edits(&overlap).expect("edits"), "f.txt").unwrap_err();
    assert_eq!(err, "edit 0 and edit 1 overlap in `f.txt`; merge them into one edit or target disjoint regions");
    let disjoint = tool_args(
        r#"{"path": "f.txt", "edits": [{"oldText": "alpha", "newText": "a-much-longer-alpha"}, {"oldText": "gamma", "newText": "GAMMA"}]}"#,
    );
    let (text, _) = edit_file_text("alpha beta gamma", &call_edits(&disjoint).expect("edits"), "f.txt").expect("applies");
    assert_eq!(text, "a-much-longer-alpha beta GAMMA");
}

#[test]
fn edit_empty_oldtext_is_rejected() {
    let args = tool_args(r#"{"path": "f.txt", "edits": [{"oldText": "", "newText": "x"}]}"#);
    let err = edit_file_text("abc", &call_edits(&args).expect("edits"), "f.txt").unwrap_err();
    assert_eq!(err, "edit 0: oldText must not be empty");
}

#[test]
fn todo_statuses_map_to_tracker_statuses_and_back() {
    assert_eq!(todo_to_item_status("pending"), "open");
    assert_eq!(todo_to_item_status("in_progress"), "in_progress");
    assert_eq!(todo_to_item_status("completed"), "closed");
    assert_eq!(todo_to_item_status("blocked"), "blocked");
    for status in ["pending", "in_progress", "completed"] {
        assert_eq!(item_to_todo_status(&todo_to_item_status(status)), status);
    }
    assert_eq!(item_to_todo_status("canceled"), "completed");
    assert_eq!(item_to_todo_status("archived"), "completed");
    assert_eq!(item_to_todo_status("blocked"), "pending");
}

#[test]
fn listed_todos_show_their_source_and_status() {
    let agent = todo_row("wi-1", "write docs", "closed", Some("agent:worker"));
    let rendered = serde_json::to_string(&from_json_value(&agent)).expect("renders");
    assert_eq!(rendered, r#"{"content":"write docs","id":"wi-1","source":"agent","status":"completed"}"#);
    let rule = todo_row("wi-2", "triage", "open", None);
    let rendered = serde_json::to_string(&from_json_value(&rule)).expect("renders");
    assert_eq!(rendered, r#"{"content":"triage","id":"wi-2","source":"rule","status":"pending"}"#);
    let human = todo_row("wi-3", "review", "in_progress", Some("human:ann"));
    assert!(serde_json::to_string(&from_json_value(&human)).expect("renders").contains(r#""source":"rule""#));
}

#[test]
fn todo_updates_pick_the_tracker_action() {
    assert_eq!(todo_update_action("in_progress"), Ok(TodoUpdate::Claim));
    assert_eq!(todo_update_action("completed"), Ok(TodoUpdate::Finish));
    assert_eq!(todo_update_action("pending"), Ok(TodoUpdate::Release));
    assert_eq!(todo_update_action("done"), Err("unknown status `done`".to_owned()));
}

fn from_json_value(v: &Json) -> serde_json::Value {
    match v {
        Json::Null => serde_json::Value::Null,
        Json::Bool(b) => serde_json::Value::Bool(*b),
        Json::Number(n) => serde_json::from_str(n).expect("number text"),
        Json::Str(s) => serde_json::Value::String(s.clone()),
        Json::Array(items) => serde_json::Value::Array(items.iter().map(from_json_value).collect()),
        Json::Object(members) => {
            let mut map = serde_json::Map::new();
            for (k, v) in members {
                map.insert(k.clone(), from_json_value(v));
            }
            serde_json::Value::Object(map)
        }
    }
}

fn command_only_executor(allow: &str) -> FileToolExecutor {
    let command_only = turn_tool_access_from_value(&tool_args(
        r#"{"access_grants": [{"resource": "command", "operations": [{"operation": "run"}]}]}"#,
    ))
    .expect("command grant parses");
    FileToolExecutor::new(".".to_owned(), Vec::new())
        .with_turn_tool_access(command_only)
        .with_profile_policy(Some("repo-writer"))
        .with_bash_allow(vec![allow.to_owned()])
}

#[test]
fn bash_output_redirection_requires_turn_write_grant() {
    let exec = command_only_executor("echo");
    let denied = exec.bash_refusal("echo hello > out.txt").expect("refused before running");
    assert!(denied.contains("out.txt"));
    assert!(denied.contains("file write is not granted"));
    assert_eq!(
        denied,
        "command output redirection to `out.txt` refused: file write is not granted for this turn"
    );
}

#[test]
fn bash_input_redirection_requires_turn_read_grant() {
    let exec = command_only_executor("cat");
    let denied = exec.bash_refusal("cat < input.txt").expect("refused before running");
    assert!(denied.contains("input.txt"));
    assert!(denied.contains("file read is not granted"));
}

#[test]
fn bash_redirection_to_null_needs_no_file_grant() {
    let exec = command_only_executor("echo");
    assert_eq!(exec.bash_refusal("echo hello > /dev/null"), None);
}

#[test]
fn read_of_a_skill_location_resolves_the_registry_body_not_the_filesystem() {
    let exec = FileToolExecutor::new(".".to_owned(), Vec::new()).with_skill_bodies(vec![(
        "skills/demo/SKILL.md".to_owned(),
        "# Demo\nregistry body bytes\n".to_owned(),
    )]);
    let read = exec.read_skill("skills/demo/SKILL.md", None, None).expect("registered location").expect("window");
    assert!(read.contains("registry body bytes"));
    assert!(exec.read_skill("nope.txt", None, None).is_none());
    assert_eq!(exec.skill_body("nope.txt"), None);
}

#[test]
fn a_new_executor_routes_tools_and_refuses_what_it_lacks() {
    let exec = FileToolExecutor::new(".".to_owned(), Vec::new());
    assert_eq!(exec.max_bytes, DEFAULT_MAX_BYTES);
    assert_eq!(DEFAULT_MAX_BYTES, 50_000);
    assert_eq!(exec.route_tool("read"), Ok(ToolRoute::Read));
    assert_eq!(exec.route_tool("recall"), Ok(ToolRoute::Recall));
    assert_eq!(exec.route_tool("mystery"), Err("unknown tool `mystery`".to_owned()));
    let args = tool_args(r#"{"id": "c-1"}"#);
    assert_eq!(
        exec.tool_unavailable(ToolRoute::Recall, &args).as_deref(),
        Some("recall is not available for this turn")
    );
    assert_eq!(
        exec.tool_unavailable(ToolRoute::Recall, &tool_args("{}")).as_deref(),
        Some("missing required string argument `id`")
    );
    assert_eq!(
        exec.tool_unavailable(ToolRoute::ListTodos, &args).as_deref(),
        Some("tracker tools are not enabled for this turn (no tracker configured)")
    );
    assert_eq!(exec.tool_unavailable(ToolRoute::Read, &args), None);
}

#[test]
fn tool_output_is_capped_to_the_budget() {
    let mut exec = FileToolExecutor::new(".".to_owned(), Vec::new());
    exec.max_bytes = 200;
    let small = exec.tool_outcome(Ok("fine".to_owned()));
    assert!(small.ok && small.content == "fine" && !small.captured);
    let big = exec.tool_outcome(Ok("x".repeat(1_000)));
    assert!(big.ok && big.content.len() < 1_000 && big.content.contains("bytes elided") && !big.captured);
    exec.content_store_path = Some("store".to_owned());
    assert!(exec.tool_outcome(Ok("x".repeat(1_000))).captured);
    let failed = exec.tool_outcome(Err("nope".to_owned()));
    assert!(!failed.ok && failed.content == "nope");
}

fn file_lines(content: &str) -> Vec<String> {
    content.lines().map(str::to_owned).collect()
}

#[test]
fn grep_matches_regex_patterns() {
    let lines = file_lines("fn main() {}\nlet x = 1;\nFN SHOUT() {}");
    let (hits, _) = grep_file_report("src/a.rs", &lines, "fn \\w+\\(", false, 0, 0, 100);
    let content = hits.join("\n");
    assert!(content.contains("src/a.rs:1:fn main() {}"));
    assert!(!content.contains("SHOUT"));
    let (ci, _) = grep_file_report("src/a.rs", &lines, "fn \\w+\\(", true, 0, 0, 100);
    assert!(ci.join("\n").contains("src/a.rs:3:FN SHOUT() {}"));
}

#[test]
fn grep_invalid_regex_falls_back_to_literal_substring() {
    let lines = file_lines("call main(x)\nother line");
    let (hits, _) = grep_file_report("a.rs", &lines, "main(", false, 0, 0, 100);
    assert_eq!(hits.join("\n"), "a.rs:1:call main(x)");
    let (ci, _) = grep_file_report("a.rs", &file_lines("CALL MAIN(X)"), "main(", true, 0, 0, 100);
    assert_eq!(ci.join("\n"), "a.rs:1:CALL MAIN(X)");
}

#[test]
fn grep_context_lines_carry_dash_format() {
    let (hits, _) = grep_file_report("c.txt", &file_lines("one\ntwo\nMATCH\nfour\nfive"), "MATCH", false, 1, 0, 100);
    assert_eq!(hits.join("\n"), "c.txt-2-two\nc.txt:3:MATCH\nc.txt-4-four");
    let (merged, _) = grep_file_report("c.txt", &file_lines("one\nMATCH a\nMATCH b\nfour"), "MATCH", false, 1, 0, 100);
    assert_eq!(merged.join("\n"), "c.txt-1-one\nc.txt:2:MATCH a\nc.txt:3:MATCH b\nc.txt-4-four");
}

#[test]
fn grep_caps_long_lines() {
    let long_line = format!("needle {}", "x".repeat(700));
    let (hits, _) = grep_file_report("wide.txt", &file_lines(&long_line), "needle", false, 0, 0, 100);
    let content = hits.join("\n");
    assert!(content.ends_with("... [truncated]"));
    assert!(!content.contains(&"x".repeat(600)));
}

#[test]
fn a_turn_grant_never_widens_the_store_globs() {
    // The grant matches everything, the store's own globs do not match: refused by the store.
    assert!(matches!(store_ceiling("secret.txt", "project_files", "read", &vec![true], &vec![false]), CeilingVerdict::OutsideStore));
    // No grant glob matches: refused by the grant, with its message.
    match store_ceiling("secret.txt", "project_files", "read", &vec![false, false], &vec![true]) {
        CeilingVerdict::OutsideGrant(m) => {
            assert_eq!(m, "path `secret.txt` is not in the turn grant for store `project_files` (`read`)")
        }
        _ => panic!("outside the grant"),
    }
    // Empty lists admit any path inside the root.
    assert!(matches!(store_ceiling("logs/app.log", "project_files", "read", &vec![], &vec![]), CeilingVerdict::Admitted));
    assert!(matches!(store_ceiling("logs/app.log", "project_files", "read", &vec![false, true], &vec![true]), CeilingVerdict::Admitted));
}

#[test]
fn recall_pages_a_stored_output_or_says_why_not() {
    let bare = FileToolExecutor::new(".".to_owned(), Vec::new());
    assert_eq!(
        bare.recall_reply("c1", Ok(Some("a".to_owned())), None, None),
        Err("recall is not available for this turn".to_owned())
    );
    let exec = FileToolExecutor::new(".".to_owned(), Vec::new()).with_content_store("content.db".to_owned());
    assert_eq!(exec.recall_reply("c1", Ok(Some("one\ntwo\nthree".to_owned())), Some(2), Some(1)), Ok("two".to_owned()));
    assert_eq!(exec.recall_reply("c1", Ok(Some("one\ntwo".to_owned())), None, None), Ok("one\ntwo".to_owned()));
    assert_eq!(exec.recall_reply("c9", Ok(None), None, None), Err("no stored output with id `c9`".to_owned()));
    assert_eq!(
        exec.recall_reply("c1", Err(RecallFailure::Open("Io".to_owned())), None, None),
        Err("recall failed to open store: Io".to_owned())
    );
    assert_eq!(exec.recall_reply("c1", Err(RecallFailure::Get("Corrupt".to_owned())), None, None), Err("recall failed: Corrupt".to_owned()));
}
