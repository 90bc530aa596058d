use whipplescript::coerce::{
    baml_runtime_summary, coerce_status_from_name, coerce_status_name, BamlHttpCoerceExecutor, BamlHttpReply,
    CoerceBackend, CoerceCallRecord, CoerceErrorCategory, CoerceExecutor, CoerceRequest, CoerceStatus,
    FakeCoerceExecutor, NoopCoerceExecutor,
};
use whipplescript::durable::{
    coerce_idempotency_key, derived_idempotency_key, failed_record_from_error, new_coerce_call_id,
    durable_attempt_record, durable_start, find_successful_coerce_call, outcome_from_record, record_coerce_attempt,
    record_from_outcome, DurableStart,
};
use whipplescript::json::Json;
use whipplescript::selection::{
    coercion_config_fingerprint_with_registry, fingerprint_inner, parse_provider, resolve_selection_inner,
    CoerceProvider, CoerceRegistryDefault, CoerceSelection, CoerceSelectionRung, CredentialSource,
    FingerprintSubject, OperatorEnv, SelectionProbes,
};
use whipplescript::sse::{assemble_sse, fold_sse_events, sse_assembly_defined, sse_data_payloads};

fn to_json(v: &serde_json::Value) -> Json {
    match v {
        serde_json::Value::Null => Json::Null,
        serde_json::Value::Bool(b) => Json::Bool(*b),
        serde_json::Value::Number(n) => Json::Number(n.to_string()),
        serde_json::Value::String(s) => Json::Str(s.clone()),
        serde_json::Value::Array(items) => Json::Array(items.iter().map(to_json).collect()),
        serde_json::Value::Object(members) => {
            Json::Object(members.iter().map(|(k, v)| (k.clone(), to_json(v))).collect())
        }
    }
}

fn from_json(v: &Json) -> serde_json::Value {
    match v {
        Json::Null => serde_json::Value::Null,
        Json::Bool(b) => serde_json::Value::Bool(*b),
        Json::Number(n) => serde_json::from_str(n).expect("number text"),
        Json::Str(s) => serde_json::Value::String(s.clone()),
        Json::Array(items) => serde_json::Value::Array(items.iter().map(from_json).collect()),
        Json::Object(members) => {
            let mut map = serde_json::Map::new();
            for (k, v) in members {
                map.insert(k.clone(), from_json(v));
            }
            serde_json::Value::Object(map)
        }
    }
}

fn parse(text: &str) -> Json {
    to_json(&serde_json::from_str(text).expect("valid json"))
}

/// Collapses a raw Responses-API event stream into the response value.
fn assemble_responses_sse(raw: &str) -> serde_json::Value {
    let events: Vec<Json> = sse_data_payloads(raw)
        .iter()
        .filter_map(|payload| serde_json::from_str::<serde_json::Value>(payload).ok())
        .map(|value| to_json(&value))
        .collect();
    let fold = fold_sse_events(&events);
    assert!(sse_assembly_defined(&fold));
    from_json(&assemble_sse(fold))
}

#[test]
fn assemble_responses_sse_prefers_delta_text_and_keeps_usage() {
    let raw = "data: {\"type\":\"response.output_text.delta\",\"delta\":\"{\\\"v\\\":1}\"}\n\
               data: {\"type\":\"response.completed\",\"response\":{\"usage\":{\"input_tokens\":3,\"output_tokens\":2},\"output\":[]}}\n\
               data: [DONE]\n";
    let body = assemble_responses_sse(raw);
    assert_eq!(body["output_text"].as_str(), Some("{\"v\":1}"));
    assert_eq!(body["usage"]["input_tokens"], 3);
}

#[test]
fn assemble_responses_sse_recovers_items_from_output_item_done_events() {
    let raw = "data: {\"type\":\"response.output_item.done\",\"item\":{\"type\":\"function_call\",\"call_id\":\"c9\",\"name\":\"write\",\"arguments\":\"{}\"}}\n\
               data: {\"type\":\"response.completed\",\"response\":{\"output\":[],\"usage\":{\"input_tokens\":7}}}\n\
               data: [DONE]\n";
    let body = assemble_responses_sse(raw);
    assert_eq!(body["output"][0]["call_id"], "c9");
    assert_eq!(body["usage"]["input_tokens"], 7);
}

#[test]
fn sse_payloads_skip_non_data_lines_and_done() {
    let payloads = sse_data_payloads("event: x\ndata:  {\"a\":1} \n\ndata: [DONE]\ndata:\n");
    assert_eq!(payloads, vec!["{\"a\":1}".to_owned()]);
}

#[test]
fn sse_without_deltas_is_the_completed_response() {
    let raw = "data: {\"type\":\"response.completed\",\"response\":{\"output\":[{\"k\":1}]}}\n";
    let body = assemble_responses_sse(raw);
    assert_eq!(body, serde_json::from_str::<serde_json::Value>("{\"output\":[{\"k\":1}]}").unwrap());
    assert_eq!(assemble_responses_sse(""), serde_json::Value::Null);
}

const DEFAULT_MAX_TOKENS: u32 = 1024;
const DEFAULT_TIMEOUT_SECS: u64 = 60;

fn probes(credential: Option<(String, CredentialSource)>) -> SelectionProbes {
    SelectionProbes {
        credential,
        anthropic_rejection: None,
        codex_account: None,
        codex_model: None,
        default_base_url: "https://api.example.test".to_owned(),
        default_max_tokens: DEFAULT_MAX_TOKENS,
        default_timeout_secs: DEFAULT_TIMEOUT_SECS,
    }
}

fn api_key_probes() -> SelectionProbes {
    probes(Some(("sk-test".to_owned(), CredentialSource::Env("OPENAI_API_KEY".to_owned()))))
}

fn env_with_model(model: &str) -> OperatorEnv {
    OperatorEnv { model: Some(model.to_owned()), ..OperatorEnv::empty() }
}

fn registry_native_openai(model: Option<&str>) -> (CoerceRegistryDefault, Json) {
    let mut config = serde_json::Map::new();
    config.insert("backend".to_owned(), serde_json::Value::String("openai".to_owned()));
    if let Some(model) = model {
        config.insert("model".to_owned(), serde_json::Value::String(model.to_owned()));
    }
    let text = serde_json::Value::Object(config).to_string();
    let parsed = parse(&text);
    (CoerceRegistryDefault { provider: "native".to_owned(), config_json: Some(text) }, parsed)
}

fn empty_config() -> Json {
    Json::Object(Vec::new())
}

fn resolve(
    provider_override: Option<&str>,
    env: &OperatorEnv,
    registry: Option<&(CoerceRegistryDefault, Json)>,
    probes: SelectionProbes,
) -> Result<CoerceSelection, String> {
    let empty = empty_config();
    let (default, config) = match registry {
        Some((d, c)) => (Some(d), c),
        None => (None, &empty),
    };
    resolve_selection_inner(provider_override, env, default, config, probes)
}

#[test]
fn rung1_per_effect_provider_beats_everything() {
    let registry = registry_native_openai(Some("gpt-registry"));
    let selection =
        resolve(Some("openai"), &env_with_model("gpt-env"), Some(&registry), api_key_probes()).expect("resolves");
    assert_eq!(selection.rung, CoerceSelectionRung::PerEffectProvider);
    let config = selection.config.expect("native config");
    assert_eq!(config.provider_id, "openai");
    assert!(matches!(config.backend, CoerceProvider::OpenAi));
    // A per-effect fixture override is also rung 1.
    let fixture = resolve(Some("fixture"), &env_with_model("gpt-env"), None, api_key_probes()).expect("resolves");
    assert_eq!(fixture.rung, CoerceSelectionRung::PerEffectProvider);
    assert!(fixture.config.is_none());
}

#[test]
fn rung2_operator_override_beats_registry_default() {
    let env = OperatorEnv {
        provider: Some("anthropic".to_owned()),
        model: Some("console-model-test".to_owned()),
        ..OperatorEnv::empty()
    };
    let registry = registry_native_openai(Some("gpt-registry"));
    let selection = resolve(
        None,
        &env,
        Some(&registry),
        probes(Some(("sk-ant-api03-x".to_owned(), CredentialSource::Env("ANTHROPIC_API_KEY".to_owned())))),
    )
    .expect("resolves");
    assert_eq!(selection.rung, CoerceSelectionRung::OperatorOverride);
    let config = selection.config.expect("native config");
    assert_eq!(config.provider_id, "anthropic");
    assert!(matches!(config.backend, CoerceProvider::Anthropic));
    assert_eq!(config.model, "console-model-test");
    let forced_fixture = resolve(
        None,
        &OperatorEnv { provider: Some("fixture".to_owned()), ..OperatorEnv::empty() },
        Some(&registry),
        api_key_probes(),
    )
    .expect("resolves");
    assert_eq!(forced_fixture.rung, CoerceSelectionRung::OperatorOverride);
    assert!(forced_fixture.config.is_none());
}

#[test]
fn rung3_registry_default_selects_native_and_env_fields_override_it() {
    let registry = registry_native_openai(Some("gpt-registry"));
    let selection = resolve(None, &OperatorEnv::empty(), Some(&registry), api_key_probes()).expect("resolves");
    assert_eq!(selection.rung, CoerceSelectionRung::RegistryDefault);
    let config = selection.config.expect("native config");
    assert_eq!(config.provider_id, "native");
    assert!(matches!(config.backend, CoerceProvider::OpenAi));
    assert_eq!(config.model, "gpt-registry");
    assert_eq!(config.max_tokens, DEFAULT_MAX_TOKENS);
    assert_eq!(config.timeout_secs, DEFAULT_TIMEOUT_SECS);
    let refined = resolve(None, &env_with_model("gpt-env"), Some(&registry), api_key_probes()).expect("resolves");
    assert_eq!(refined.rung, CoerceSelectionRung::RegistryDefault);
    assert_eq!(refined.config.expect("native config").model, "gpt-env");
}

#[test]
fn rung4_fixture_when_nothing_selects_native() {
    let bare = resolve(None, &OperatorEnv::empty(), None, probes(None)).expect("resolves");
    assert_eq!(bare.rung, CoerceSelectionRung::Fixture);
    assert!(bare.config.is_none());
    let seeded = (
        CoerceRegistryDefault { provider: "builtin-coerce".to_owned(), config_json: Some("{}".to_owned()) },
        parse("{}"),
    );
    let seeded = resolve(None, &OperatorEnv::empty(), Some(&seeded), probes(None)).expect("resolves");
    assert_eq!(seeded.rung, CoerceSelectionRung::Fixture);
    assert!(seeded.config.is_none());
}

#[test]
fn misconfiguration_errors_loudly_instead_of_degrading_to_fixture() {
    let env = OperatorEnv {
        provider: Some("openai".to_owned()),
        model: Some("gpt-test".to_owned()),
        ..OperatorEnv::empty()
    };
    let error = resolve(None, &env, None, probes(None)).expect_err("missing credential is loud");
    assert!(error.contains("needs a credential"), "{error}");
    let no_backend = (
        CoerceRegistryDefault { provider: "native".to_owned(), config_json: Some("{}".to_owned()) },
        parse("{}"),
    );
    let error = resolve(None, &OperatorEnv::empty(), Some(&no_backend), api_key_probes())
        .expect_err("native binding without a backend is loud");
    assert!(error.contains("names no `backend`"), "{error}");
    let unknown = (CoerceRegistryDefault { provider: "gemini".to_owned(), config_json: None }, empty_config());
    let error = resolve(None, &OperatorEnv::empty(), Some(&unknown), api_key_probes())
        .expect_err("unknown registry provider is loud");
    assert!(error.contains("misconfigured"), "{error}");
}

#[test]
fn anthropic_oauth_rejection_regression_holds_through_the_ladder() {
    let env = OperatorEnv {
        provider: Some("anthropic".to_owned()),
        model: Some("console-model-test".to_owned()),
        ..OperatorEnv::empty()
    };
    let mut oauth = probes(Some(("sk-ant-oat01-abc".to_owned(), CredentialSource::Stored)));
    oauth.anthropic_rejection = Some(
        "anthropic coerce needs a console API key; an OAuth token cannot be used here".to_owned(),
    );
    let error = resolve(None, &env, None, oauth).expect_err("oauth token rejected for anthropic");
    assert!(error.contains("console API key"), "{error}");
}

#[test]
fn codex_credentials_default_the_base_url_and_model() {
    let mut codex = probes(Some(("token".to_owned(), CredentialSource::CodexOAuth)));
    codex.codex_account = Some("acct-1".to_owned());
    codex.codex_model = Some("gpt-codex".to_owned());
    let env = OperatorEnv { provider: Some("openai".to_owned()), ..OperatorEnv::empty() };
    let config = resolve(None, &env, None, codex).expect("resolves").config.expect("native config");
    assert_eq!(config.base_url, "https://chatgpt.com");
    assert_eq!(config.model, "gpt-codex");
    assert_eq!(config.codex_account_id.as_deref(), Some("acct-1"));
    let no_model = resolve(None, &env, None, api_key_probes()).expect_err("no model is loud");
    assert!(no_model.contains("no coerce model"), "{no_model}");
}

#[test]
fn fingerprint_resolves_through_the_same_ladder_rungs_2_to_4() {
    assert!(matches!(
        fingerprint_inner(&OperatorEnv::empty(), None, &empty_config(), None),
        FingerprintSubject::Fixture
    ));
    let seeded = CoerceRegistryDefault { provider: "builtin-coerce".to_owned(), config_json: None };
    assert!(matches!(
        fingerprint_inner(&OperatorEnv::empty(), Some(&seeded), &empty_config(), None),
        FingerprintSubject::Fixture
    ));
    let (registry, config) = registry_native_openai(Some("gpt-registry"));
    let fingerprint = fingerprint_inner(&OperatorEnv::empty(), Some(&registry), &config, None);
    match &fingerprint {
        FingerprintSubject::Config { provider_kind, provider_id, backend, model } => {
            assert_eq!(provider_kind, "schema_coercer");
            assert_eq!(provider_id, "native");
            assert_eq!(backend, "openai");
            assert_eq!(model, "gpt-registry");
        }
        FingerprintSubject::Fixture => panic!("registry default selects native"),
    }
    let dispatch = resolve(None, &OperatorEnv::empty(), Some(&(registry.clone(), parse(
        registry.config_json.as_deref().unwrap(),
    ))), api_key_probes())
    .expect("resolves")
    .config
    .expect("native config");
    match &fingerprint {
        FingerprintSubject::Config { provider_id, model, .. } => {
            assert_eq!(provider_id, &dispatch.provider_id);
            assert_eq!(model, &dispatch.model);
        }
        FingerprintSubject::Fixture => unreachable!(),
    }
    let env = OperatorEnv {
        provider: Some("anthropic".to_owned()),
        model: Some("console-model-test".to_owned()),
        ..OperatorEnv::empty()
    };
    match fingerprint_inner(&env, Some(&registry), &config, None) {
        FingerprintSubject::Config { provider_kind, provider_id, backend, model } => {
            assert_eq!(provider_kind, "schema_coercer");
            assert_eq!(provider_id, "anthropic");
            assert_eq!(backend, "anthropic");
            assert_eq!(model, "console-model-test");
        }
        FingerprintSubject::Fixture => panic!("operator override selects anthropic"),
    }
}

#[test]
fn fingerprint_with_registry_reads_a_non_object_config_as_empty() {
    let registry = CoerceRegistryDefault { provider: "openai".to_owned(), config_json: Some("[1]".to_owned()) };
    match coercion_config_fingerprint_with_registry(&OperatorEnv::empty(), Some(&registry), Some(parse("[1]")), Some("m".to_owned())) {
        FingerprintSubject::Config { provider_id, backend, model, .. } => {
            assert_eq!(provider_id, "openai");
            assert_eq!(backend, "openai");
            assert_eq!(model, "m");
        }
        FingerprintSubject::Fixture => panic!("openai binding selects native"),
    }
}

#[test]
fn parse_provider_accepts_known_and_rejects_unknown() {
    assert!(matches!(parse_provider("openai"), Ok(CoerceProvider::OpenAi)));
    assert!(matches!(parse_provider("anthropic"), Ok(CoerceProvider::Anthropic)));
    assert!(parse_provider("gemini").is_err());
}

fn record(backend: CoerceBackend, status: CoerceStatus, error: Option<&str>) -> CoerceCallRecord {
    CoerceCallRecord {
        coerce_call_id: "coerce_1".to_string(),
        workflow_id: "Supervisor".to_string(),
        workflow_version: "version_1".to_string(),
        transition_id: None,
        event_id: None,
        step_path: "watching.entry[0]".to_string(),
        function_name: "ChooseNextStep".to_string(),
        idempotency_key: "Supervisor:tick:ChooseNextStep".to_string(),
        backend,
        args: Vec::new(),
        status,
        http_status: None,
        raw_response: None,
        parsed_output: match status {
            CoerceStatus::Succeeded => Some(parse("{\"kind\":\"idle\"}")),
            CoerceStatus::Failed => None,
        },
        error: error.map(str::to_owned),
        duration_ms: Some(13),
        created_at: "2026-05-23T00:00:00Z".to_string(),
    }
}

#[test]
fn baml_runtime_summary_projects_generated_stdio_records() {
    let record = record(
        CoerceBackend::BamlGeneratedStdio {
            baml_src_hash: Some("sha256:baml".to_string()),
            runner_hash: Some("sha256:runner".to_string()),
            runtime_mode: None,
        },
        CoerceStatus::Succeeded,
        None,
    );
    let summary = baml_runtime_summary(&[record]).expect("summary projects");
    assert_eq!(summary.mode, "generated_stdio");
    assert_eq!(summary.status, "observed");
    assert_eq!(summary.url, "stdio");
    assert_eq!(summary.baml_src_hash, Some("sha256:baml".to_string()));
    assert_eq!(summary.last_error, None);
    assert_eq!(summary.last_call_at, "2026-05-23T00:00:00Z");
}

#[test]
fn baml_runtime_summary_projects_brokered_records() {
    let record = record(
        CoerceBackend::BamlBrokered {
            request_id: "coerce_req_1".to_string(),
            baml_src_hash: Some("sha256:baml".to_string()),
        },
        CoerceStatus::Failed,
        Some("broker unavailable"),
    );
    let summary = baml_runtime_summary(&[record]).expect("summary projects");
    assert_eq!(summary.mode, "brokered");
    assert_eq!(summary.status, "failed");
    assert_eq!(summary.url, "brokered:coerce_req_1");
    assert_eq!(summary.baml_src_hash, Some("sha256:baml".to_string()));
    assert_eq!(summary.last_error, Some("broker unavailable".to_string()));
    assert_eq!(summary.last_call_at, "2026-05-23T00:00:00Z");
}

#[test]
fn baml_runtime_summary_skips_records_without_a_baml_backend() {
    let fake = record(CoerceBackend::Fake, CoerceStatus::Succeeded, None);
    assert!(baml_runtime_summary(&[fake]).is_none());
    let fake = record(CoerceBackend::Fake, CoerceStatus::Succeeded, None);
    let http = record(
        CoerceBackend::BamlHttp { url: "http://127.0.0.1:2024".to_owned(), baml_src_hash: None, runtime_mode: None },
        CoerceStatus::Succeeded,
        None,
    );
    let summary = baml_runtime_summary(&[fake, http]).expect("second record projects");
    assert_eq!(summary.mode, "external_http");
    assert_eq!(summary.url, "http://127.0.0.1:2024");
}

#[test]
fn coerce_status_names_round_trip() {
    for status in [CoerceStatus::Succeeded, CoerceStatus::Failed] {
        assert_eq!(coerce_status_from_name(coerce_status_name(status)), status);
    }
    assert_eq!(coerce_status_name(CoerceStatus::Succeeded), "succeeded");
    assert_eq!(coerce_status_from_name("garbage"), CoerceStatus::Failed);
}

fn request(function_name: &str) -> CoerceRequest {
    CoerceRequest {
        workflow_id: "Supervisor".to_owned(),
        function_name: function_name.to_owned(),
        args: vec![("message".to_owned(), Json::Str("hello".to_owned()))],
        idempotency_key: None,
        event_id: Some("event_1".to_owned()),
        step_path: None,
        backend: CoerceBackend::Fake,
        timeout_ms: None,
    }
}

#[test]
fn noop_executor_fails_with_missing_executor() {
    let error = NoopCoerceExecutor.coerce(request("ClassifyRun")).expect_err("no executor");
    assert_eq!(error.category, CoerceErrorCategory::MissingExecutor);
    assert_eq!(error.message, "no coerce executor configured for `ClassifyRun`");
}

#[test]
fn fake_executor_answers_configured_functions_only() {
    let fake = FakeCoerceExecutor::new(vec![("ClassifyRun".to_owned(), Json::Str("workerDone".to_owned()))]);
    let outcome = fake.coerce(request("ClassifyRun")).expect("configured");
    assert_eq!(outcome.status, CoerceStatus::Succeeded);
    assert!(matches!(outcome.value, Some(Json::Str(ref s)) if s == "workerDone"));
    let error = fake.coerce(request("Other")).expect_err("not configured");
    assert_eq!(error.category, CoerceErrorCategory::MissingFakeOutput);
}

#[test]
fn baml_http_coerce_executor_classifies_http_errors() {
    let executor = BamlHttpCoerceExecutor::new("http://127.0.0.1:9/".to_owned());
    let endpoint = executor.endpoint("ClassifyRun");
    assert_eq!(endpoint, "http://127.0.0.1:9/call/ClassifyRun");
    let error = executor
        .coerce_reply(
            "ClassifyRun".to_owned(),
            &endpoint,
            BamlHttpReply::Status {
                code: 500,
                status_text: "500 Internal Server Error".to_owned(),
                body: " {\"error\":\"nope\"} ".to_owned(),
            },
        )
        .expect_err("HTTP 500 should fail");
    assert_eq!(error.category, CoerceErrorCategory::BamlHttpError);
    assert_eq!(error.http_status, Some(500));
    assert!(error.message.ends_with(": {\"error\":\"nope\"}"));
    let timeout = executor
        .coerce_reply(
            "ClassifyRun".to_owned(),
            &endpoint,
            BamlHttpReply::SendFailed { timed_out: true, connect_failed: false, message: "slow".to_owned() },
        )
        .expect_err("timeout fails");
    assert_eq!(timeout.category, CoerceErrorCategory::BamlTimeout);
}

#[test]
fn baml_http_coerce_executor_reads_json_output_and_redacts_by_policy() {
    let executor = BamlHttpCoerceExecutor::new("http://host".to_owned()).with_store_raw_response(false);
    let outcome = executor
        .coerce_reply(
            "ClassifyRun".to_owned(),
            "http://host/call/ClassifyRun",
            BamlHttpReply::Body { code: 200, value: Json::Str("workerDone".to_owned()), elapsed_ms: 4 },
        )
        .expect("succeeds");
    assert!(matches!(outcome.value, Some(Json::Str(ref s)) if s == "workerDone"));
    assert_eq!(outcome.http_status, Some(200));
    let raw = from_json(outcome.raw_response.as_ref().expect("redaction note"));
    assert_eq!(raw, serde_json::from_str::<serde_json::Value>("{\"redacted\":true,\"reason\":\"policy\"}").unwrap());
}

#[test]
fn idempotency_key_prefers_the_request_key() {
    let mut req = request("ClassifyRun");
    let derived = derived_idempotency_key(&req, "version_1", "{\"message\":\"hello\"}");
    assert_eq!(derived, "Supervisor/version_1/event_1/<no-step>/ClassifyRun/{\"message\":\"hello\"}");
    assert_eq!(coerce_idempotency_key(&req, derived.clone()), derived);
    req.idempotency_key = Some("key_1".to_owned());
    assert_eq!(coerce_idempotency_key(&req, derived), "key_1");
}

#[test]
fn durable_coerce_executor_records_failed_attempts() {
    let req = request("ClassifyRun");
    let error = whipplescript::coerce::CoerceError::new(
        CoerceErrorCategory::BamlHttpError,
        "backend rejected request".to_owned(),
    );
    let failure = failed_record_from_error(&req, "key_1", "version_1", &error, "coerce_9".to_owned(), 1_700_000_000_000);
    assert_eq!(failure.status, CoerceStatus::Failed);
    assert!(failure.error.as_deref().is_some_and(|e| e.contains("backend rejected request")));
    assert_eq!(failure.idempotency_key, "key_1");
    assert_eq!(failure.coerce_call_id, "coerce_9");
}

#[test]
fn durable_records_replay_their_outcome() {
    let req = request("ClassifyRun");
    let fake = FakeCoerceExecutor::new(vec![("ClassifyRun".to_owned(), Json::Str("workerDone".to_owned()))]);
    let outcome = fake.coerce(request("ClassifyRun")).expect("configured");
    let record = record_from_outcome(&req, "key_1", "version_1", &outcome, new_coerce_call_id(), 5);
    assert!(record.coerce_call_id.starts_with("coerce_"));
    assert_eq!(record.coerce_call_id.len(), "coerce_".len() + 26);
    assert_eq!(record.status, CoerceStatus::Succeeded);
    let replay = outcome_from_record(record);
    assert_eq!(replay.function_name, "ClassifyRun");
    assert!(matches!(replay.value, Some(Json::Str(ref s)) if s == "workerDone"));
}

#[test]
fn coerce_call_ids_are_fresh() {
    assert_ne!(new_coerce_call_id(), new_coerce_call_id());
}

#[test]
fn durable_coerce_replays_a_succeeded_record_or_calls_once() {
    assert!(matches!(durable_start(None), DurableStart::Call));
    let req = request("ClassifyRun");
    let fake = FakeCoerceExecutor::new(vec![("ClassifyRun".to_owned(), Json::Str("workerDone".to_owned()))]);
    let result = fake.coerce(request("ClassifyRun"));
    let record = durable_attempt_record(&req, "key_1", "version_1", &result, "coerce_1".to_owned(), 5);
    assert_eq!(record.status, CoerceStatus::Succeeded);
    assert_eq!(record.idempotency_key, "key_1");
    match durable_start(Some(record)) {
        DurableStart::Replay(outcome) => {
            assert_eq!(outcome.function_name, "ClassifyRun");
            assert!(matches!(outcome.value, Some(Json::Str(ref s)) if s == "workerDone"));
        }
        DurableStart::Call => panic!("a succeeded record is replayed"),
    }
    let failed = whipplescript::coerce::CoerceError::new(CoerceErrorCategory::BamlHttpError, "down".to_owned());
    let record = durable_attempt_record(&req, "key_1", "version_1", &Err(failed), "coerce_2".to_owned(), 6);
    assert_eq!(record.status, CoerceStatus::Failed);
}

#[test]
fn durable_calls_replay_the_latest_success_under_their_key() {
    let req = request("ClassifyRun");
    let failing = NoopCoerceExecutor;
    let fake = FakeCoerceExecutor::new(vec![("ClassifyRun".to_owned(), Json::Str("workerDone".to_owned()))]);
    let mut records = Vec::new();
    let mut calls = 0;
    for attempt in 0..3u64 {
        match find_successful_coerce_call(&records, "Supervisor", "key_1") {
            Some(i) => assert_eq!(records[i].coerce_call_id, "coerce_1"),
            None => {
                calls += 1;
                let result = if attempt == 0 { failing.coerce(request("ClassifyRun")) } else { fake.coerce(request("ClassifyRun")) };
                let id = format!("coerce_{}", attempt);
                record_coerce_attempt(&mut records, &req, "key_1", "version_1", &result, id, attempt);
            }
        }
    }
    // The failed first attempt is not replayed; the second succeeds and the third replays it.
    assert_eq!(calls, 2);
    assert_eq!(records.len(), 2);
    assert_eq!(records[0].status, CoerceStatus::Failed);
    assert_eq!(records[1].status, CoerceStatus::Succeeded);
    assert!(matches!(records[1].parsed_output, Some(Json::Str(ref s)) if s == "workerDone"));
    assert_eq!(find_successful_coerce_call(&records, "Supervisor", "key_1"), Some(1));
    assert_eq!(find_successful_coerce_call(&records, "Supervisor", "key_2"), None);
    assert_eq!(find_successful_coerce_call(&records, "Other", "key_1"), None);
}
