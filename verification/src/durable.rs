//! The durable side of coerce calls: the idempotency key a call is kept
//! under, the record of each attempt, and the outcome replayed from a
//! successful record.
use vstd::prelude::*;
use crate::coerce::{CoerceBackend, CoerceCallRecord, CoerceError, CoerceErrorCategory, CoerceOutcome, CoerceRequest, CoerceStatus};
use crate::json::{Json, JsonValue};
use crate::text::{decimal, u64_to_decimal};

verus! {

/// The name of an error category, as its `Debug` rendering spells it.
pub open spec fn category_name(c: CoerceErrorCategory) -> Seq<char> {
    match c {
        CoerceErrorCategory::MissingExecutor => "MissingExecutor"@,
        CoerceErrorCategory::MissingFakeOutput => "MissingFakeOutput"@,
        CoerceErrorCategory::BamlServerUnavailable => "BamlServerUnavailable"@,
        CoerceErrorCategory::BamlRunnerUnavailable => "BamlRunnerUnavailable"@,
        CoerceErrorCategory::BamlRunnerProtocolError => "BamlRunnerProtocolError"@,
        CoerceErrorCategory::BamlBrokerUnavailable => "BamlBrokerUnavailable"@,
        CoerceErrorCategory::BamlHttpError => "BamlHttpError"@,
        CoerceErrorCategory::BamlTimeout => "BamlTimeout"@,
        CoerceErrorCategory::BamlParseFailure => "BamlParseFailure"@,
        CoerceErrorCategory::BamlSchemaValidationFailure => "BamlSchemaValidationFailure"@,
        CoerceErrorCategory::BamlPolicyDenied => "BamlPolicyDenied"@,
        CoerceErrorCategory::InternalError => "InternalError"@,
    }
}

fn category_text(c: CoerceErrorCategory) -> (r: &'static str)
    ensures
        r@ == category_name(c),
{
    match c {
        CoerceErrorCategory::MissingExecutor => "MissingExecutor",
        CoerceErrorCategory::MissingFakeOutput => "MissingFakeOutput",
        CoerceErrorCategory::BamlServerUnavailable => "BamlServerUnavailable",
        CoerceErrorCategory::BamlRunnerUnavailable => "BamlRunnerUnavailable",
        CoerceErrorCategory::BamlRunnerProtocolError => "BamlRunnerProtocolError",
        CoerceErrorCategory::BamlBrokerUnavailable => "BamlBrokerUnavailable",
        CoerceErrorCategory::BamlHttpError => "BamlHttpError",
        CoerceErrorCategory::BamlTimeout => "BamlTimeout",
        CoerceErrorCategory::BamlParseFailure => "BamlParseFailure",
        CoerceErrorCategory::BamlSchemaValidationFailure => "BamlSchemaValidationFailure",
        CoerceErrorCategory::BamlPolicyDenied => "BamlPolicyDenied",
        CoerceErrorCategory::InternalError => "InternalError",
    }
}

impl CoerceError {
    /// What the error reads as: its category, a colon, its message.
    pub fn text(&self) -> (r: String)
        ensures
            r@ == category_name(self.category) + ": "@ + self.message@,
    {
        let mut s = category_text(self.category).to_owned();
        s.append(": ");
        s.append(self.message.as_str());
        s
    }
}

/// The optional text of an optional string.
pub open spec fn opt_text(o: Option<String>) -> Option<Seq<char>> {
    match o {
        Some(s) => Some(s@),
        None => None,
    }
}

/// The key a call without its own idempotency key is kept under: workflow,
/// version, event (`<no-event>`), step (`<no-step>`), function and the
/// arguments' JSON text, joined by `/`.
pub open spec fn derived_key_spec(request: CoerceRequest, workflow_version: Seq<char>, args_json: Seq<char>) -> Seq<char> {
    request.workflow_id@ + "/"@ + workflow_version + "/"@ + match opt_text(request.event_id) {
        Some(e) => e,
        None => "<no-event>"@,
    } + "/"@ + match opt_text(request.step_path) {
        Some(s) => s,
        None => "<no-step>"@,
    } + "/"@ + request.function_name@ + "/"@ + args_json
}

/// The key a call without its own idempotency key is kept under, given the
/// JSON text of its arguments.
pub fn derived_idempotency_key(request: &CoerceRequest, workflow_version: &str, args_json: &str) -> (r: String)
    ensures
        r@ == derived_key_spec(*request, workflow_version@, args_json@),
{
    let mut k = request.workflow_id.clone();
    k.append("/");
    k.append(workflow_version);
    k.append("/");
    match &request.event_id {
        Some(e) => k.append(e.as_str()),
        None => k.append("<no-event>"),
    }
    k.append("/");
    match &request.step_path {
        Some(s) => k.append(s.as_str()),
        None => k.append("<no-step>"),
    }
    k.append("/");
    k.append(request.function_name.as_str());
    k.append("/");
    k.append(args_json);
    k
}

/// The key a call is kept under: its own, or the derived one.
pub fn coerce_idempotency_key(request: &CoerceRequest, derived: String) -> (r: String)
    ensures
        r@ == match opt_text(request.idempotency_key) {
            Some(k) => k,
            None => derived@,
        },
{
    match &request.idempotency_key {
        Some(k) => k.clone(),
        None => derived,
    }
}

/// The arguments of a call, as the contracts read them.
pub open spec fn args_view(args: Seq<(String, Json)>) -> Seq<(Seq<char>, JsonValue)> {
    args.map_values(|a: (String, Json)| (a.0@, a.1.value()))
}

/// The optional value of an optional JSON value.
pub open spec fn opt_value(o: Option<Json>) -> Option<JsonValue> {
    match o {
        Some(j) => Some(j.value()),
        None => None,
    }
}

fn copy_opt_json(o: &Option<Json>) -> (r: Option<Json>)
    ensures
        opt_value(r) == opt_value(*o),
{
    match o {
        Some(j) => Some(j.deep_clone()),
        None => None,
    }
}

fn copy_opt_string(o: &Option<String>) -> (r: Option<String>)
    ensures
        r == *o,
{
    match o {
        Some(s) => Some(s.clone()),
        None => None,
    }
}

fn copy_args(args: &Vec<(String, Json)>) -> (r: Vec<(String, Json)>)
    ensures
        args_view(r@) == args_view(args@),
{
    let mut r: Vec<(String, Json)> = Vec::new();
    let mut i: usize = 0;
    while i < args.len()
        invariant
            i <= args.len(),
            args_view(r@) == args_view(args@).subrange(0, i as int),
        decreases args.len() - i,
    {
        let ghost before = r@;
        r.push((args[i].0.clone(), args[i].1.deep_clone()));
        proof {
            assert(args_view(r@) =~= args_view(before).push((args@[i as int].0@, args@[i as int].1.value())));
            assert(args_view(args@).subrange(0, i + 1) =~= args_view(args@).subrange(0, i as int).push(
                (args@[i as int].0@, args@[i as int].1.value()),
            ));
        }
        i += 1;
    }
    assert(args_view(args@).subrange(0, args.len() as int) =~= args_view(args@));
    r
}

/// A copy of a backend.
pub fn copy_backend(b: &CoerceBackend) -> (r: CoerceBackend)
    ensures
        r == *b,
{
    match b {
        CoerceBackend::NoBackend => CoerceBackend::NoBackend,
        CoerceBackend::Fake => CoerceBackend::Fake,
        CoerceBackend::BamlHttp { url, baml_src_hash, runtime_mode } => CoerceBackend::BamlHttp {
            url: url.clone(),
            baml_src_hash: copy_opt_string(baml_src_hash),
            runtime_mode: copy_opt_string(runtime_mode),
        },
        CoerceBackend::BamlGeneratedStdio { baml_src_hash, runner_hash, runtime_mode } => CoerceBackend::BamlGeneratedStdio {
            baml_src_hash: copy_opt_string(baml_src_hash),
            runner_hash: copy_opt_string(runner_hash),
            runtime_mode: copy_opt_string(runtime_mode),
        },
        CoerceBackend::BamlBrokered { request_id, baml_src_hash } => CoerceBackend::BamlBrokered {
            request_id: request_id.clone(),
            baml_src_hash: copy_opt_string(baml_src_hash),
        },
    }
}

/// What every attempt record of a request holds: its id and time, the
/// workflow and version, no transition, the request's event, its step
/// (`expression` where none), function, key and arguments.
pub open spec fn record_common(
    r: CoerceCallRecord,
    request: CoerceRequest,
    idempotency_key: Seq<char>,
    workflow_version: Seq<char>,
    coerce_call_id: Seq<char>,
    now: u64,
) -> bool {
    &&& r.coerce_call_id@ == coerce_call_id
    &&& r.workflow_id@ == request.workflow_id@
    &&& r.workflow_version@ == workflow_version
    &&& r.transition_id is None
    &&& r.event_id == request.event_id
    &&& r.step_path@ == match opt_text(request.step_path) {
        Some(s) => s,
        None => "expression"@,
    }
    &&& r.function_name@ == request.function_name@
    &&& r.idempotency_key@ == idempotency_key
    &&& args_view(r.args@) == args_view(request.args@)
    &&& r.created_at@ == decimal(now as nat)
}

fn step_or_expression(request: &CoerceRequest) -> (r: String)
    ensures
        r@ == match opt_text(request.step_path) {
            Some(s) => s,
            None => "expression"@,
        },
{
    match &request.step_path {
        Some(s) => s.clone(),
        None => "expression".to_owned(),
    }
}

/// The record of an attempt that returned an outcome, with the given id,
/// made at `now` (milliseconds).
pub fn record_from_outcome(
    request: &CoerceRequest,
    idempotency_key: &str,
    workflow_version: &str,
    outcome: &CoerceOutcome,
    coerce_call_id: String,
    now: u64,
) -> (r: CoerceCallRecord)
    ensures
        record_common(r, *request, idempotency_key@, workflow_version@, coerce_call_id@, now),
        r.backend == outcome.backend,
        r.status == outcome.status,
        r.http_status == outcome.http_status,
        opt_value(r.raw_response) == opt_value(outcome.raw_response),
        opt_value(r.parsed_output) == opt_value(outcome.value),
        r.error == outcome.error,
        r.duration_ms == outcome.duration_ms,
{
    CoerceCallRecord {
        coerce_call_id,
        workflow_id: request.workflow_id.clone(),
        workflow_version: workflow_version.to_owned(),
        transition_id: None,
        event_id: copy_opt_string(&request.event_id),
        step_path: step_or_expression(request),
        function_name: request.function_name.clone(),
        idempotency_key: idempotency_key.to_owned(),
        backend: copy_backend(&outcome.backend),
        args: copy_args(&request.args),
        status: outcome.status,
        http_status: outcome.http_status,
        raw_response: copy_opt_json(&outcome.raw_response),
        parsed_output: copy_opt_json(&outcome.value),
        error: copy_opt_string(&outcome.error),
        duration_ms: outcome.duration_ms,
        created_at: u64_to_decimal(now),
    }
}

/// The record of an attempt that failed, with the given id, made at `now`
/// (milliseconds): the request's backend, the error's status and text.
pub fn failed_record_from_error(
    request: &CoerceRequest,
    idempotency_key: &str,
    workflow_version: &str,
    error: &CoerceError,
    coerce_call_id: String,
    now: u64,
) -> (r: CoerceCallRecord)
    ensures
        record_common(r, *request, idempotency_key@, workflow_version@, coerce_call_id@, now),
        r.backend == request.backend,
        r.status == CoerceStatus::Failed,
        r.http_status == error.http_status,
        r.raw_response is None,
        r.parsed_output is None,
        opt_text(r.error) == Some(category_name(error.category) + ": "@ + error.message@),
        r.duration_ms is None,
{
    CoerceCallRecord {
        coerce_call_id,
        workflow_id: request.workflow_id.clone(),
        workflow_version: workflow_version.to_owned(),
        transition_id: None,
        event_id: copy_opt_string(&request.event_id),
        step_path: step_or_expression(request),
        function_name: request.function_name.clone(),
        idempotency_key: idempotency_key.to_owned(),
        backend: copy_backend(&request.backend),
        args: copy_args(&request.args),
        status: CoerceStatus::Failed,
        http_status: error.http_status,
        raw_response: None,
        parsed_output: None,
        error: Some(error.text()),
        duration_ms: None,
        created_at: u64_to_decimal(now),
    }
}

/// A fresh id for a coerce call record: `coerce_` and a new ULID.
pub fn new_coerce_call_id() -> (r: String)
    ensures
        exists|u: Seq<char>| u.len() == 26 && r@ == "coerce_"@ + u,
{
    let ulid = crate::engine::new_ulid();
    let mut id = "coerce_".to_owned();
    id.append(ulid.as_str());
    assert(ulid@.len() == 26 && id@ == "coerce_"@ + ulid@);
    id
}

/// The outcome replayed from the record of a successful attempt.
pub fn outcome_from_record(record: CoerceCallRecord) -> (r: CoerceOutcome)
    ensures
        r.function_name == record.function_name,
        r.status == record.status,
        r.value == record.parsed_output,
        r.backend == record.backend,
        r.http_status == record.http_status,
        r.raw_response == record.raw_response,
        r.error == record.error,
        r.duration_ms == record.duration_ms,
{
    CoerceOutcome {
        function_name: record.function_name,
        status: record.status,
        value: record.parsed_output,
        backend: record.backend,
        http_status: record.http_status,
        raw_response: record.raw_response,
        error: record.error,
        duration_ms: record.duration_ms,
    }
}

/// What the durable coerce executor does first with a call: replay the
/// outcome of a succeeded attempt already recorded under the call's key,
/// or, with none, make the call.
pub enum DurableStart {
    Replay(CoerceOutcome),
    Call,
}

/// The durable executor's first step, given the succeeded record found
/// under the call's idempotency key, if any.
pub fn durable_start(found: Option<CoerceCallRecord>) -> (r: DurableStart)
    ensures
        found is None ==> r is Call,
        found matches Some(rec) ==> (r matches DurableStart::Replay(o) && o.function_name == rec.function_name
            && o.status == rec.status && o.value == rec.parsed_output && o.backend == rec.backend && o.http_status
            == rec.http_status && o.raw_response == rec.raw_response && o.error == rec.error && o.duration_ms
            == rec.duration_ms),
{
    match found {
        Some(record) => DurableStart::Replay(outcome_from_record(record)),
        None => DurableStart::Call,
    }
}

/// The one record the durable executor appends after making a call: the
/// attempt's outcome, or its failure.
pub fn durable_attempt_record(
    request: &CoerceRequest,
    idempotency_key: &str,
    workflow_version: &str,
    result: &Result<CoerceOutcome, CoerceError>,
    coerce_call_id: String,
    now: u64,
) -> (r: CoerceCallRecord)
    ensures
        record_common(r, *request, idempotency_key@, workflow_version@, coerce_call_id@, now),
        match result {
            Ok(outcome) => r.backend == outcome.backend && r.status == outcome.status && r.http_status
                == outcome.http_status && opt_value(r.raw_response) == opt_value(outcome.raw_response) && opt_value(
                r.parsed_output,
            ) == opt_value(outcome.value) && r.error == outcome.error && r.duration_ms == outcome.duration_ms,
            Err(error) => r.backend == request.backend && r.status == CoerceStatus::Failed && r.http_status
                == error.http_status && r.raw_response is None && r.parsed_output is None && opt_text(r.error) == Some(
                category_name(error.category) + ": "@ + error.message@,
            ) && r.duration_ms is None,
        },
{
    match result {
        Ok(outcome) => record_from_outcome(request, idempotency_key, workflow_version, outcome, coerce_call_id, now),
        Err(error) => failed_record_from_error(request, idempotency_key, workflow_version, error, coerce_call_id, now),
    }
}


/// Whether a record is a succeeded attempt of workflow `wf` under `key`.
pub open spec fn succeeded_under(r: CoerceCallRecord, wf: Seq<char>, key: Seq<char>) -> bool {
    r.workflow_id@ == wf && r.idempotency_key@ == key && r.status == CoerceStatus::Succeeded
}

/// The position of the latest succeeded attempt of workflow `wf` under
/// `key` among the attempts recorded so far, oldest first.
pub open spec fn latest_success(records: Seq<CoerceCallRecord>, wf: Seq<char>, key: Seq<char>) -> Option<int>
    decreases records.len(),
{
    if records.len() == 0 {
        None
    } else if succeeded_under(records.last(), wf, key) {
        Some(records.len() - 1)
    } else {
        latest_success(records.drop_last(), wf, key)
    }
}

/// The latest succeeded attempt of a workflow under a key, among the
/// attempts recorded so far (oldest first): the record a durable call
/// under that key replays.
pub fn find_successful_coerce_call(records: &Vec<CoerceCallRecord>, workflow_id: &str, idempotency_key: &str) -> (r: Option<usize>)
    ensures
        match r {
            Some(i) => latest_success(records@, workflow_id@, idempotency_key@) == Some(i as int),
            None => latest_success(records@, workflow_id@, idempotency_key@) is None,
        },
{
    let mut n: usize = records.len();
    assert(records@.subrange(0, n as int) =~= records@);
    while n > 0
        invariant
            n <= records@.len(),
            latest_success(records@, workflow_id@, idempotency_key@) == latest_success(
                records@.subrange(0, n as int),
                workflow_id@,
                idempotency_key@,
            ),
        decreases n,
    {
        let ghost sub = records@.subrange(0, n as int);
        assert(sub.drop_last() =~= records@.subrange(0, n - 1));
        assert(sub.last() == records@[n - 1]);
        let rec = &records[n - 1];
        if crate::text::str_eq(rec.workflow_id.as_str(), workflow_id) && crate::text::str_eq(
            rec.idempotency_key.as_str(),
            idempotency_key,
        ) && rec.status == CoerceStatus::Succeeded {
            return Some(n - 1);
        }
        n -= 1;
    }
    None
}

/// Records one attempt of a durable call: exactly one record, keyed by the
/// call's key, is appended. A succeeded outcome is what the next call
/// under that key replays; a failure, or an outcome that did not succeed,
/// leaves that unchanged.
pub fn record_coerce_attempt(
    records: &mut Vec<CoerceCallRecord>,
    request: &CoerceRequest,
    idempotency_key: &str,
    workflow_version: &str,
    result: &Result<CoerceOutcome, CoerceError>,
    coerce_call_id: String,
    now: u64,
)
    ensures
        final(records)@.len() == old(records)@.len() + 1,
        final(records)@.drop_last() == old(records)@,
        record_common(final(records)@.last(), *request, idempotency_key@, workflow_version@, coerce_call_id@, now),
        match result {
            Ok(outcome) => final(records)@.last().status == outcome.status,
            Err(_) => final(records)@.last().status == CoerceStatus::Failed,
        },
        (result matches Ok(o) && o.status == CoerceStatus::Succeeded) ==> latest_success(
            final(records)@,
            request.workflow_id@,
            idempotency_key@,
        ) == Some(old(records)@.len() as int),
        !(result matches Ok(o) && o.status == CoerceStatus::Succeeded) ==> latest_success(
            final(records)@,
            request.workflow_id@,
            idempotency_key@,
        ) == latest_success(old(records)@, request.workflow_id@, idempotency_key@),
{
    let record = durable_attempt_record(request, idempotency_key, workflow_version, result, coerce_call_id, now);
    records.push(record);
    proof {
        assert(final(records)@.drop_last() =~= old(records)@);
    }
}

/// Durable coerce calls are idempotent: once an attempt under a key has
/// succeeded, every later call of that workflow under the key finds a
/// succeeded record to replay, whatever other attempts are recorded after
/// it; the latest one found is never earlier than that attempt.
pub proof fn law_success_is_replayed(
    records: Seq<CoerceCallRecord>,
    k: int,
    later: Seq<CoerceCallRecord>,
    wf: Seq<char>,
    key: Seq<char>,
)
    requires
        0 <= k < records.len(),
        succeeded_under(records[k], wf, key),
    ensures
        latest_success(records + later, wf, key) matches Some(i) && k <= i < records.len() + later.len() && succeeded_under((records + later)[i], wf, key),
    decreases later.len(),
{
    if later.len() == 0 {
        assert(records + later =~= records);
        lemma_latest_success_at_least(records, k, wf, key);
    } else {
        let all = records + later;
        assert(all.drop_last() =~= records + later.drop_last());
        assert(all[k] == records[k]);
        if !succeeded_under(all.last(), wf, key) {
            law_success_is_replayed(records, k, later.drop_last(), wf, key);
            let i = latest_success(all.drop_last(), wf, key)->Some_0;
            assert(all.drop_last()[i] == all[i]);
        }
    }
}

/// The latest succeeded record is at or after any succeeded record.
proof fn lemma_latest_success_at_least(records: Seq<CoerceCallRecord>, k: int, wf: Seq<char>, key: Seq<char>)
    requires
        0 <= k < records.len(),
        succeeded_under(records[k], wf, key),
    ensures
        latest_success(records, wf, key) matches Some(i) && k <= i < records.len() && succeeded_under(records[i], wf, key),
    decreases records.len(),
{
    if !succeeded_under(records.last(), wf, key) {
        assert(k < records.len() - 1);
        assert(records.drop_last()[k] == records[k]);
        lemma_latest_success_at_least(records.drop_last(), k, wf, key);
        let i = latest_success(records.drop_last(), wf, key)->Some_0;
        assert(records.drop_last()[i] == records[i]);
    }
}

/// A call under a key that no succeeded attempt was recorded under finds
/// nothing to replay, and makes the call.
pub proof fn law_no_success_means_a_call(records: Seq<CoerceCallRecord>, wf: Seq<char>, key: Seq<char>)
    requires
        forall|i: int| 0 <= i < records.len() ==> !succeeded_under(#[trigger] records[i], wf, key),
    ensures
        latest_success(records, wf, key) is None,
    decreases records.len(),
{
    if records.len() > 0 {
        assert(!succeeded_under(records[records.len() - 1], wf, key));
        assert forall|i: int| 0 <= i < records.drop_last().len() implies !succeeded_under(
            #[trigger] records.drop_last()[i],
            wf,
            key,
        ) by {
            assert(records.drop_last()[i] == records[i]);
        }
        law_no_success_means_a_call(records.drop_last(), wf, key);
    }
}

} // verus!
