//! Typed `coerce` calls: requests, outcomes, durable call records, the
//! executors that need no network, and what the status view shows of them.
use vstd::prelude::*;
use crate::json::{Json, JsonValue};
use crate::text::{chars_of, str_eq, string_from_chars, trim_spec};

verus! {

/// Which backend served (or was asked for) a coerce call.
#[derive(Debug)]
pub enum CoerceBackend {
    /// No backend (stored as `none`).
    NoBackend,
    Fake,
    BamlHttp { url: String, baml_src_hash: Option<String>, runtime_mode: Option<String> },
    BamlGeneratedStdio {
        baml_src_hash: Option<String>,
        runner_hash: Option<String>,
        runtime_mode: Option<String>,
    },
    BamlBrokered { request_id: String, baml_src_hash: Option<String> },
}

/// Whether a coerce call succeeded.
#[derive(Clone, Copy, Debug, PartialEq, Eq, Structural)]
pub enum CoerceStatus {
    Succeeded,
    Failed,
}

/// The kind of a coerce failure.
#[derive(Clone, Copy, Debug, PartialEq, Eq, Structural)]
pub enum CoerceErrorCategory {
    MissingExecutor,
    MissingFakeOutput,
    BamlServerUnavailable,
    BamlRunnerUnavailable,
    BamlRunnerProtocolError,
    BamlBrokerUnavailable,
    BamlHttpError,
    BamlTimeout,
    BamlParseFailure,
    BamlSchemaValidationFailure,
    BamlPolicyDenied,
    InternalError,
}

/// A failed coerce call.
#[derive(Debug)]
pub struct CoerceError {
    pub category: CoerceErrorCategory,
    pub message: String,
    pub http_status: Option<u16>,
}

impl CoerceError {
    /// A failure of the given kind with no HTTP status.
    pub fn new(category: CoerceErrorCategory, message: String) -> (r: Self)
        ensures
            r.category == category,
            r.message == message,
            r.http_status is None,
    {
        CoerceError { category, message, http_status: None }
    }

    /// The failure with an HTTP status attached.
    pub fn with_http_status(self, http_status: Option<u16>) -> (r: Self)
        ensures
            r == (CoerceError { http_status, ..self }),
    {
        CoerceError { http_status, ..self }
    }
}

/// A coerce call to make: a function, its named arguments, and where it
/// stands in the workflow.
#[derive(Debug)]
pub struct CoerceRequest {
    pub workflow_id: String,
    pub function_name: String,
    pub args: Vec<(String, Json)>,
    pub idempotency_key: Option<String>,
    pub event_id: Option<String>,
    pub step_path: Option<String>,
    pub backend: CoerceBackend,
    pub timeout_ms: Option<u64>,
}

/// What a coerce call returned.
#[derive(Debug)]
pub struct CoerceOutcome {
    pub function_name: String,
    pub status: CoerceStatus,
    pub value: Option<Json>,
    pub backend: CoerceBackend,
    pub http_status: Option<u16>,
    pub raw_response: Option<Json>,
    pub error: Option<String>,
    pub duration_ms: Option<u64>,
}

/// The durable record of one coerce call attempt.
#[derive(Debug)]
pub struct CoerceCallRecord {
    pub coerce_call_id: String,
    pub workflow_id: String,
    pub workflow_version: String,
    pub transition_id: Option<String>,
    pub event_id: Option<String>,
    pub step_path: String,
    pub function_name: String,
    pub idempotency_key: String,
    pub backend: CoerceBackend,
    pub args: Vec<(String, Json)>,
    pub status: CoerceStatus,
    pub http_status: Option<u16>,
    pub raw_response: Option<Json>,
    pub parsed_output: Option<Json>,
    pub error: Option<String>,
    pub duration_ms: Option<u64>,
    pub created_at: String,
}

/// Runs coerce calls.
pub trait CoerceExecutor {
    fn coerce(&self, request: CoerceRequest) -> Result<CoerceOutcome, CoerceError>;
}

/// The executor used when none is configured: every call fails.
#[derive(Debug)]
pub struct NoopCoerceExecutor;

impl CoerceExecutor for NoopCoerceExecutor {
    /// Fails with `MissingExecutor`, naming the function.
    fn coerce(&self, request: CoerceRequest) -> (r: Result<CoerceOutcome, CoerceError>)
        ensures
            r matches Err(e) && e.category == CoerceErrorCategory::MissingExecutor && e.http_status
                is None && e.message@ == "no coerce executor configured for `"@
                + request.function_name@ + "`"@,
    {
        let mut message = "no coerce executor configured for `".to_owned();
        message.append(request.function_name.as_str());
        message.append("`");
        Err(CoerceError::new(CoerceErrorCategory::MissingExecutor, message))
    }
}

/// The value stored for `name` among `outputs` (first match).
pub open spec fn output_for(outputs: Seq<(String, Json)>, name: Seq<char>) -> Option<JsonValue>
    decreases outputs.len(),
{
    if outputs.len() == 0 {
        None
    } else if outputs[0].0@ == name {
        Some(outputs[0].1.value())
    } else {
        output_for(outputs.drop_first(), name)
    }
}

/// An executor answering each function with a configured value.
#[derive(Debug)]
pub struct FakeCoerceExecutor {
    /// Configured outputs by function name, each name once.
    pub outputs: Vec<(String, Json)>,
}

impl FakeCoerceExecutor {
    /// An executor with the given outputs.
    pub fn new(outputs: Vec<(String, Json)>) -> (r: Self)
        ensures
            r.outputs == outputs,
    {
        FakeCoerceExecutor { outputs }
    }
}

impl CoerceExecutor for FakeCoerceExecutor {
    /// Succeeds with the configured value for the function, or fails with
    /// `MissingFakeOutput` when none is configured.
    fn coerce(&self, request: CoerceRequest) -> (r: Result<CoerceOutcome, CoerceError>)
        ensures
            match output_for(self.outputs@, request.function_name@) {
                Some(v) => r is Ok && ({
                    let o = r->Ok_0;
                    &&& o.function_name == request.function_name
                    &&& o.status == CoerceStatus::Succeeded
                    &&& o.value is Some && o.value->Some_0.value() == v
                    &&& o.backend is Fake
                    &&& o.http_status is None
                    &&& o.raw_response is None
                    &&& o.error is None
                    &&& o.duration_ms is None
                }),
                None => r matches Err(e) && e.category == CoerceErrorCategory::MissingFakeOutput
                    && e.http_status is None && e.message@ == "no fake output configured for `"@
                    + request.function_name@ + "`"@,
            },
    {
        let mut i: usize = 0;
        assert(self.outputs@.subrange(0, self.outputs@.len() as int) =~= self.outputs@);
        while i < self.outputs.len()
            invariant
                i <= self.outputs@.len(),
                output_for(self.outputs@, request.function_name@) == output_for(
                    self.outputs@.subrange(i as int, self.outputs@.len() as int),
                    request.function_name@,
                ),
            decreases self.outputs.len() - i,
        {
            let ghost rest = self.outputs@.subrange(i as int, self.outputs@.len() as int);
            assert(rest.drop_first() =~= self.outputs@.subrange(i + 1, self.outputs@.len() as int));
            assert(rest[0] == self.outputs@[i as int]);
            if str_eq(self.outputs[i].0.as_str(), request.function_name.as_str()) {
                let value = self.outputs[i].1.deep_clone();
                return Ok(
                    CoerceOutcome {
                        function_name: request.function_name,
                        status: CoerceStatus::Succeeded,
                        value: Some(value),
                        backend: CoerceBackend::Fake,
                        http_status: None,
                        raw_response: None,
                        error: None,
                        duration_ms: None,
                    },
                );
            }
            i += 1;
        }
        let mut message = "no fake output configured for `".to_owned();
        message.append(request.function_name.as_str());
        message.append("`");
        Err(CoerceError::new(CoerceErrorCategory::MissingFakeOutput, message))
    }
}

/// The text with every trailing `/` removed (`trim_end_matches('/')`).
pub open spec fn without_trailing_slashes(cs: Seq<char>) -> Seq<char>
    decreases cs.len(),
{
    if cs.len() > 0 && cs.last() == '/' {
        without_trailing_slashes(cs.drop_last())
    } else {
        cs
    }
}

/// A coerce executor that calls a BAML HTTP server.
#[derive(Debug)]
pub struct BamlHttpCoerceExecutor {
    pub base_url: String,
    pub baml_src_hash: Option<String>,
    pub runtime_mode: Option<String>,
    pub timeout_ms: Option<u64>,
    pub api_key: Option<String>,
    pub store_raw_response: bool,
}

impl BamlHttpCoerceExecutor {
    /// An executor for the server at `base_url` that stores raw responses.
    pub fn new(base_url: String) -> (r: Self)
        ensures
            r.base_url == base_url,
            r.baml_src_hash is None,
            r.runtime_mode is None,
            r.timeout_ms is None,
            r.api_key is None,
            r.store_raw_response,
    {
        BamlHttpCoerceExecutor {
            base_url,
            baml_src_hash: None,
            runtime_mode: None,
            timeout_ms: None,
            api_key: None,
            store_raw_response: true,
        }
    }

    /// With the hash of the BAML sources.
    pub fn with_baml_src_hash(self, baml_src_hash: Option<String>) -> (r: Self)
        ensures
            r == (BamlHttpCoerceExecutor { baml_src_hash, ..self }),
    {
        BamlHttpCoerceExecutor { baml_src_hash, ..self }
    }

    /// With the runtime mode it reports.
    pub fn with_runtime_mode(self, runtime_mode: Option<String>) -> (r: Self)
        ensures
            r == (BamlHttpCoerceExecutor { runtime_mode, ..self }),
    {
        BamlHttpCoerceExecutor { runtime_mode, ..self }
    }

    /// With a default timeout for calls that set none.
    pub fn with_timeout_ms(self, timeout_ms: Option<u64>) -> (r: Self)
        ensures
            r == (BamlHttpCoerceExecutor { timeout_ms, ..self }),
    {
        BamlHttpCoerceExecutor { timeout_ms, ..self }
    }

    /// With the API key sent as `x-baml-api-key`.
    pub fn with_api_key(self, api_key: Option<String>) -> (r: Self)
        ensures
            r == (BamlHttpCoerceExecutor { api_key, ..self }),
    {
        BamlHttpCoerceExecutor { api_key, ..self }
    }

    /// Whether raw responses are stored (otherwise a redaction note is).
    pub fn with_store_raw_response(self, store_raw_response: bool) -> (r: Self)
        ensures
            r == (BamlHttpCoerceExecutor { store_raw_response, ..self }),
    {
        BamlHttpCoerceExecutor { store_raw_response, ..self }
    }

    /// The URL of a function: the base URL without trailing slashes, then
    /// `/call/` and the function name.
    pub fn endpoint(&self, function_name: &str) -> (r: String)
        ensures
            r@ == without_trailing_slashes(self.base_url@) + "/call/"@ + function_name@,
    {
        let cs = chars_of(self.base_url.as_str());
        let mut end = cs.len();
        proof {
            assert(cs@.subrange(0, cs@.len() as int) =~= cs@);
        }
        while end > 0 && cs[end - 1] == '/'
            invariant
                end <= cs.len(),
                without_trailing_slashes(cs@) == without_trailing_slashes(cs@.subrange(0, end as int)),
            decreases end,
        {
            assert(cs@.subrange(0, end as int).drop_last() =~= cs@.subrange(0, end - 1));
            end -= 1;
        }
        let base = crate::text::chars_slice(&cs, 0, end);
        let mut r = string_from_chars(&base);
        r.append("/call/");
        r.append(function_name);
        r
    }

    /// The backend the executor reports: BAML over HTTP with its URL, source
    /// hash and runtime mode.
    pub fn backend(&self) -> (r: CoerceBackend)
        ensures
            r == (CoerceBackend::BamlHttp {
                url: self.base_url,
                baml_src_hash: self.baml_src_hash,
                runtime_mode: self.runtime_mode,
            }),
    {
        CoerceBackend::BamlHttp {
            url: self.base_url.clone(),
            baml_src_hash: self.baml_src_hash.clone(),
            runtime_mode: self.runtime_mode.clone(),
        }
    }
}


/// How the HTTP exchange with the BAML server went: the client could not
/// be built; sending failed (timed out, could not connect, or otherwise);
/// the server answered with a status other than success; the body of a
/// successful answer was not JSON; or it was, with the time the call took.
#[derive(Debug)]
pub enum BamlHttpReply {
    ClientUnavailable(String),
    SendFailed { timed_out: bool, connect_failed: bool, message: String },
    Status { code: u16, status_text: String, body: String },
    InvalidJson { code: u16, message: String },
    Body { code: u16, value: Json, elapsed_ms: u64 },
}

/// The redaction note stored in place of a raw response.
pub open spec fn redaction_note() -> JsonValue {
    JsonValue::Object(seq![("redacted"@, JsonValue::Bool(true)), ("reason"@, JsonValue::Str("policy"@))])
}

impl BamlHttpCoerceExecutor {
    /// The timeout of a call: the request's, else the executor's, else
    /// thirty seconds.
    pub fn request_timeout_ms(&self, request: &CoerceRequest) -> (r: u64)
        ensures
            r == match request.timeout_ms {
                Some(t) => t,
                None => match self.timeout_ms {
                    Some(t) => t,
                    None => 30_000,
                },
            },
    {
        match request.timeout_ms {
            Some(t) => t,
            None => match self.timeout_ms {
                Some(t) => t,
                None => 30_000,
            },
        }
    }

    /// The outcome of a call from how the exchange with `endpoint` went: a
    /// client that could not be built is an internal error; a failed send
    /// is a timeout, an unavailable server or an HTTP error; a status other
    /// than success is an HTTP error with the trimmed body; a body that is
    /// not JSON a parse failure; a JSON body the parsed value, stored raw
    /// or, by policy, replaced by a redaction note.
    pub fn coerce_reply(&self, function_name: String, endpoint: &str, reply: BamlHttpReply) -> (r: Result<CoerceOutcome, CoerceError>)
        ensures
            match reply {
                BamlHttpReply::ClientUnavailable(m) => (r matches Err(e) && e.category
                    == CoerceErrorCategory::InternalError && e.http_status is None && e.message@
                    == "failed to build BAML HTTP client: "@ + m@),
                BamlHttpReply::SendFailed { timed_out, connect_failed, message } => (r matches Err(e)
                    && e.category == (if timed_out {
                    CoerceErrorCategory::BamlTimeout
                } else if connect_failed {
                    CoerceErrorCategory::BamlServerUnavailable
                } else {
                    CoerceErrorCategory::BamlHttpError
                }) && e.http_status is None && e.message@ == "failed to call BAML HTTP endpoint `"@ + endpoint@
                    + "`: "@ + message@),
                BamlHttpReply::Status { code, status_text, body } => (r matches Err(e) && e.category
                    == CoerceErrorCategory::BamlHttpError && e.http_status == Some(code) && e.message@
                    == "BAML HTTP endpoint `"@ + endpoint@ + "` returned status "@ + status_text@ + ": "@
                    + trim_spec(body@)),
                BamlHttpReply::InvalidJson { code, message } => (r matches Err(e) && e.category
                    == CoerceErrorCategory::BamlParseFailure && e.http_status == Some(code) && e.message@
                    == "BAML HTTP response from `"@ + endpoint@ + "` was not valid JSON: "@ + message@),
                BamlHttpReply::Body { code, value, elapsed_ms } => (r matches Ok(o) && (o.function_name
                    == function_name && o.status == CoerceStatus::Succeeded && (o.value matches Some(v)
                    && v.value() == value.value()) && o.backend == (CoerceBackend::BamlHttp {
                    url: self.base_url,
                    baml_src_hash: self.baml_src_hash,
                    runtime_mode: self.runtime_mode,
                }) && o.http_status == Some(code) && (o.raw_response matches Some(raw) && raw.value() == (
                if self.store_raw_response {
                    value.value()
                } else {
                    redaction_note()
                })) && o.error is None && o.duration_ms == Some(elapsed_ms))),
            },
    {
        match reply {
            BamlHttpReply::ClientUnavailable(m) => {
                let mut msg = "failed to build BAML HTTP client: ".to_owned();
                msg.append(m.as_str());
                Err(CoerceError::new(CoerceErrorCategory::InternalError, msg))
            },
            BamlHttpReply::SendFailed { timed_out, connect_failed, message } => {
                let category = if timed_out {
                    CoerceErrorCategory::BamlTimeout
                } else if connect_failed {
                    CoerceErrorCategory::BamlServerUnavailable
                } else {
                    CoerceErrorCategory::BamlHttpError
                };
                let mut msg = "failed to call BAML HTTP endpoint `".to_owned();
                msg.append(endpoint);
                msg.append("`: ");
                msg.append(message.as_str());
                Err(CoerceError::new(category, msg))
            },
            BamlHttpReply::Status { code, status_text, body } => {
                let cs = chars_of(body.as_str());
                let trimmed = crate::text::trim_chars(&cs);
                let trimmed = string_from_chars(&trimmed);
                let mut msg = "BAML HTTP endpoint `".to_owned();
                msg.append(endpoint);
                msg.append("` returned status ");
                msg.append(status_text.as_str());
                msg.append(": ");
                msg.append(trimmed.as_str());
                Err(CoerceError::new(CoerceErrorCategory::BamlHttpError, msg).with_http_status(Some(code)))
            },
            BamlHttpReply::InvalidJson { code, message } => {
                let mut msg = "BAML HTTP response from `".to_owned();
                msg.append(endpoint);
                msg.append("` was not valid JSON: ");
                msg.append(message.as_str());
                Err(CoerceError::new(CoerceErrorCategory::BamlParseFailure, msg).with_http_status(Some(code)))
            },
            BamlHttpReply::Body { code, value, elapsed_ms } => {
                let raw = if self.store_raw_response {
                    value.deep_clone()
                } else {
                    let mut members: Vec<(String, Json)> = Vec::new();
                    members.push(("redacted".to_owned(), Json::Bool(true)));
                    members.push(("reason".to_owned(), Json::Str("policy".to_owned())));
                    let note = Json::Object(members);
                    proof {
                        let ghost s2 = note.value()->Object_0;
                        assert(note.value() is Object);
                        assert(s2.len() == 2);
                        let ghost m = note->Object_0;
                        assert(m@[0].1.value() == JsonValue::Bool(true));
                        assert(m@[1].1.value() == JsonValue::Str("policy"@));
                        assert(m@[0].0@ == "redacted"@);
                        assert(m@[1].0@ == "reason"@);
                        assert(s2[0] == ("redacted"@, JsonValue::Bool(true)));
                        assert(s2[1] == ("reason"@, JsonValue::Str("policy"@)));
                        assert(s2 =~= seq![("redacted"@, JsonValue::Bool(true)), ("reason"@, JsonValue::Str("policy"@))]);
                        assert(note.value() == redaction_note());
                    }
                    note
                };
                Ok(CoerceOutcome {
                    function_name,
                    status: CoerceStatus::Succeeded,
                    value: Some(value),
                    backend: self.backend(),
                    http_status: Some(code),
                    raw_response: Some(raw),
                    error: None,
                    duration_ms: Some(elapsed_ms),
                })
            },
        }
    }
}


/// The stored name of a coerce status.
pub open spec fn coerce_status_text(status: CoerceStatus) -> Seq<char> {
    match status {
        CoerceStatus::Succeeded => "succeeded"@,
        CoerceStatus::Failed => "failed"@,
    }
}

/// The coerce status a stored name means: `succeeded`, anything else
/// failed.
pub open spec fn coerce_status_of(name: Seq<char>) -> CoerceStatus {
    if name == "succeeded"@ {
        CoerceStatus::Succeeded
    } else {
        CoerceStatus::Failed
    }
}

/// The stored name of a coerce status.
pub fn coerce_status_name(status: CoerceStatus) -> (r: &'static str)
    ensures
        r@ == coerce_status_text(status),
{
    match status {
        CoerceStatus::Succeeded => "succeeded",
        CoerceStatus::Failed => "failed",
    }
}

/// The coerce status a stored name means: `succeeded`, anything else failed.
pub fn coerce_status_from_name(status: &str) -> (r: CoerceStatus)
    ensures
        r == coerce_status_of(status@),
{
    if str_eq(status, "succeeded") {
        CoerceStatus::Succeeded
    } else {
        CoerceStatus::Failed
    }
}

/// A coerce call as the status view shows it.
#[derive(Debug)]
pub struct CoerceCallSummary {
    pub coerce_call_id: String,
    pub function_name: String,
    pub status: CoerceStatus,
    pub backend: CoerceBackend,
    pub http_status: Option<u16>,
    pub parsed_output: Option<Json>,
    pub error: Option<String>,
    pub duration_ms: Option<u64>,
    pub created_at: String,
}

/// The summary of a coerce call record.
pub fn coerce_call_summary(record: CoerceCallRecord) -> (r: CoerceCallSummary)
    ensures
        r == (CoerceCallSummary {
            coerce_call_id: record.coerce_call_id,
            function_name: record.function_name,
            status: record.status,
            backend: record.backend,
            http_status: record.http_status,
            parsed_output: record.parsed_output,
            error: record.error,
            duration_ms: record.duration_ms,
            created_at: record.created_at,
        }),
{
    CoerceCallSummary {
        coerce_call_id: record.coerce_call_id,
        function_name: record.function_name,
        status: record.status,
        backend: record.backend,
        http_status: record.http_status,
        parsed_output: record.parsed_output,
        error: record.error,
        duration_ms: record.duration_ms,
        created_at: record.created_at,
    }
}

/// What the status view shows of the BAML runtime.
#[derive(Debug)]
pub struct BamlRuntimeSummary {
    pub mode: String,
    pub status: String,
    pub url: String,
    pub baml_src_hash: Option<String>,
    pub last_error: Option<String>,
    pub last_call_at: String,
}

/// The view of a BAML runtime summary: mode, status, url, source hash,
/// last error and time of the last call.
pub open spec fn summary_view(s: BamlRuntimeSummary) -> (Seq<char>, Seq<char>, Seq<char>, Option<Seq<char>>, Option<Seq<char>>, Seq<char>) {
    (s.mode@, s.status@, s.url@, crate::harness::opt_string_seq(s.baml_src_hash), crate::harness::opt_string_seq(s.last_error), s.last_call_at@)
}

/// The runtime summary one record gives, if its backend is a BAML one: HTTP
/// reports its mode (default `external_http`) and URL, generated stdio its
/// mode (default `generated_stdio`) and `stdio`, brokered `brokered` and
/// `brokered:` with the request id; the status is `observed` for a success
/// and `failed` otherwise.
pub open spec fn record_runtime(r: CoerceCallRecord) -> Option<(Seq<char>, Seq<char>, Seq<char>, Option<Seq<char>>, Option<Seq<char>>, Seq<char>)> {
    let status = match r.status {
        CoerceStatus::Succeeded => "observed"@,
        CoerceStatus::Failed => "failed"@,
    };
    let err = crate::harness::opt_string_seq(r.error);
    match r.backend {
        CoerceBackend::BamlHttp { url, baml_src_hash, runtime_mode } => Some((
            match runtime_mode { Some(m) => m@, None => "external_http"@ },
            status,
            url@,
            crate::harness::opt_string_seq(baml_src_hash),
            err,
            r.created_at@,
        )),
        CoerceBackend::BamlGeneratedStdio { baml_src_hash, runtime_mode, .. } => Some((
            match runtime_mode { Some(m) => m@, None => "generated_stdio"@ },
            status,
            "stdio"@,
            crate::harness::opt_string_seq(baml_src_hash),
            err,
            r.created_at@,
        )),
        CoerceBackend::BamlBrokered { request_id, baml_src_hash } => Some((
            "brokered"@,
            status,
            "brokered:"@ + request_id@,
            crate::harness::opt_string_seq(baml_src_hash),
            err,
            r.created_at@,
        )),
        _ => None,
    }
}

/// The first record (in order) with a BAML backend gives the summary.
pub open spec fn first_runtime(records: Seq<CoerceCallRecord>) -> Option<(Seq<char>, Seq<char>, Seq<char>, Option<Seq<char>>, Option<Seq<char>>, Seq<char>)>
    decreases records.len(),
{
    if records.len() == 0 {
        None
    } else {
        match record_runtime(records[0]) {
            Some(x) => Some(x),
            None => first_runtime(records.drop_first()),
        }
    }
}

fn clone_opt(o: &Option<String>) -> (r: Option<String>)
    ensures
        r == *o,
{
    match o {
        Some(s) => Some(s.clone()),
        None => None,
    }
}

/// The BAML runtime summary of the most recent records (newest first): the
/// first record with a BAML backend decides it.
pub fn baml_runtime_summary(records: &[CoerceCallRecord]) -> (r: Option<BamlRuntimeSummary>)
    ensures
        match r {
            Some(s) => first_runtime(records@) == Some(summary_view(s)),
            None => first_runtime(records@) is None,
        },
{
    let mut i: usize = 0;
    assert(records@.subrange(0, records@.len() as int) =~= records@);
    while i < records.len()
        invariant
            i <= records@.len(),
            first_runtime(records@) == first_runtime(records@.subrange(i as int, records@.len() as int)),
        decreases records.len() - i,
    {
        let ghost rest = records@.subrange(i as int, records@.len() as int);
        assert(rest.drop_first() =~= records@.subrange(i + 1, records@.len() as int));
        assert(rest[0] == records@[i as int]);
        let record = &records[i];
        let status = match record.status {
            CoerceStatus::Succeeded => "observed".to_owned(),
            CoerceStatus::Failed => "failed".to_owned(),
        };
        let found: Option<(String, String, Option<String>)> = match &record.backend {
            CoerceBackend::BamlHttp { url, baml_src_hash, runtime_mode } => Some((
                match runtime_mode { Some(m) => m.clone(), None => "external_http".to_owned() },
                url.clone(),
                clone_opt(baml_src_hash),
            )),
            CoerceBackend::BamlGeneratedStdio { baml_src_hash, runtime_mode, .. } => Some((
                match runtime_mode { Some(m) => m.clone(), None => "generated_stdio".to_owned() },
                "stdio".to_owned(),
                clone_opt(baml_src_hash),
            )),
            CoerceBackend::BamlBrokered { request_id, baml_src_hash } => {
                let mut url = "brokered:".to_owned();
                url.append(request_id.as_str());
                Some(("brokered".to_owned(), url, clone_opt(baml_src_hash)))
            },
            _ => None,
        };
        match found {
            Some((mode, url, baml_src_hash)) => {
                return Some(
                    BamlRuntimeSummary {
                        mode,
                        status,
                        url,
                        baml_src_hash,
                        last_error: clone_opt(&record.error),
                        last_call_at: record.created_at.clone(),
                    },
                );
            },
            None => {},
        }
        i += 1;
    }
    None
}

} // verus!
