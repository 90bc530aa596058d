//! The four-rung ladder that selects the backend of a native `coerce`:
//! a per-effect provider, then the operator's override, then the registry
//! default, then the fixture; and the fields of the selected configuration,
//! the operator's over the registry row's over the backend's defaults.
use vstd::prelude::*;
use crate::json::Json;
use crate::text::{chars_of, str_eq, trim_chars, trim_spec};

verus! {

/// The registry's `schema.coerce` binding: its provider and that
/// provider's configuration as JSON text.
#[derive(Clone, Debug)]
pub struct CoerceRegistryDefault {
    pub provider: String,
    pub config_json: Option<String>,
}

/// Which rung of the ladder selected the configuration.
#[derive(Clone, Copy, Debug, PartialEq, Eq, Structural)]
pub enum CoerceSelectionRung {
    /// Rung 1: the per-effect `provider` in source.
    PerEffectProvider,
    /// Rung 2: the operator override (environment and stored credentials).
    OperatorOverride,
    /// Rung 3: the registry `schema.coerce` binding.
    RegistryDefault,
    /// Rung 4: nothing selected a native backend.
    Fixture,
}

impl CoerceSelectionRung {
    /// The rung's number, from 1 to 4.
    pub fn number(self) -> (r: u8)
        ensures
            r == match self {
                CoerceSelectionRung::PerEffectProvider => 1u8,
                CoerceSelectionRung::OperatorOverride => 2u8,
                CoerceSelectionRung::RegistryDefault => 3u8,
                CoerceSelectionRung::Fixture => 4u8,
            },
    {
        match self {
            CoerceSelectionRung::PerEffectProvider => 1,
            CoerceSelectionRung::OperatorOverride => 2,
            CoerceSelectionRung::RegistryDefault => 3,
            CoerceSelectionRung::Fixture => 4,
        }
    }

    /// The rung as the status report names it.
    pub fn label(self) -> (r: &'static str)
        ensures
            r@ == match self {
                CoerceSelectionRung::PerEffectProvider => "per-effect provider"@,
                CoerceSelectionRung::OperatorOverride => "operator override"@,
                CoerceSelectionRung::RegistryDefault => "registry default"@,
                CoerceSelectionRung::Fixture => "fixture"@,
            },
    {
        match self {
            CoerceSelectionRung::PerEffectProvider => "per-effect provider",
            CoerceSelectionRung::OperatorOverride => "operator override",
            CoerceSelectionRung::RegistryDefault => "registry default",
            CoerceSelectionRung::Fixture => "fixture",
        }
    }
}

/// A character in ASCII lower case.
pub open spec fn ascii_lower(c: char) -> char {
    if 'A' <= c && c <= 'Z' {
        ((c as u32) + 32) as char
    } else {
        c
    }
}

/// Two texts equal but for ASCII case.
pub open spec fn eq_ignore_ascii_case(a: Seq<char>, b: Seq<char>) -> bool {
    a.len() == b.len() && forall|i: int| 0 <= i < a.len() ==> ascii_lower(#[trigger] a[i]) == ascii_lower(b[i])
}

fn lower(c: char) -> (r: char)
    ensures
        r == ascii_lower(c),
{
    if 'A' <= c && c <= 'Z' {
        let u = (c as u32) + 32;
        assert(0x61 <= u <= 0x7a);
        let b = u as u8;
        b as char
    } else {
        c
    }
}

fn chars_eq_ignore_ascii_case(a: &Vec<char>, b: &Vec<char>) -> (r: bool)
    ensures
        r == eq_ignore_ascii_case(a@, b@),
{
    if a.len() != b.len() {
        return false;
    }
    let mut i: usize = 0;
    while i < a.len()
        invariant
            i <= a.len(),
            a.len() == b.len(),
            forall|j: int| 0 <= j < i ==> ascii_lower(#[trigger] a@[j]) == ascii_lower(b@[j]),
        decreases a.len() - i,
    {
        if lower(a[i]) != lower(b[i]) {
            return false;
        }
        i += 1;
    }
    true
}

/// Provider names that select the fixture path: `fixture` in any ASCII
/// case, or the seeded `builtin-coerce` binding.
pub open spec fn is_fixture_name(name: Seq<char>) -> bool {
    eq_ignore_ascii_case(name, "fixture"@) || name == "builtin-coerce"@
}

/// Whether a provider name selects the fixture path.
pub fn is_fixture_provider_name(name: &str) -> (r: bool)
    ensures
        r == is_fixture_name(name@),
{
    let cs = chars_of(name);
    let fixture = chars_of("fixture");
    chars_eq_ignore_ascii_case(&cs, &fixture) || str_eq(name, "builtin-coerce")
}

/// The operator-override settings (`WHIPPLESCRIPT_COERCE_*`).
#[derive(Clone, Debug)]
pub struct OperatorEnv {
    pub provider: Option<String>,
    pub model: Option<String>,
    pub base_url: Option<String>,
    pub max_tokens: Option<u32>,
    pub timeout_secs: Option<u64>,
}

impl OperatorEnv {
    /// No override at all.
    pub fn empty() -> (r: Self)
        ensures
            r.provider is None,
            r.model is None,
            r.base_url is None,
            r.max_tokens is None,
            r.timeout_secs is None,
    {
        OperatorEnv { provider: None, model: None, base_url: None, max_tokens: None, timeout_secs: None }
    }
}

/// The model API a native coerce talks to.
#[derive(Clone, Copy, Debug, PartialEq, Eq, Structural)]
pub enum CoerceProvider {
    OpenAi,
    OpenAiCompat,
    Anthropic,
}

/// The backend a provider name selects.
pub open spec fn provider_of(name: Seq<char>) -> Option<CoerceProvider> {
    if name == "openai"@ {
        Some(CoerceProvider::OpenAi)
    } else if name == "openai-generic"@ {
        Some(CoerceProvider::OpenAiCompat)
    } else if name == "anthropic"@ {
        Some(CoerceProvider::Anthropic)
    } else {
        None
    }
}

/// The error for a provider name no backend answers to.
pub open spec fn unknown_provider_message(name: Seq<char>) -> Seq<char> {
    "unknown coerce provider `"@ + name + "` (expected `openai`, `openai-generic`, or `anthropic`)"@
}

/// The backend a provider name selects, or the error naming it.
pub fn parse_provider(name: &str) -> (r: Result<CoerceProvider, String>)
    ensures
        match r {
            Ok(p) => provider_of(name@) == Some(p),
            Err(e) => provider_of(name@) is None && e@ == unknown_provider_message(name@),
        },
{
    if str_eq(name, "openai") {
        Ok(CoerceProvider::OpenAi)
    } else if str_eq(name, "openai-generic") {
        Ok(CoerceProvider::OpenAiCompat)
    } else if str_eq(name, "anthropic") {
        Ok(CoerceProvider::Anthropic)
    } else {
        let mut m = "unknown coerce provider `".to_owned();
        m.append(name);
        m.append("` (expected `openai`, `openai-generic`, or `anthropic`)");
        Err(m)
    }
}

/// What to tell the operator when the selected backend has no credential.
pub open spec fn missing_credential_spec(provider: CoerceProvider) -> Seq<char> {
    match provider {
        CoerceProvider::Anthropic => "coerce provider `anthropic` needs a console API key: set ANTHROPIC_API_KEY or run `whip auth set anthropic <key>`"@,
        _ => "coerce provider `openai` needs a credential: set OPENAI_API_KEY, run `whip auth set openai <key>`, or sign in with `codex login`"@,
    }
}

/// What to tell the operator when the selected backend has no credential.
pub fn missing_credential_message(provider: CoerceProvider) -> (r: String)
    ensures
        r@ == missing_credential_spec(provider),
{
    match provider {
        CoerceProvider::Anthropic => "coerce provider `anthropic` needs a console API key: set ANTHROPIC_API_KEY or run `whip auth set anthropic <key>`".to_owned(),
        _ => "coerce provider `openai` needs a credential: set OPENAI_API_KEY, run `whip auth set openai <key>`, or sign in with `codex login`".to_owned(),
    }
}

/// The trimmed, non-empty string member `key` of a configuration object.
pub open spec fn config_string_spec(config: Json, key: Seq<char>) -> Option<Seq<char>> {
    match config.get_spec(key) {
        Some(v) => match v.str_spec() {
            Some(s) => if trim_spec(s).len() > 0 {
                Some(trim_spec(s))
            } else {
                None
            },
            None => None,
        },
        None => None,
    }
}

/// The trimmed, non-empty string member `key` of a configuration object.
pub fn config_string(config: &Json, key: &str) -> (r: Option<String>)
    ensures
        match r {
            Some(s) => config_string_spec(*config, key@) == Some(s@),
            None => config_string_spec(*config, key@) is None,
        },
{
    match config.get(key) {
        Some(v) => match v.as_str() {
            Some(s) => {
                let cs = chars_of(s);
                let t = trim_chars(&cs);
                if t.len() > 0 {
                    Some(crate::text::string_from_chars(&t))
                } else {
                    None
                }
            },
            None => None,
        },
        None => None,
    }
}

/// The value of a decimal digit string.
pub open spec fn digits_value(s: Seq<char>) -> nat
    decreases s.len(),
{
    if s.len() == 0 {
        0
    } else {
        digits_value(s.drop_last()) * 10 + ((s.last() as u32) - ('0' as u32)) as nat
    }
}

/// Every character is an ASCII digit.
pub open spec fn all_digits(s: Seq<char>) -> bool {
    forall|i: int| 0 <= i < s.len() ==> '0' <= #[trigger] s[i] && s[i] <= '9'
}

/// The unsigned integer a JSON number holds, where it is one that fits in
/// 64 bits.
pub open spec fn number_u64(n: Seq<char>) -> Option<u64> {
    if n.len() > 0 && all_digits(n) && digits_value(n) <= u64::MAX {
        Some(digits_value(n) as u64)
    } else {
        None
    }
}

/// The unsigned integer member `key` of a configuration object.
pub open spec fn config_u64_spec(config: Json, key: Seq<char>) -> Option<u64> {
    match config.get_spec(key) {
        Some(Json::Number(n)) => number_u64(n@),
        _ => None,
    }
}

/// The unsigned integer a JSON number's text holds.
pub fn parse_u64_text(text: &str) -> (r: Option<u64>)
    ensures
        r == number_u64(text@),
{
    let cs = chars_of(text);
    if cs.len() == 0 {
        return None;
    }
    let mut value: u64 = 0;
    let mut i: usize = 0;
    while i < cs.len()
        invariant
            i <= cs.len(),
            cs@ == text@,
            cs.len() > 0,
            all_digits(cs@.subrange(0, i as int)),
            value == digits_value(cs@.subrange(0, i as int)),
        decreases cs.len() - i,
    {
        proof {
            assert(cs@.subrange(0, i + 1).drop_last() =~= cs@.subrange(0, i as int));
        }
        let c = cs[i];
        if !('0' <= c && c <= '9') {
            proof {
                assert(!all_digits(cs@)) by {
                    assert(cs@[i as int] == c);
                }
            }
            return None;
        }
        let d = (c as u32 - '0' as u32) as u64;
        if value > (u64::MAX - d) / 10 {
            proof {
                assert(digits_value(cs@.subrange(0, i + 1)) == value * 10 + d);
                assert(value * 10 + d > u64::MAX) by (nonlinear_arith)
                    requires
                        value > (u64::MAX - d) / 10,
                        d <= 9,
                ;
                if all_digits(cs@) {
                    lemma_digits_value_monotone(cs@, i as int);
                }
            }
            return None;
        }
        assert(value * 10 + d <= u64::MAX) by (nonlinear_arith)
            requires
                value <= (u64::MAX - d) / 10,
                d <= 9,
        ;
        value = value * 10 + d;
        i += 1;
        assert(all_digits(cs@.subrange(0, i as int)));
    }
    assert(cs@.subrange(0, cs.len() as int) =~= cs@);
    Some(value)
}

/// A digit string's value only grows as digits are added.
proof fn lemma_digits_value_monotone(s: Seq<char>, i: int)
    requires
        0 <= i < s.len(),
        all_digits(s),
    ensures
        digits_value(s) >= digits_value(s.subrange(0, i + 1)),
    decreases s.len() - i,
{
    if i + 1 < s.len() {
        lemma_digits_value_monotone(s, i + 1);
        assert(s.subrange(0, i + 2).drop_last() =~= s.subrange(0, i + 1));
    } else {
        assert(s.subrange(0, i + 1) =~= s);
    }
}

/// The unsigned integer member `key` of a configuration object.
pub fn config_u64(config: &Json, key: &str) -> (r: Option<u64>)
    ensures
        r == config_u64_spec(*config, key@),
{
    match config.get(key) {
        Some(Json::Number(n)) => parse_u64_text(n.as_str()),
        _ => None,
    }
}

/// The registry error for a `native` binding that names no backend.
pub open spec fn no_backend_message() -> Seq<char> {
    "registry schema.coerce binding selects provider `native` but its effect_providers config_json names no `backend` (`openai`, `openai-generic`, or `anthropic`)"@
}

/// The backend name a registry binding selects: a `native` binding names
/// it in its configuration (`backend`, else `provider`); any other binding
/// names it directly.
pub open spec fn registry_backend_spec(provider: Seq<char>, config: Json) -> Result<Seq<char>, Seq<char>> {
    if provider == "native"@ {
        match config_string_spec(config, "backend"@) {
            Some(b) => Ok(b),
            None => match config_string_spec(config, "provider"@) {
                Some(b) => Ok(b),
                None => Err(no_backend_message()),
            },
        }
    } else {
        Ok(provider)
    }
}

/// The view of a text result.
pub open spec fn text_result(r: Result<String, String>) -> Result<Seq<char>, Seq<char>> {
    match r {
        Ok(s) => Ok(s@),
        Err(e) => Err(e@),
    }
}

/// The backend name a registry binding selects.
pub fn registry_backend_name(default: &CoerceRegistryDefault, config: &Json) -> (r: Result<String, String>)
    ensures
        text_result(r) == registry_backend_spec(default.provider@, *config),
{
    if str_eq(default.provider.as_str(), "native") {
        match config_string(config, "backend") {
            Some(b) => Ok(b),
            None => match config_string(config, "provider") {
                Some(b) => Ok(b),
                None => Err("registry schema.coerce binding selects provider `native` but its effect_providers config_json names no `backend` (`openai`, `openai-generic`, or `anthropic`)".to_owned()),
            },
        }
    } else {
        Ok(default.provider.clone())
    }
}

/// The registry configuration as the ladder reads it, from what parsing
/// the binding's `config_json` gave: the parsed value where it is an
/// object, an empty object otherwise.
pub fn registry_config(parsed: Option<Json>) -> (r: Json)
    ensures
        match parsed {
            Some(Json::Object(m)) => r == Json::Object(m),
            _ => r matches Json::Object(m) && m@.len() == 0,
        },
{
    match parsed {
        Some(Json::Object(members)) => Json::Object(members),
        _ => Json::Object(Vec::new()),
    }
}

/// Where the ladder lands: the fixture (with the rung that chose it), or a
/// native backend with the provider id that selected it and whether the
/// registry row's configuration refines it.
#[derive(Clone, Debug)]
pub enum LadderChoice {
    Fixture(CoerceSelectionRung),
    Native { rung: CoerceSelectionRung, provider_id: String, backend: CoerceProvider, from_registry: bool },
}

/// Where the ladder lands, as the contracts read it.
pub enum ChoiceView {
    Fixture(CoerceSelectionRung),
    Native(CoerceSelectionRung, Seq<char>, CoerceProvider, bool),
}

/// The view of a ladder result.
pub open spec fn choice_view(r: Result<LadderChoice, String>) -> Result<ChoiceView, Seq<char>> {
    match r {
        Ok(LadderChoice::Fixture(rung)) => Ok(ChoiceView::Fixture(rung)),
        Ok(LadderChoice::Native { rung, provider_id, backend, from_registry }) => Ok(
            ChoiceView::Native(rung, provider_id@, backend, from_registry),
        ),
        Err(e) => Err(e@),
    }
}

/// A rung that names a provider: the fixture where the name is a fixture
/// name, else the backend it names, else the error naming it.
pub open spec fn named_rung(rung: CoerceSelectionRung, name: Seq<char>) -> Result<ChoiceView, Seq<char>> {
    if is_fixture_name(name) {
        Ok(ChoiceView::Fixture(rung))
    } else {
        match provider_of(name) {
            Some(b) => Ok(ChoiceView::Native(rung, name, b, false)),
            None => Err(unknown_provider_message(name)),
        }
    }
}

/// The ladder: the per-effect provider, else the operator's provider, else
/// a registry binding that is not a fixture binding (its backend resolved
/// through its configuration), else the fixture.
pub open spec fn ladder_spec(
    provider_override: Option<Seq<char>>,
    env_provider: Option<Seq<char>>,
    registry_provider: Option<Seq<char>>,
    config: Json,
) -> Result<ChoiceView, Seq<char>> {
    match provider_override {
        Some(name) => named_rung(CoerceSelectionRung::PerEffectProvider, name),
        None => match env_provider {
            Some(name) => named_rung(CoerceSelectionRung::OperatorOverride, name),
            None => match registry_provider {
                Some(p) => if is_fixture_name(p) {
                    Ok(ChoiceView::Fixture(CoerceSelectionRung::Fixture))
                } else {
                    match registry_backend_spec(p, config) {
                        Err(e) => Err(e),
                        Ok(bn) => match provider_of(bn) {
                            Some(b) => Ok(ChoiceView::Native(CoerceSelectionRung::RegistryDefault, p, b, true)),
                            None => Err("registry schema.coerce binding is misconfigured: "@ + unknown_provider_message(bn)),
                        },
                    }
                },
                None => Ok(ChoiceView::Fixture(CoerceSelectionRung::Fixture)),
            },
        },
    }
}

/// The optional text of an optional string.
pub open spec fn opt_text(o: Option<String>) -> Option<Seq<char>> {
    match o {
        Some(s) => Some(s@),
        None => None,
    }
}

fn choose_named(rung: CoerceSelectionRung, name: &str) -> (r: Result<LadderChoice, String>)
    ensures
        choice_view(r) == named_rung(rung, name@),
{
    if is_fixture_provider_name(name) {
        return Ok(LadderChoice::Fixture(rung));
    }
    match parse_provider(name) {
        Ok(b) => Ok(LadderChoice::Native { rung, provider_id: name.to_owned(), backend: b, from_registry: false }),
        Err(e) => Err(e),
    }
}

/// Walks the ladder. `registry_config` is the registry configuration as
/// `registry_config` reads it.
pub fn select_coerce_backend(
    provider_override: Option<&str>,
    env: &OperatorEnv,
    registry_default: Option<&CoerceRegistryDefault>,
    registry_config: &Json,
) -> (r: Result<LadderChoice, String>)
    ensures
        choice_view(r) == ladder_spec(
            match provider_override {
                Some(n) => Some(n@),
                None => None,
            },
            opt_text(env.provider),
            match registry_default {
                Some(d) => Some(d.provider@),
                None => None,
            },
            *registry_config,
        ),
{
    if let Some(name) = provider_override {
        return choose_named(CoerceSelectionRung::PerEffectProvider, name);
    }
    if let Some(name) = &env.provider {
        return choose_named(CoerceSelectionRung::OperatorOverride, name.as_str());
    }
    if let Some(default) = registry_default {
        if !is_fixture_provider_name(default.provider.as_str()) {
            let backend_name = match registry_backend_name(default, registry_config) {
                Ok(b) => b,
                Err(e) => {
                    return Err(e);
                },
            };
            return match parse_provider(backend_name.as_str()) {
                Ok(b) => Ok(LadderChoice::Native {
                    rung: CoerceSelectionRung::RegistryDefault,
                    provider_id: default.provider.clone(),
                    backend: b,
                    from_registry: true,
                }),
                Err(e) => {
                    let mut m = "registry schema.coerce binding is misconfigured: ".to_owned();
                    m.append(e.as_str());
                    Err(m)
                },
            };
        }
    }
    Ok(LadderChoice::Fixture(CoerceSelectionRung::Fixture))
}

/// Where a credential came from.
#[derive(Clone, Debug)]
pub enum CredentialSource {
    /// An environment variable, by name.
    Env(String),
    /// The operator's stored credentials.
    Stored,
    /// The OpenAI Codex sign-in.
    CodexOAuth,
}

/// What the credential layer answered for the selected backend, and the
/// backend's package defaults: the credential and where it came from; for
/// Anthropic, why the credential is refused (an OAuth token where a console
/// key is needed); the Codex account and model; the default endpoint, token
/// budget and timeout.
#[derive(Clone, Debug)]
pub struct SelectionProbes {
    pub credential: Option<(String, CredentialSource)>,
    pub anthropic_rejection: Option<String>,
    pub codex_account: Option<String>,
    pub codex_model: Option<String>,
    pub default_base_url: String,
    pub default_max_tokens: u32,
    pub default_timeout_secs: u64,
}

/// A native coerce configuration.
#[derive(Clone, Debug)]
pub struct ResolvedCoercionConfig {
    pub provider_id: String,
    pub backend: CoerceProvider,
    pub base_url: String,
    pub api_key: String,
    pub model: String,
    pub max_tokens: u32,
    pub timeout_secs: u64,
    pub codex_account_id: Option<String>,
}

/// A resolved selection: the configuration (`None` for the fixture path),
/// the rung that chose it, and where its credential came from.
#[derive(Clone, Debug)]
pub struct CoerceSelection {
    pub config: Option<ResolvedCoercionConfig>,
    pub rung: CoerceSelectionRung,
    pub credential_source: Option<CredentialSource>,
}

/// The fixture selection of a rung.
pub fn fixture_selection(rung: CoerceSelectionRung) -> (r: CoerceSelection)
    ensures
        r.config is None,
        r.rung == rung,
        r.credential_source is None,
{
    CoerceSelection { config: None, rung, credential_source: None }
}

/// The string member `key` of an optional registry configuration.
pub open spec fn registry_string(config: Option<Json>, key: Seq<char>) -> Option<Seq<char>> {
    match config {
        Some(c) => config_string_spec(c, key),
        None => None,
    }
}

/// The unsigned member `key` of an optional registry configuration.
pub open spec fn registry_u64(config: Option<Json>, key: Seq<char>) -> Option<u64> {
    match config {
        Some(c) => config_u64_spec(c, key),
        None => None,
    }
}

/// The first of two optional values that is there.
pub open spec fn or_else<T>(a: Option<T>, b: Option<T>) -> Option<T> {
    match a {
        Some(x) => Some(x),
        None => b,
    }
}

/// The Codex account a selection routes to: only an OpenAI backend whose
/// credential is the Codex sign-in has one.
pub open spec fn codex_account_of(backend: CoerceProvider, source: CredentialSource, probes: SelectionProbes) -> Option<Seq<char>> {
    if backend == CoerceProvider::OpenAi && source is CodexOAuth {
        opt_text(probes.codex_account)
    } else {
        None
    }
}

/// The error where no model is configured.
pub open spec fn no_model_message(codex: bool) -> Seq<char> {
    if codex {
        "no coerce model: set WHIPPLESCRIPT_COERCE_MODEL, or set `model` in ~/.codex/config.toml"@
    } else {
        "no coerce model: set WHIPPLESCRIPT_COERCE_MODEL (or the registry binding's `model`) to the provider model id"@
    }
}

/// A resolved configuration, as the contracts read it.
pub struct ConfigView {
    pub provider_id: Seq<char>,
    pub backend: CoerceProvider,
    pub base_url: Seq<char>,
    pub api_key: Seq<char>,
    pub model: Seq<char>,
    pub max_tokens: u32,
    pub timeout_secs: u64,
    pub codex_account_id: Option<Seq<char>>,
}

/// The view of a resolved configuration.
pub open spec fn config_view(c: ResolvedCoercionConfig) -> ConfigView {
    ConfigView {
        provider_id: c.provider_id@,
        backend: c.backend,
        base_url: c.base_url@,
        api_key: c.api_key@,
        model: c.model@,
        max_tokens: c.max_tokens,
        timeout_secs: c.timeout_secs,
        codex_account_id: opt_text(c.codex_account_id),
    }
}

/// The native selection of `backend`: the credential must be there (and,
/// for Anthropic, not refused); each field is the operator's, else the
/// registry row's, else the default (the Codex endpoint and model where the
/// credential is the Codex sign-in); a missing model is an error.
pub open spec fn native_selection_spec(
    rung: CoerceSelectionRung,
    provider_id: Seq<char>,
    backend: CoerceProvider,
    env: OperatorEnv,
    config: Option<Json>,
    probes: SelectionProbes,
) -> Result<(ConfigView, CredentialSource), Seq<char>> {
    match probes.credential {
        None => Err(missing_credential_spec(backend)),
        Some((key, source)) => if backend == CoerceProvider::Anthropic && probes.anthropic_rejection is Some {
            Err(probes.anthropic_rejection->0@)
        } else {
            let codex = codex_account_of(backend, source, probes);
            let base_url = match or_else(opt_text(env.base_url), registry_string(config, "base_url"@)) {
                Some(u) => u,
                None => if codex is Some {
                    "https://chatgpt.com"@
                } else {
                    probes.default_base_url@
                },
            };
            let model = or_else(
                opt_text(env.model),
                or_else(
                    registry_string(config, "model"@),
                    if codex is Some {
                        opt_text(probes.codex_model)
                    } else {
                        None
                    },
                ),
            );
            match model {
                None => Err(no_model_message(codex is Some)),
                Some(m) => Ok(
                    (
                        ConfigView {
                            provider_id,
                            backend,
                            base_url,
                            api_key: key@,
                            model: m,
                            max_tokens: match env.max_tokens {
                                Some(t) => t,
                                None => match registry_u64(config, "max_tokens"@) {
                                    Some(v) => v as u32,
                                    None => probes.default_max_tokens,
                                },
                            },
                            timeout_secs: match env.timeout_secs {
                                Some(t) => t,
                                None => match registry_u64(config, "timeout_secs"@) {
                                    Some(v) => v,
                                    None => probes.default_timeout_secs,
                                },
                            },
                            codex_account_id: codex,
                        },
                        source,
                    ),
                ),
            }
        },
    }
}

fn opt_string_or(a: &Option<String>, b: Option<String>) -> (r: Option<String>)
    ensures
        opt_text(r) == or_else(opt_text(*a), opt_text(b)),
{
    match a {
        Some(x) => Some(x.clone()),
        None => b,
    }
}

fn registry_string_of(config: Option<&Json>, key: &str) -> (r: Option<String>)
    ensures
        opt_text(r) == registry_string(
            match config {
                Some(c) => Some(*c),
                None => None,
            },
            key@,
        ),
{
    match config {
        Some(c) => config_string(c, key),
        None => None,
    }
}

fn registry_u64_of(config: Option<&Json>, key: &str) -> (r: Option<u64>)
    ensures
        r == registry_u64(
            match config {
                Some(c) => Some(*c),
                None => None,
            },
            key@,
        ),
{
    match config {
        Some(c) => config_u64(c, key),
        None => None,
    }
}

/// Resolves the native selection of `backend` for the rung that chose it.
pub fn native_selection(
    rung: CoerceSelectionRung,
    provider_id: &str,
    backend: CoerceProvider,
    env: &OperatorEnv,
    registry_config: Option<&Json>,
    probes: SelectionProbes,
) -> (r: Result<CoerceSelection, String>)
    ensures
        match native_selection_spec(
            rung,
            provider_id@,
            backend,
            *env,
            match registry_config {
                Some(c) => Some(*c),
                None => None,
            },
            probes,
        ) {
            Ok((c, source)) => r matches Ok(s) && (s.rung == rung && (s.config matches Some(x) && (config_view(x)
                == c && s.credential_source == Some(source)))),
            Err(e) => r matches Err(m) && m@ == e,
        },
{
    let ghost p0 = probes;
    let (api_key, source) = match probes.credential {
        Some(c) => c,
        None => {
            return Err(missing_credential_message(backend));
        },
    };
    if backend == CoerceProvider::Anthropic {
        if let Some(rejection) = probes.anthropic_rejection {
            return Err(rejection);
        }
    }
    let is_codex = backend == CoerceProvider::OpenAi && match source {
        CredentialSource::CodexOAuth => true,
        _ => false,
    };
    let codex_account_id = if is_codex {
        probes.codex_account
    } else {
        None
    };
    let base_url = match opt_string_or(&env.base_url, registry_string_of(registry_config, "base_url")) {
        Some(u) => u,
        None => if codex_account_id.is_some() {
            "https://chatgpt.com".to_owned()
        } else {
            probes.default_base_url
        },
    };
    let codex_model = if codex_account_id.is_some() {
        probes.codex_model
    } else {
        None
    };
    let model = match opt_string_or(&env.model, registry_string_of(registry_config, "model")) {
        Some(m) => m,
        None => match codex_model {
            Some(m) => m,
            None => {
                if codex_account_id.is_some() {
                    return Err("no coerce model: set WHIPPLESCRIPT_COERCE_MODEL, or set `model` in ~/.codex/config.toml".to_owned());
                } else {
                    return Err("no coerce model: set WHIPPLESCRIPT_COERCE_MODEL (or the registry binding's `model`) to the provider model id".to_owned());
                }
            },
        },
    };
    let max_tokens = match env.max_tokens {
        Some(t) => t,
        None => match registry_u64_of(registry_config, "max_tokens") {
            Some(v) => v as u32,
            None => probes.default_max_tokens,
        },
    };
    let timeout_secs = match env.timeout_secs {
        Some(t) => t,
        None => match registry_u64_of(registry_config, "timeout_secs") {
            Some(v) => v,
            None => probes.default_timeout_secs,
        },
    };
    Ok(CoerceSelection {
        config: Some(ResolvedCoercionConfig {
            provider_id: provider_id.to_owned(),
            backend,
            base_url,
            api_key,
            model,
            max_tokens,
            timeout_secs,
            codex_account_id,
        }),
        rung,
        credential_source: Some(source),
    })
}

/// What the whole ladder resolves to: the rung's fixture selection, or the
/// native configuration of the backend it selected (the registry row's
/// fields take part only on the registry rung), or the error that stopped it.
pub open spec fn resolution_spec(
    provider_override: Option<Seq<char>>,
    env: OperatorEnv,
    registry_provider: Option<Seq<char>>,
    config: Json,
    probes: SelectionProbes,
) -> Result<(CoerceSelectionRung, Option<(ConfigView, CredentialSource)>), Seq<char>> {
    match ladder_spec(provider_override, opt_text(env.provider), registry_provider, config) {
        Err(e) => Err(e),
        Ok(ChoiceView::Fixture(rung)) => Ok((rung, None)),
        Ok(ChoiceView::Native(rung, id, backend, from_registry)) => match native_selection_spec(
            rung,
            id,
            backend,
            env,
            if from_registry {
                Some(config)
            } else {
                None
            },
            probes,
        ) {
            Err(e) => Err(e),
            Ok(c) => Ok((rung, Some(c))),
        },
    }
}

/// The selection view of a resolved selection.
pub open spec fn selection_view(s: CoerceSelection) -> (CoerceSelectionRung, Option<(ConfigView, CredentialSource)>) {
    (
        s.rung,
        match s.config {
            Some(c) => match s.credential_source {
                Some(source) => Some((config_view(c), source)),
                None => None,
            },
            None => None,
        },
    )
}

/// Resolves the coerce selection down the four rungs, with the credential
/// probes taken for the backend the ladder selects: a fixture selection
/// carries no configuration, a native one is resolved field by field, and
/// a misconfiguration on any rung is an error rather than a fixture.
pub fn resolve_selection_inner(
    provider_override: Option<&str>,
    env: &OperatorEnv,
    registry_default: Option<&CoerceRegistryDefault>,
    registry_config: &Json,
    probes: SelectionProbes,
) -> (r: Result<CoerceSelection, String>)
    ensures
        match resolution_spec(
            match provider_override {
                Some(n) => Some(n@),
                None => None,
            },
            *env,
            match registry_default {
                Some(d) => Some(d.provider@),
                None => None,
            },
            *registry_config,
            probes,
        ) {
            Ok(v) => r matches Ok(s) && selection_view(s) == v && (s.config is Some <==> v.1 is Some),
            Err(e) => r matches Err(m) && m@ == e,
        },
{
    let choice = select_coerce_backend(provider_override, env, registry_default, registry_config);
    match choice {
        Err(e) => Err(e),
        Ok(LadderChoice::Fixture(rung)) => Ok(fixture_selection(rung)),
        Ok(LadderChoice::Native { rung, provider_id, backend, from_registry }) => {
            let config = if from_registry {
                Some(registry_config)
            } else {
                None
            };
            native_selection(rung, provider_id.as_str(), backend, env, config, probes)
        },
    }
}

/// What the configuration fingerprint is taken over: the fixture, or the
/// provider kind, provider id, backend and model.
#[derive(Clone, Debug)]
pub enum FingerprintSubject {
    Fixture,
    Config { provider_kind: String, provider_id: String, backend: String, model: String },
}

/// The fingerprint subject, as the contracts read it.
pub enum SubjectView {
    Fixture,
    Config(Seq<char>, Seq<char>, Seq<char>, Seq<char>),
}

/// The view of a fingerprint subject.
pub open spec fn subject_view(s: FingerprintSubject) -> SubjectView {
    match s {
        FingerprintSubject::Fixture => SubjectView::Fixture,
        FingerprintSubject::Config { provider_kind, provider_id, backend, model } => SubjectView::Config(
            provider_kind@,
            provider_id@,
            backend@,
            model@,
        ),
    }
}

/// The subject of the configuration fingerprint, resolved through rungs 2
/// to 4 of the same ladder (the per-effect rung stays out): the operator's
/// provider, else a registry binding that is not a fixture binding (its
/// backend resolved through its configuration, falling back to its
/// provider), else the fixture; the model is the operator's, else the
/// registry row's, else the Codex model, else empty.
pub open spec fn fingerprint_spec(
    env: OperatorEnv,
    registry_provider: Option<Seq<char>>,
    config: Json,
    codex_model: Option<Seq<char>>,
) -> SubjectView {
    match env.provider {
        Some(name) => if is_fixture_name(name@) {
            SubjectView::Fixture
        } else {
            SubjectView::Config(
                "schema_coercer"@,
                name@,
                name@,
                match or_else(opt_text(env.model), codex_model) {
                    Some(m) => m,
                    None => Seq::empty(),
                },
            )
        },
        None => match registry_provider {
            Some(p) => if is_fixture_name(p) {
                SubjectView::Fixture
            } else {
                SubjectView::Config(
                    "schema_coercer"@,
                    p,
                    match registry_backend_spec(p, config) {
                        Ok(b) => b,
                        Err(_) => p,
                    },
                    match or_else(opt_text(env.model), or_else(config_string_spec(config, "model"@), codex_model)) {
                        Some(m) => m,
                        None => Seq::empty(),
                    },
                )
            },
            None => SubjectView::Fixture,
        },
    }
}

/// The subject of the configuration fingerprint.
pub fn fingerprint_inner(
    env: &OperatorEnv,
    registry_default: Option<&CoerceRegistryDefault>,
    registry_config: &Json,
    codex_model: Option<String>,
) -> (r: FingerprintSubject)
    ensures
        subject_view(r) == fingerprint_spec(
            *env,
            match registry_default {
                Some(d) => Some(d.provider@),
                None => None,
            },
            *registry_config,
            opt_text(codex_model),
        ),
{
    proof {
        reveal_strlit("");
    }
    if let Some(provider_name) = &env.provider {
        if is_fixture_provider_name(provider_name.as_str()) {
            return FingerprintSubject::Fixture;
        }
        let model = match opt_string_or(&env.model, codex_model) {
            Some(m) => m,
            None => String::new(),
        };
        return FingerprintSubject::Config {
            provider_kind: "schema_coercer".to_owned(),
            provider_id: provider_name.clone(),
            backend: provider_name.clone(),
            model,
        };
    }
    if let Some(default) = registry_default {
        if !is_fixture_provider_name(default.provider.as_str()) {
            let backend = match registry_backend_name(default, registry_config) {
                Ok(b) => b,
                Err(_) => default.provider.clone(),
            };
            let model = match opt_string_or(&env.model, opt_string_or(&config_string(registry_config, "model"), codex_model)) {
                Some(m) => m,
                None => String::new(),
            };
            return FingerprintSubject::Config {
                provider_kind: "schema_coercer".to_owned(),
                provider_id: default.provider.clone(),
                backend,
                model,
            };
        }
    }
    FingerprintSubject::Fixture
}

/// The subject of the coercion-config fingerprint the step machine folds
/// into `schema.coerce` admission keys: rungs 2 to 4 of the ladder over the
/// operator's settings and the registry row (its configuration read as an
/// object, anything else as empty), never the credentials; the fixture where
/// the fixture path is selected.
pub fn coercion_config_fingerprint_with_registry(
    env: &OperatorEnv,
    registry_default: Option<&CoerceRegistryDefault>,
    parsed_registry_config: Option<Json>,
    codex_model: Option<String>,
) -> (r: FingerprintSubject)
    ensures
        subject_view(r) == fingerprint_spec(
            *env,
            match registry_default {
                Some(d) => Some(d.provider@),
                None => None,
            },
            match parsed_registry_config {
                Some(Json::Object(m)) => Json::Object(m),
                _ => Json::Null,
            },
            opt_text(codex_model),
        ),
{
    let ghost parsed = parsed_registry_config;
    let config = registry_config(parsed_registry_config);
    proof {
        match parsed {
            Some(Json::Object(m)) => {},
            _ => {
                assert(config.get_spec("model"@) is None);
                assert(config.get_spec("backend"@) is None);
                assert(config.get_spec("provider"@) is None);
                assert(Json::Null.get_spec("model"@) is None);
            },
        }
    }
    fingerprint_inner(env, registry_default, &config, codex_model)
}

} // verus!
