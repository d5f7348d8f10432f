//! The built-in ChatGPT Codex provider: what a request to it carries, and how it is probed.
//!
//! Codex credentials are sent only to pinned HTTPS hosts, with redirects disabled.

use vstd::prelude::*;
use vstd::string::StringExecFns;
use crate::catalog::{catalog_models, codex_catalog_models, CODEX_BASE};
use crate::digest::{is_hex_digit, law_session_hides_the_id, session_hmac, session_text};
use crate::http::{is_client_error, is_redirect, is_success, no_pairs, push_pair, redirect, success, HttpReply, JsonReply, Payload, PayloadView, PinnedRequest, ReplyView, RequestView};
use crate::json::{ref_view, str_view, Json, JsonView};
use crate::pinned::{address_check, is_pinned, require_request_url, url_parts};
use crate::providers::{failed_health, health_error, health_ok, model_views, ready_health, ApiStyle, HealthView, ModelView, Provider, ProviderHealth, ProviderHealthKind, ProviderKind, RemoteModelOption};
use crate::refresh::settled_secret;
use crate::secret::{claim_headers, headers_of_claims, jwt_claims, secret_read, stores_tokens, token_claims, CodexSecret, SecretView};
use crate::text;

verus! {

// ---------------------------------------------------------------------------
// Built-in providers
// ---------------------------------------------------------------------------

/// The id of the built-in Codex provider.
pub const ID_CODEX: &'static str = "builtin-openai-codex";

/// A built-in provider.
#[derive(Clone, Copy, Debug)]
pub struct BuiltinSpec {
    pub kind: ProviderKind,
    pub id: &'static str,
    pub name: &'static str,
    pub base: &'static str,
    pub api_style: ApiStyle,
}

/// The built-in provider of a kind.
pub fn builtin_spec(kind: ProviderKind) -> (r: Option<BuiltinSpec>)
    ensures
        r is Some <==> kind == ProviderKind::OpenaiCodex,
        r matches Some(spec) ==> {
            &&& spec.kind == kind
            &&& spec.id@ == ID_CODEX@
            &&& spec.name@ == "ChatGPT"@
            &&& spec.base@ == CODEX_BASE@
            &&& spec.api_style == ApiStyle::Responses
        },
{
    match kind {
        ProviderKind::OpenaiCodex => Some(
            BuiltinSpec {
                kind: ProviderKind::OpenaiCodex,
                id: ID_CODEX,
                name: "ChatGPT",
                base: CODEX_BASE,
                api_style: ApiStyle::Responses,
            },
        ),
        _ => None,
    }
}

/// The option by which the user connects a built-in provider that has no sign-in yet.
pub open spec fn connect_view(id: Seq<char>, kind: ProviderKind) -> ModelView {
    ModelView {
        id: "connect|"@ + id,
        model: seq![],
        base: CODEX_BASE@,
        port: 443,
        ready: false,
        label: "Connect ChatGPT"@,
        thinking_supported: false,
        thinking_control: None,
        thinking_efforts: seq![],
        thinking_can_disable: false,
        reasoning_summary: None,
        reasoning_context: None,
        attachments_supported: false,
        context_length: None,
        prompt_progress_supported: false,
        provider_id: id,
        provider_name: "ChatGPT"@,
        request_style: ApiStyle::Responses,
        connect_kind: Some(kind.name_view()),
    }
}

/// The option by which the user connects a built-in provider that has no sign-in yet.
pub fn connect_option(provider: &Provider) -> (r: Option<RemoteModelOption>)
    ensures
        r is Some <==> provider.kind == ProviderKind::OpenaiCodex && text::trimmed(
            provider.token@,
        ).len() == 0,
        r matches Some(option) ==> option@ == connect_view(provider.id@, provider.kind),
{
    if !provider.kind.needs_secret() || !text::trim(provider.token.as_str()).is_empty() {
        return None;
    }
    let spec = match builtin_spec(provider.kind) {
        Some(spec) => spec,
        None => {
            return None;
        },
    };
    let mut id = "connect|".to_owned();
    id.append(provider.id.as_str());
    let thinking_efforts: Vec<String> = Vec::new();
    proof {
        assert(thinking_efforts.deep_view() =~= seq![]);
    }
    Some(
        RemoteModelOption {
            id,
            model: String::new(),
            base: spec.base.to_owned(),
            port: 443,
            ready: false,
            label: "Connect ChatGPT".to_owned(),
            thinking_supported: false,
            thinking_control: None,
            thinking_efforts,
            thinking_can_disable: false,
            reasoning_summary: None,
            reasoning_context: None,
            attachments_supported: false,
            context_length: None,
            prompt_progress_supported: false,
            provider_id: provider.id.clone(),
            provider_name: spec.name.to_owned(),
            request_style: spec.api_style,
            connect_kind: Some(provider.kind.as_str().to_owned()),
        },
    )
}

// ---------------------------------------------------------------------------
// Headers
// ---------------------------------------------------------------------------

/// The headers by which the client identifies itself, as the Codex backend requires of
/// third-party clients.
pub open spec fn identity_headers() -> Seq<(Seq<char>, Seq<char>)> {
    seq![("originator"@, "gopher"@)]
}

/// The headers by which the client identifies itself.
pub fn codex_identity_headers() -> (r: Vec<(String, String)>)
    ensures
        r.deep_view() == identity_headers(),
{
    let mut headers = no_pairs();
    push_pair(&mut headers, "originator", "gopher");
    proof {
        assert(headers.deep_view() =~= identity_headers());
    }
    headers
}

/// Whether a sign-in can be used as it is.
pub open spec fn is_usable(secret: SecretView) -> bool {
    !secret.refresh_dead && text::trimmed(secret.access_token).len() > 0
}

fn usable(secret: &CodexSecret) -> (r: bool)
    ensures
        r == is_usable(secret@),
{
    !secret.refresh_dead && !text::trim(secret.access_token.as_str()).is_empty()
}

/// The headers of a request: who asks, for which account, and in which conversation. The id of
/// the conversation stays local; a keyed hash of it is sent.
pub open spec fn session_headers(
    claims: Option<JsonView>,
    conversation: Option<Seq<char>>,
    key: Seq<u8>,
) -> Seq<(Seq<char>, Seq<char>)> {
    let headers = identity_headers() + claim_headers(claims);
    match conversation {
        Some(id) => if text::trimmed(id).len() == 0 {
            headers
        } else {
            headers.push(("session_id"@, session_text(key, text::trimmed(id))))
        },
        None => headers,
    }
}

/// Adds headers.
fn push_all(headers: &mut Vec<(String, String)>, more: &Vec<(String, String)>)
    ensures
        final(headers).deep_view() == old(headers).deep_view() + more.deep_view(),
{
    let ghost start = headers.deep_view();
    let ghost added = more.deep_view();
    proof {
        assert(start + added.take(0) =~= start);
    }
    for i in 0..more.len()
        invariant
            added == more.deep_view(),
            headers.deep_view() == start + added.take(i as int),
    {
        push_pair(headers, more[i].0.as_str(), more[i].1.as_str());
        proof {
            assert(added[i as int] == (more@[i as int].0@, more@[i as int].1@));
            assert(start + added.take(i + 1) =~= (start + added.take(i as int)).push(
                added[i as int],
            ));
        }
    }
    proof {
        assert(added.take(more@.len() as int) =~= added);
    }
}

/// The headers of a request, out of the claims of the access token.
pub fn request_headers(
    claims: Option<&Json>,
    conversation_id: Option<&str>,
    session_key: &[u8],
) -> (r: Vec<(String, String)>)
    ensures
        r.deep_view() == session_headers(ref_view(claims), str_view(conversation_id), session_key@),
{
    let mut headers = codex_identity_headers();
    push_all(&mut headers, &headers_of_claims(claims));
    match conversation_id {
        Some(id) => {
            let id = text::trim(id);
            if !id.is_empty() {
                let session = session_hmac(session_key, id);
                push_pair(&mut headers, "session_id", session.as_str());
            }
        },
        None => {},
    }
    headers
}

/// What making headers came to.
pub open spec fn headers_result(r: Result<(String, Vec<(String, String)>), String>) -> Result<
    (Seq<char>, Seq<(Seq<char>, Seq<char>)>),
    Seq<char>,
> {
    match r {
        Ok((token, headers)) => Ok((token@, headers.deep_view())),
        Err(message) => Err(message@),
    }
}

/// The access token and the headers of a request made with a sign-in whose access token has the
/// claims `claims`, or what to tell the user.
pub open spec fn secret_headers(
    secret: SecretView,
    claims: Option<JsonView>,
    conversation: Option<Seq<char>>,
    key: Seq<u8>,
) -> Result<(Seq<char>, Seq<(Seq<char>, Seq<char>)>), Seq<char>> {
    if is_usable(secret) {
        Ok((secret.access_token, session_headers(claims, conversation, key)))
    } else {
        Err("Sign in to ChatGPT again."@)
    }
}

/// The access token and the headers of a request made with a stored sign-in, or what to tell the
/// user.
pub open spec fn stored_headers(
    stored: Seq<char>,
    conversation: Option<Seq<char>>,
    key: Seq<u8>,
) -> Result<(Seq<char>, Seq<(Seq<char>, Seq<char>)>), Seq<char>> {
    match secret_read(stored) {
        Ok(secret) => secret_headers(secret, token_claims(secret.access_token), conversation, key),
        Err(message) => Err(message),
    }
}

/// The access token and the headers of a request made with a sign-in whose access token has the
/// claims `claims`, or what to tell the user.
pub fn headers_for(
    secret: &CodexSecret,
    claims: Option<&Json>,
    conversation_id: Option<&str>,
    session_key: &[u8],
) -> (r: Result<(String, Vec<(String, String)>), String>)
    ensures
        headers_result(r) == secret_headers(
            secret@,
            ref_view(claims),
            str_view(conversation_id),
            session_key@,
        ),
{
    if !usable(secret) {
        return Err("Sign in to ChatGPT again.".to_owned());
    }
    Ok((secret.access_token.clone(), request_headers(claims, conversation_id, session_key)))
}

/// The access token and the headers of a request made with a stored sign-in, or what to tell the
/// user.
pub fn codex_request_headers(
    stored: &str,
    conversation_id: Option<&str>,
    session_key: &[u8],
) -> (r: Result<(String, Vec<(String, String)>), String>)
    ensures
        headers_result(r) == stored_headers(stored@, str_view(conversation_id), session_key@),
{
    let secret = match CodexSecret::parse(stored) {
        Ok(secret) => secret,
        Err(message) => {
            return Err(message);
        },
    };
    match jwt_claims(secret.access_token.as_str()) {
        Some(claims) => headers_for(&secret, Some(&claims), conversation_id, session_key),
        None => headers_for(&secret, None, conversation_id, session_key),
    }
}

// ---------------------------------------------------------------------------
// Requests
// ---------------------------------------------------------------------------

/// Where and how a request to a provider goes.
#[derive(Clone, Debug)]
pub struct PreparedUpstream {
    pub api_base: String,
    pub token: String,
    pub style: ApiStyle,
    pub allow_insecure_tls: bool,
    pub extra_headers: Vec<(String, String)>,
    pub no_redirect: bool,
    pub kind: ProviderKind,
    pub wire_model: String,
}

/// What a `PreparedUpstream` holds.
#[verifier::ext_equal]
pub struct PreparedView {
    pub api_base: Seq<char>,
    pub token: Seq<char>,
    pub style: ApiStyle,
    pub allow_insecure_tls: bool,
    pub extra_headers: Seq<(Seq<char>, Seq<char>)>,
    pub no_redirect: bool,
    pub kind: ProviderKind,
    pub wire_model: Seq<char>,
}

impl View for PreparedUpstream {
    type V = PreparedView;

    open spec fn view(&self) -> PreparedView {
        PreparedView {
            api_base: self.api_base@,
            token: self.token@,
            style: self.style,
            allow_insecure_tls: self.allow_insecure_tls,
            extra_headers: self.extra_headers.deep_view(),
            no_redirect: self.no_redirect,
            kind: self.kind,
            wire_model: self.wire_model@,
        }
    }
}

/// What preparing came to.
pub open spec fn prepare_result(r: Result<PreparedUpstream, String>) -> Result<
    PreparedView,
    Seq<char>,
> {
    match r {
        Ok(prepared) => Ok(prepared@),
        Err(message) => Err(message@),
    }
}

/// A request to the Codex backend with `token`.
pub open spec fn codex_upstream(
    token: Seq<char>,
    headers: Seq<(Seq<char>, Seq<char>)>,
    model: Seq<char>,
) -> PreparedView {
    PreparedView {
        api_base: CODEX_BASE@,
        token,
        style: ApiStyle::Responses,
        allow_insecure_tls: false,
        extra_headers: headers,
        no_redirect: true,
        kind: ProviderKind::OpenaiCodex,
        wire_model: text::trimmed(model),
    }
}

/// Where and how a request to a provider goes, or what to tell the user. A provider set up by
/// the user gets its request at its own base, normalized beforehand; a built-in one must be the
/// Codex provider, with certificate checks on and a usable sign-in.
pub open spec fn upstream(
    provider: Provider,
    model: Seq<char>,
    conversation: Option<Seq<char>>,
    normalized_base: Option<Seq<char>>,
    key: Seq<u8>,
) -> Result<PreparedView, Seq<char>> {
    if provider.kind == ProviderKind::Custom {
        match normalized_base {
            Some(base) => Ok(
                PreparedView {
                    api_base: base,
                    token: provider.token@,
                    style: provider.api_style,
                    allow_insecure_tls: provider.allow_insecure_tls,
                    extra_headers: seq![],
                    no_redirect: false,
                    kind: ProviderKind::Custom,
                    wire_model: model,
                },
            ),
            None => Err("Invalid model API base."@),
        }
    } else if provider.kind != ProviderKind::OpenaiCodex {
        Err("Unknown built-in provider."@)
    } else if provider.allow_insecure_tls {
        Err("Built-in providers cannot skip certificate checks."@)
    } else {
        match address_check(provider.kind, url_parts(CODEX_BASE@ + "/"@)) {
            Err(message) => Err(message),
            Ok(_) => match stored_headers(provider.token@, conversation, key) {
                Err(message) => Err(message),
                Ok((token, headers)) => Ok(codex_upstream(token, headers, model)),
            },
        }
    }
}

/// A request to the Codex backend with `token`.
pub fn codex_prepared(token: String, headers: Vec<(String, String)>, model: &str) -> (r:
    PreparedUpstream)
    ensures
        r@ == codex_upstream(token@, headers.deep_view(), model@),
{
    PreparedUpstream {
        api_base: CODEX_BASE.to_owned(),
        token,
        style: ApiStyle::Responses,
        allow_insecure_tls: false,
        extra_headers: headers,
        no_redirect: true,
        kind: ProviderKind::OpenaiCodex,
        wire_model: text::trim(model).to_owned(),
    }
}

/// Where and how a request to a provider goes, or what to tell the user. `normalized_base` is
/// the base of a provider set up by the user, where it is a valid one; `session_key` is the key
/// under which conversation ids are hashed.
pub fn prepare(
    provider: &Provider,
    model: &str,
    conversation_id: Option<&str>,
    normalized_base: Option<&str>,
    session_key: &[u8],
) -> (r: Result<PreparedUpstream, String>)
    ensures
        prepare_result(r) == upstream(
            *provider,
            model@,
            str_view(conversation_id),
            str_view(normalized_base),
            session_key@,
        ),
{
    match provider.kind {
        ProviderKind::Custom => {
            let base = match normalized_base {
                Some(base) => base,
                None => {
                    return Err("Invalid model API base.".to_owned());
                },
            };
            return Ok(
                PreparedUpstream {
                    api_base: base.to_owned(),
                    token: provider.token.clone(),
                    style: provider.api_style,
                    allow_insecure_tls: provider.allow_insecure_tls,
                    extra_headers: no_pairs(),
                    no_redirect: false,
                    kind: ProviderKind::Custom,
                    wire_model: model.to_owned(),
                },
            );
        },
        ProviderKind::OpenaiCodex => {},
        ProviderKind::Retired => {
            return Err("Unknown built-in provider.".to_owned());
        },
    }
    if provider.allow_insecure_tls {
        return Err("Built-in providers cannot skip certificate checks.".to_owned());
    }
    let mut base = CODEX_BASE.to_owned();
    base.append("/");
    match require_request_url(provider.kind, base.as_str()) {
        Ok(()) => {},
        Err(message) => {
            return Err(message);
        },
    }
    match codex_request_headers(provider.token.as_str(), conversation_id, session_key) {
        Ok((token, headers)) => Ok(codex_prepared(token, headers, model)),
        Err(message) => Err(message),
    }
}

// ---------------------------------------------------------------------------
// Probing
// ---------------------------------------------------------------------------

/// What a probe starts with.
#[derive(Debug)]
pub enum ProbePlan {
    /// It is over.
    Settled { health: ProviderHealth, models: Vec<RemoteModelOption> },
    /// Send the request; `finish_probe` takes what comes back.
    Ask(PinnedRequest),
}

/// What a `ProbePlan` holds.
#[verifier::ext_equal]
pub enum ProbeView {
    Settled { health: HealthView, models: Seq<ModelView> },
    Ask(RequestView),
}

impl View for ProbePlan {
    type V = ProbeView;

    open spec fn view(&self) -> ProbeView {
        match self {
            ProbePlan::Settled { health, models } => ProbeView::Settled {
                health: health@,
                models: model_views(models@),
            },
            ProbePlan::Ask(request) => ProbeView::Ask(request@),
        }
    }
}

/// The address of the catalog.
pub open spec fn catalog_url() -> Seq<char> {
    CODEX_BASE@ + "/models?client_version=1.0.0"@
}

/// The request for the catalog, with an access token whose claims are `claims`.
pub open spec fn catalog_request(token: Seq<char>, claims: Option<JsonView>) -> RequestView {
    RequestView {
        url: catalog_url(),
        headers: seq![
            ("Accept"@, "application/json"@),
            ("Authorization"@, "Bearer "@ + token),
        ] + identity_headers() + claim_headers(claims),
        payload: PayloadView::Empty,
        timeout_secs: 10,
    }
}

/// What a probe of the Codex provider starts with.
pub open spec fn codex_probe(stored: Seq<char>) -> ProbeView {
    match secret_read(stored) {
        Ok(secret) => if !is_usable(secret) {
            ProbeView::Settled {
                health: failed_health(
                    ProviderHealthKind::Auth,
                    "Sign in to ChatGPT to list Codex models."@,
                ),
                models: seq![],
            }
        } else if address_check(ProviderKind::OpenaiCodex, url_parts(catalog_url())) is Err {
            ProbeView::Settled {
                health: failed_health(ProviderHealthKind::Error, "Codex catalog URL was rejected."@),
                models: seq![],
            }
        } else {
            ProbeView::Ask(catalog_request(secret.access_token, token_claims(secret.access_token)))
        },
        Err(_) => ProbeView::Settled {
            health: failed_health(
                ProviderHealthKind::Auth,
                "Sign in to ChatGPT to list Codex models."@,
            ),
            models: seq![],
        },
    }
}

/// What a probe of a built-in provider starts with.
pub open spec fn builtin_probe(kind: ProviderKind, stored: Seq<char>) -> ProbeView {
    match kind {
        ProviderKind::OpenaiCodex => codex_probe(stored),
        _ => ProbeView::Settled {
            health: failed_health(ProviderHealthKind::Error, "Not a built-in provider."@),
            models: seq![],
        },
    }
}

fn settled(kind: ProviderHealthKind, message: &str) -> (r: ProbePlan)
    ensures
        r@ == (ProbeView::Settled { health: failed_health(kind, message@), models: seq![] }),
{
    let models: Vec<RemoteModelOption> = Vec::new();
    proof {
        assert(model_views(models@) =~= seq![]);
    }
    ProbePlan::Settled { health: health_error(kind, message), models }
}

/// The request for the catalog, with an access token whose claims are `claims`.
pub fn make_catalog_request(token: &str, claims: Option<&Json>) -> (r: PinnedRequest)
    ensures
        r@ == catalog_request(token@, ref_view(claims)),
{
    let mut url = CODEX_BASE.to_owned();
    url.append("/models?client_version=1.0.0");
    let mut bearer = "Bearer ".to_owned();
    bearer.append(token);
    let mut headers = no_pairs();
    push_pair(&mut headers, "Accept", "application/json");
    push_pair(&mut headers, "Authorization", bearer.as_str());
    proof {
        assert(headers.deep_view() =~= seq![
            ("Accept"@, "application/json"@),
            ("Authorization"@, bearer@),
        ]);
    }
    push_all(&mut headers, &codex_identity_headers());
    push_all(&mut headers, &headers_of_claims(claims));
    PinnedRequest { url, headers, payload: Payload::Empty, timeout_secs: 10 }
}

fn probe_codex(stored: &str) -> (r: ProbePlan)
    ensures
        r@ == codex_probe(stored@),
{
    let secret = match CodexSecret::parse(stored) {
        Ok(secret) => secret,
        Err(_) => {
            return settled(
                ProviderHealthKind::Auth,
                "Sign in to ChatGPT to list Codex models.",
            );
        },
    };
    if !usable(&secret) {
        return settled(ProviderHealthKind::Auth, "Sign in to ChatGPT to list Codex models.");
    }
    let mut url = CODEX_BASE.to_owned();
    url.append("/models?client_version=1.0.0");
    if require_request_url(ProviderKind::OpenaiCodex, url.as_str()).is_err() {
        return settled(ProviderHealthKind::Error, "Codex catalog URL was rejected.");
    }
    let token = secret.access_token.as_str();
    match jwt_claims(token) {
        Some(claims) => ProbePlan::Ask(make_catalog_request(token, Some(&claims))),
        None => ProbePlan::Ask(make_catalog_request(token, None)),
    }
}

/// What a probe of a built-in provider starts with.
pub fn probe_builtin(kind: ProviderKind, stored: &str) -> (r: ProbePlan)
    ensures
        r@ == builtin_probe(kind, stored@),
{
    match kind {
        ProviderKind::OpenaiCodex => probe_codex(stored),
        ProviderKind::Custom | ProviderKind::Retired => settled(
            ProviderHealthKind::Error,
            "Not a built-in provider.",
        ),
    }
}

/// What a probe comes to.
#[derive(Debug)]
pub struct ProbeOutcome {
    pub health: ProviderHealth,
    pub models: ProbedModels,
}

/// The models that a probe comes to.
#[derive(Debug)]
pub enum ProbedModels {
    /// Those that the catalog lists.
    Listed(Vec<RemoteModelOption>),
    /// Those recorded on this machine, as `local_codex_models` gives them.
    Recorded,
}

/// What a `ProbeOutcome` holds; no models where they are those recorded on this machine.
#[verifier::ext_equal]
pub struct OutcomeView {
    pub health: HealthView,
    pub models: Option<Seq<ModelView>>,
}

impl View for ProbeOutcome {
    type V = OutcomeView;

    open spec fn view(&self) -> OutcomeView {
        OutcomeView {
            health: self.health@,
            models: match self.models {
                ProbedModels::Listed(models) => Some(model_views(models@)),
                ProbedModels::Recorded => None,
            },
        }
    }
}

/// What a probe comes to, out of the reply to its request.
pub open spec fn probe_outcome(reply: ReplyView) -> OutcomeView {
    match reply {
        ReplyView::Unreachable => OutcomeView {
            health: failed_health(ProviderHealthKind::Waiting, "Codex catalog is unavailable."@),
            models: None,
        },
        ReplyView::Answered { status, body } => if is_redirect(status) {
            OutcomeView {
                health: failed_health(
                    ProviderHealthKind::Error,
                    "Codex catalog redirected. Gopher did not follow it."@,
                ),
                models: None,
            }
        } else if is_success(status) {
            let models = match body {
                Some(body) => catalog_models(body),
                None => seq![],
            };
            if models.len() == 0 {
                OutcomeView {
                    health: failed_health(
                        ProviderHealthKind::Empty,
                        "ChatGPT returned no Codex models."@,
                    ),
                    models: Some(seq![]),
                }
            } else {
                OutcomeView { health: ready_health(models[0].model), models: Some(models) }
            }
        } else if status == 401 {
            OutcomeView {
                health: failed_health(ProviderHealthKind::Auth, "Sign in to ChatGPT again."@),
                models: Some(seq![]),
            }
        } else {
            OutcomeView {
                health: failed_health(ProviderHealthKind::Waiting, "Codex catalog is unavailable."@),
                models: None,
            }
        },
    }
}

fn none_listed(kind: ProviderHealthKind, message: &str) -> (r: ProbeOutcome)
    ensures
        r@ == (OutcomeView { health: failed_health(kind, message@), models: Some(seq![]) }),
{
    let models: Vec<RemoteModelOption> = Vec::new();
    proof {
        assert(model_views(models@) =~= seq![]);
    }
    ProbeOutcome { health: health_error(kind, message), models: ProbedModels::Listed(models) }
}

/// What a probe comes to, out of the reply to its request.
pub fn settle_probe(reply: &JsonReply) -> (r: ProbeOutcome)
    ensures
        r@ == probe_outcome(reply@),
{
    let (status, body) = match reply {
        JsonReply::Unreachable => {
            return ProbeOutcome {
                health: health_error(ProviderHealthKind::Waiting, "Codex catalog is unavailable."),
                models: ProbedModels::Recorded,
            };
        },
        JsonReply::Answered { status, body } => (*status, body),
    };
    if redirect(status) {
        return ProbeOutcome {
            health: health_error(
                ProviderHealthKind::Error,
                "Codex catalog redirected. Gopher did not follow it.",
            ),
            models: ProbedModels::Recorded,
        };
    }
    if success(status) {
        let models = match body {
            Some(body) => codex_catalog_models(body),
            None => {
                let none: Vec<RemoteModelOption> = Vec::new();
                proof {
                    assert(model_views(none@) =~= seq![]);
                }
                none
            },
        };
        if models.is_empty() {
            return none_listed(ProviderHealthKind::Empty, "ChatGPT returned no Codex models.");
        }
        proof {
            assert(model_views(models@)[0] == models@[0]@);
        }
        return ProbeOutcome {
            health: health_ok(models[0].model.as_str()),
            models: ProbedModels::Listed(models),
        };
    }
    if status == 401 {
        return none_listed(ProviderHealthKind::Auth, "Sign in to ChatGPT again.");
    }
    ProbeOutcome {
        health: health_error(ProviderHealthKind::Waiting, "Codex catalog is unavailable."),
        models: ProbedModels::Recorded,
    }
}

/// What a probe comes to, out of the reply to its request.
pub fn finish_probe(reply: &HttpReply) -> (r: ProbeOutcome)
    ensures
        r@ == probe_outcome(reply@),
{
    settle_probe(&reply.read())
}

// ---------------------------------------------------------------------------
// Laws
// ---------------------------------------------------------------------------

/// A request to the Codex backend goes to its pinned base, over checked TLS, and follows no
/// redirect.
pub proof fn law_codex_upstream_stays_pinned(
    provider: Provider,
    model: Seq<char>,
    conversation: Option<Seq<char>>,
    normalized_base: Option<Seq<char>>,
    key: Seq<u8>,
)
    requires
        provider.kind != ProviderKind::Custom,
    ensures
        upstream(provider, model, conversation, normalized_base, key) matches Ok(prepared) ==> {
            &&& prepared.kind == ProviderKind::OpenaiCodex
            &&& prepared.api_base == CODEX_BASE@
            &&& is_pinned(prepared.api_base + "/"@)
            &&& prepared.style == ApiStyle::Responses
            &&& !prepared.allow_insecure_tls
            &&& prepared.no_redirect
        },
{
    reveal_strlit("https://chatgpt.com/backend-api/codex/");
    reveal_strlit("https://chatgpt.com/backend-api/codex");
    reveal_strlit("/");
    let pinned = "https://chatgpt.com/backend-api/codex/"@;
    assert(CODEX_BASE@ + "/"@ =~= pinned);
    assert(pinned.is_prefix_of(pinned)) by {
        assert(pinned.subrange(0, pinned.len() as int) =~= pinned);
    }
}

/// What is not a stored sign-in, such as a plain API key, is not sent to the Codex backend.
pub proof fn law_only_sign_ins_are_sent(
    provider: Provider,
    model: Seq<char>,
    conversation: Option<Seq<char>>,
    normalized_base: Option<Seq<char>>,
    key: Seq<u8>,
)
    requires
        provider.kind == ProviderKind::OpenaiCodex,
        secret_read(provider.token@) is Err,
    ensures
        upstream(provider, model, conversation, normalized_base, key) is Err,
{
}

/// The Codex backend gets the id of a conversation only as a keyed hash, which does not hold the
/// id, if that holds anything but lower-case hexadecimal digits.
pub proof fn law_conversation_id_stays_local(
    claims: Option<JsonView>,
    id: Seq<char>,
    key: Seq<u8>,
    i: int,
)
    requires
        0 <= i < text::trimmed(id).len(),
        !is_hex_digit(text::trimmed(id)[i]),
    ensures
        session_headers(claims, Some(id), key) == session_headers(claims, None, key).push(
            ("session_id"@, session_text(key, text::trimmed(id))),
        ),
        !text::occurs_in(text::trimmed(id), session_text(key, text::trimmed(id))),
{
    law_session_hides_the_id(key, text::trimmed(id), i);
}

/// A new sign-in can be used at once, with the access token that it was made of.
pub proof fn law_new_sign_in_is_usable(
    stored: Seq<char>,
    access_token: Seq<char>,
    refresh_token: Seq<char>,
    expires_in: Option<u64>,
    conversation: Option<Seq<char>>,
    key: Seq<u8>,
)
    requires
        stores_tokens(stored, access_token, refresh_token, expires_in),
        text::trimmed(access_token).len() > 0,
    ensures
        stored_headers(stored, conversation, key) == Ok::<_, Seq<char>>(
            (
                text::trimmed(access_token),
                session_headers(token_claims(text::trimmed(access_token)), conversation, key),
            ),
        ),
{
    text::lemma_trimmed_twice(access_token);
}

/// A sign-in whose refresh token was refused is not used any more, neither for requests nor for
/// the catalog.
pub proof fn law_refused_sign_in_is_not_used(
    secret: SecretView,
    status: u16,
    body: Option<JsonView>,
    answered: u64,
    stored: Seq<char>,
    conversation: Option<Seq<char>>,
    key: Seq<u8>,
)
    requires
        is_client_error(status),
        secret_read(stored) == settled_secret(
            secret,
            ReplyView::Answered { status, body },
            answered,
        ),
    ensures
        stored_headers(stored, conversation, key) is Err,
        codex_probe(stored) is Settled,
{
}

} // verus!
