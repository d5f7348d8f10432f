//! Laws of where a request goes, what it carries, and how the provider fares.

use vstd::prelude::*;
use crate::catalog::catalog_models;
use crate::digest::session_text;
use crate::http::ReplyView;
use crate::json::{json_parse_bytes, JsonView};
use crate::members::{first_member, is_json_space, json_value_end, members_from, object_members, past_space};
use crate::pinned::{address_check, url_parts, UrlView};
use crate::providers::{ApiStyle, HealthView, ModelView, Provider, ProviderHealthKind, ProviderKind};
use crate::secret::{claim_headers, secret_read, token_claims};
use crate::subscription::{builtin_probe, catalog_request, connect_view, probe_outcome, session_headers, stored_headers, upstream, ProbeView};
use crate::text::trimmed;

verus! {

// ---------------------------------------------------------------------------
// Addresses
// ---------------------------------------------------------------------------

/// Why an address is refused: it is none; it is not HTTPS; or it is not below the path of the Codex
/// host, or the credential is not that of the Codex provider.
pub proof fn law_refusals_say_why(kind: ProviderKind, parts: UrlView)
    ensures
        address_check(kind, None) == Err::<(), _>("Refused a non-URL provider request."@),
        parts.scheme != "https"@ ==> address_check(kind, Some(parts)) == Err::<(), _>(
            "Built-in providers only use HTTPS."@,
        ),
        parts.scheme == "https"@ && !(kind == ProviderKind::OpenaiCodex && parts.host == Some(
            "chatgpt.com"@,
        ) && "/backend-api/codex/"@.is_prefix_of(parts.path)) ==> address_check(kind, Some(parts))
            == Err::<(), _>("Refused to send this credential to an unexpected host."@),
{
}

// ---------------------------------------------------------------------------
// Headers
// ---------------------------------------------------------------------------

/// A request says who asks, then names the account as the claims of the token ask for, then the
/// conversation, by the keyed hash of its id, trimmed; a blank or missing id is left out.
pub proof fn law_request_headers(claims: Option<JsonView>, id: Seq<char>, key: Seq<u8>)
    ensures
        session_headers(claims, None, key) == seq![("originator"@, "gopher"@)] + claim_headers(claims),
        trimmed(id).len() == 0 ==> session_headers(claims, Some(id), key) == session_headers(
            claims,
            None,
            key,
        ),
        trimmed(id).len() > 0 ==> session_headers(claims, Some(id), key) == session_headers(
            claims,
            None,
            key,
        ).push(("session_id"@, session_text(key, trimmed(id)))),
{
}

/// A stored sign-in is used with its access token as it stands, unless it is dead or the token is
/// blank; what is no sign-in is not used.
pub proof fn law_sign_in_is_used(stored: Seq<char>, conversation: Option<Seq<char>>, key: Seq<u8>)
    ensures
        match secret_read(stored) {
            Ok(secret) => if secret.refresh_dead || trimmed(secret.access_token).len() == 0 {
                stored_headers(stored, conversation, key) is Err && stored_headers(
                    stored,
                    conversation,
                    key,
                )->Err_0 == "Sign in to ChatGPT again."@
            } else {
                &&& stored_headers(stored, conversation, key) is Ok
                &&& (stored_headers(stored, conversation, key)->Ok_0).0 == secret.access_token
                &&& (stored_headers(stored, conversation, key)->Ok_0).1 == session_headers(
                    token_claims(secret.access_token),
                    conversation,
                    key,
                )
            },
            Err(told) => stored_headers(stored, conversation, key) is Err && stored_headers(
                stored,
                conversation,
                key,
            )->Err_0 == told,
        },
{
}

// ---------------------------------------------------------------------------
// Upstream
// ---------------------------------------------------------------------------

/// A provider set up by the user is asked at its own base, with its own token, in its own form and
/// with its own choice about certificates, for the model as it is named; without a valid base it
/// is not asked.
pub proof fn law_custom_upstream(
    provider: Provider,
    model: Seq<char>,
    conversation: Option<Seq<char>>,
    base: Seq<char>,
    key: Seq<u8>,
)
    requires
        provider.kind == ProviderKind::Custom,
    ensures
        upstream(provider, model, conversation, None, key) is Err,
        upstream(provider, model, conversation, None, key)->Err_0 == "Invalid model API base."@,
        ({
            let prepared = upstream(provider, model, conversation, Some(base), key);
            &&& prepared is Ok
            &&& prepared->Ok_0.api_base == base
            &&& prepared->Ok_0.token == provider.token@
            &&& prepared->Ok_0.style == provider.api_style
            &&& prepared->Ok_0.allow_insecure_tls == provider.allow_insecure_tls
            &&& prepared->Ok_0.extra_headers.len() == 0
            &&& !prepared->Ok_0.no_redirect
            &&& prepared->Ok_0.kind == ProviderKind::Custom
            &&& prepared->Ok_0.wire_model == model
        }),
{
}

/// The Codex provider is asked at its pinned base, in the Responses form, with checked
/// certificates and no redirects, with the access token and the headers of its sign-in, for the
/// model as it is named, trimmed. Retired providers, skipped certificate checks, an address that is
/// refused and a sign-in that cannot be used are errors, in this order.
pub proof fn law_codex_upstream(
    provider: Provider,
    model: Seq<char>,
    conversation: Option<Seq<char>>,
    base: Option<Seq<char>>,
    key: Seq<u8>,
)
    requires
        provider.kind != ProviderKind::Custom,
    ensures
        ({
            let prepared = upstream(provider, model, conversation, base, key);
            let address = address_check(
                ProviderKind::OpenaiCodex,
                url_parts("https://chatgpt.com/backend-api/codex"@ + "/"@),
            );
            let carried = stored_headers(provider.token@, conversation, key);
            if provider.kind == ProviderKind::Retired {
                prepared is Err && prepared->Err_0 == "Unknown built-in provider."@
            } else if provider.allow_insecure_tls {
                prepared is Err && prepared->Err_0
                    == "Built-in providers cannot skip certificate checks."@
            } else if address is Err {
                prepared is Err && prepared->Err_0 == address->Err_0
            } else if carried is Err {
                prepared is Err && prepared->Err_0 == carried->Err_0
            } else {
                &&& prepared is Ok
                &&& prepared->Ok_0.api_base == "https://chatgpt.com/backend-api/codex"@
                &&& prepared->Ok_0.token == (carried->Ok_0).0
                &&& prepared->Ok_0.extra_headers == (carried->Ok_0).1
                &&& prepared->Ok_0.style == ApiStyle::Responses
                &&& !prepared->Ok_0.allow_insecure_tls
                &&& prepared->Ok_0.no_redirect
                &&& prepared->Ok_0.kind == ProviderKind::OpenaiCodex
                &&& prepared->Ok_0.wire_model == trimmed(model)
            }
        }),
{
}

/// The option by which the user connects a provider leads to that provider and is not ready.
pub proof fn law_connect_option(id: Seq<char>, kind: ProviderKind)
    ensures
        ({
            let option = connect_view(id, kind);
            &&& option.id == "connect|"@ + id
            &&& option.provider_id == id
            &&& option.provider_name == "ChatGPT"@
            &&& option.label == "Connect ChatGPT"@
            &&& option.base == "https://chatgpt.com/backend-api/codex"@
            &&& option.port == 443
            &&& option.model.len() == 0
            &&& !option.ready
            &&& !option.thinking_supported && option.thinking_control is None
            &&& option.thinking_efforts.len() == 0
            &&& option.reasoning_summary is None && option.reasoning_context is None
            &&& !option.thinking_can_disable
            &&& !option.attachments_supported && option.context_length is None
            &&& !option.prompt_progress_supported
            &&& option.request_style == ApiStyle::Responses
            &&& option.connect_kind == Some(kind.name_view())
        }),
{
}

// ---------------------------------------------------------------------------
// Probing
// ---------------------------------------------------------------------------

/// Whether a health report tells of a failure of a kind, in these words.
pub open spec fn reports(health: HealthView, kind: ProviderHealthKind, words: Seq<char>) -> bool {
    &&& !health.ok
    &&& health.kind == kind
    &&& health.error == Some(words)
    &&& health.model is None
    &&& health.status is None
}

/// The catalog is asked for at its pinned address with the token as it stands, for JSON, by the
/// client that asks, for the account of the token, within 10 seconds and without a body.
pub proof fn law_catalog_is_asked_for(token: Seq<char>, claims: Option<JsonView>)
    ensures
        ({
            let request = catalog_request(token, claims);
            &&& request.url == "https://chatgpt.com/backend-api/codex"@
                + "/models?client_version=1.0.0"@
            &&& request.headers.len() == 3 + claim_headers(claims).len()
            &&& request.headers[0] == ("Accept"@, "application/json"@)
            &&& request.headers[1] == ("Authorization"@, "Bearer "@ + token)
            &&& request.headers[2] == ("originator"@, "gopher"@)
            &&& request.headers.skip(3) == claim_headers(claims)
            &&& request.payload is Empty
            &&& request.timeout_secs == 10
        }),
{
    assert(catalog_request(token, claims).headers.skip(3) =~= claim_headers(claims));
}

/// A probe asks for the catalog with a sign-in that can be used, and for nothing otherwise: it
/// asks the user to sign in, or says that the provider is not a built-in one.
pub proof fn law_probe_starts(kind: ProviderKind, stored: Seq<char>)
    ensures
        ({
            let start = builtin_probe(kind, stored);
            let usable = secret_read(stored) matches Ok(secret) && !secret.refresh_dead && trimmed(
                secret.access_token,
            ).len() > 0;
            let address = address_check(
                ProviderKind::OpenaiCodex,
                url_parts(
                    "https://chatgpt.com/backend-api/codex"@ + "/models?client_version=1.0.0"@,
                ),
            );
            if kind != ProviderKind::OpenaiCodex {
                start matches ProbeView::Settled { health, models } && models.len() == 0 && reports(
                    health,
                    ProviderHealthKind::Error,
                    "Not a built-in provider."@,
                )
            } else if !usable {
                start matches ProbeView::Settled { health, models } && models.len() == 0 && reports(
                    health,
                    ProviderHealthKind::Auth,
                    "Sign in to ChatGPT to list Codex models."@,
                )
            } else if address is Err {
                start matches ProbeView::Settled { health, models } && models.len() == 0 && reports(
                    health,
                    ProviderHealthKind::Error,
                    "Codex catalog URL was rejected."@,
                )
            } else {
                start == ProbeView::Ask(
                    catalog_request(
                        secret_read(stored)->Ok_0.access_token,
                        token_claims(secret_read(stored)->Ok_0.access_token),
                    ),
                )
            }
        }),
{
}

/// A probe comes to the models of the catalog that it gets, the first of them named as ready; or to
/// none, where the catalog has none or the sign-in was refused; or to those recorded on this
/// machine, where the catalog cannot be had.
pub proof fn law_probe_ends(status: u16, body: Option<JsonView>)
    ensures
        probe_outcome(ReplyView::Unreachable).models is None,
        reports(
            probe_outcome(ReplyView::Unreachable).health,
            ProviderHealthKind::Waiting,
            "Codex catalog is unavailable."@,
        ),
        ({
            let outcome = probe_outcome(ReplyView::Answered { status, body });
            let listed = catalog_models(body->0);
            if 300 <= status <= 399 {
                outcome.models is None && reports(
                    outcome.health,
                    ProviderHealthKind::Error,
                    "Codex catalog redirected. Gopher did not follow it."@,
                )
            } else if 200 <= status <= 299 {
                if body is None || listed.len() == 0 {
                    outcome.models == Some(Seq::<ModelView>::empty()) && reports(
                        outcome.health,
                        ProviderHealthKind::Empty,
                        "ChatGPT returned no Codex models."@,
                    )
                } else {
                    &&& outcome.models == Some(listed)
                    &&& outcome.health.ok
                    &&& outcome.health.kind == ProviderHealthKind::Ready
                    &&& outcome.health.model == Some(listed[0].model)
                    &&& outcome.health.status == Some("ready"@)
                    &&& outcome.health.error is None
                }
            } else if status == 401 {
                outcome.models == Some(Seq::<ModelView>::empty()) && reports(
                    outcome.health,
                    ProviderHealthKind::Auth,
                    "Sign in to ChatGPT again."@,
                )
            } else {
                outcome.models is None && reports(
                    outcome.health,
                    ProviderHealthKind::Waiting,
                    "Codex catalog is unavailable."@,
                )
            }
        }),
{
}

// ---------------------------------------------------------------------------
// Objects, member by member
// ---------------------------------------------------------------------------

/// Whether bytes are white space between the parts of a JSON text.
pub open spec fn is_space_only(bytes: Seq<u8>) -> bool {
    forall|i: int| 0 <= i < bytes.len() ==> is_json_space(#[trigger] bytes[i])
}

proof fn lemma_past(space: Seq<u8>, rest: Seq<u8>)
    requires
        is_space_only(space),
    ensures
        past_space(space + rest) == past_space(rest),
    decreases space.len(),
{
    let s = space + rest;
    if space.len() > 0 {
        assert(is_json_space(space[0]));
        assert(s[0] == space[0]);
        assert(s.drop_first() =~= space.drop_first() + rest);
        lemma_past(space.drop_first(), rest);
    } else {
        assert(s =~= rest);
    }
}

proof fn lemma_past_all(space: Seq<u8>)
    requires
        is_space_only(space),
    ensures
        past_space(space).len() == 0,
{
    lemma_past(space, Seq::<u8>::empty());
    assert(space + Seq::<u8>::empty() =~= space);
}

/// A member is a key, a colon and a value, with any white space around the colon: the key is the
/// text that `serde_json` reads in the first value, and the value is what it reads in the second.
pub proof fn law_member_is_key_and_value(
    key: Seq<u8>,
    before: Seq<u8>,
    after: Seq<u8>,
    value: Seq<u8>,
    rest: Seq<u8>,
    name: Seq<char>,
)
    requires
        key.len() > 0,
        key[0] == 34,
        value.len() > 0,
        !is_json_space(value[0]),
        is_space_only(before),
        is_space_only(after),
        json_value_end(key + before + seq![58u8] + after + value + rest) == Some(key.len()),
        json_value_end(value + rest) == Some(value.len()),
        json_parse_bytes(key) == Some(JsonView::Text(name)),
    ensures
        first_member(key + before + seq![58u8] + after + value + rest) == Some(
            ((name, json_parse_bytes(value)), rest),
        ),
{
    let source = key + before + seq![58u8] + after + value + rest;
    let n = key.len() as int;
    let follows = seq![58u8] + (after + (value + rest));
    assert(source.take(n) =~= key);
    assert(source.skip(n) =~= before + follows);
    lemma_past(before, follows);
    assert(past_space(follows) == follows);
    assert(follows.drop_first() =~= after + (value + rest));
    lemma_past(after, value + rest);
    assert((value + rest)[0] == value[0]);
    assert(past_space(value + rest) == value + rest);
    assert((value + rest).take(value.len() as int) =~= value);
    assert((value + rest).skip(value.len() as int) =~= rest);
}

/// An object stands between braces, and its members follow one another with commas between them,
/// with any white space around all of these: each counts, in its order. No comma stands before the
/// closing brace, and nothing but white space behind it.
pub proof fn law_members_follow_one_another(
    space: Seq<u8>,
    gap: Seq<u8>,
    end: Seq<u8>,
    source: Seq<u8>,
    more: Seq<u8>,
    member: (Seq<char>, Option<JsonView>),
)
    requires
        is_space_only(space),
        is_space_only(gap),
        is_space_only(end),
    ensures
        object_members(space + seq![123u8] + source) == members_from(source, true),
        members_from(space + source, true) == members_from(source, true),
        members_from(space + source, false) == members_from(source, false),
        members_from(seq![125u8] + end, true) == Some(Seq::<(Seq<char>, Option<JsonView>)>::empty()),
        members_from(seq![125u8] + more, false) is None,
        past_space(source) == source && first_member(source) == Some((member, gap + seq![125u8] + end))
            ==> members_from(source, false) == Some(seq![member]),
        past_space(source) == source && first_member(source) == Some((member, gap + seq![44u8] + more))
            ==> members_from(source, false) == (match members_from(more, false) {
            Some(members) => Some(seq![member] + members),
            None => None,
        }),
        past_space(source) == source && first_member(source) is None ==> members_from(source, false)
            is None,
        first_member(source) is Some ==> members_from(source, true) == members_from(source, false),
{
    lemma_past(space, seq![123u8] + source);
    assert(space + seq![123u8] + source =~= space + (seq![123u8] + source));
    assert((seq![123u8] + source).drop_first() =~= source);
    assert((seq![123u8] + source)[0] == 123);
    assert(past_space(seq![123u8] + source) == seq![123u8] + source);
    lemma_past(space, source);
    lemma_past_all(end);
    let close = seq![125u8] + end;
    assert(close[0] == 125);
    assert(close.drop_first() =~= end);
    assert((seq![125u8] + more)[0] == 125);
    let closing = seq![125u8] + end;
    lemma_past(gap, closing);
    assert(gap + seq![125u8] + end =~= gap + closing);
    let comma = seq![44u8] + more;
    lemma_past(gap, comma);
    assert(gap + seq![44u8] + more =~= gap + comma);
    assert(comma[0] == 44);
    assert(comma.drop_first() =~= more);
    if first_member(source) is Some {
        assert(source[0] == 34);
        assert(past_space(source) == source);
    }
}

} // verus!
