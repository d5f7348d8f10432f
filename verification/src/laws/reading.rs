//! Laws of reading: what is read in a value is what was put there, and what a value is said to hold
//! is what its fields hold.

use vstd::prelude::*;
use crate::callback::{code_result, CallbackFields};
use crate::http::{HttpReply, JsonReply, Payload, PayloadView, PinnedRequest, ReplyView};
use crate::json::{array_view, as_items, as_signed, as_text, as_truth, as_unsigned, entry_views, json_parse_bytes, member, member_of, object_view, opt_view, or_else, ref_view, str_view, text_at, Json, JsonView, Numeral};
use crate::login::{action_opt, device_result, poll_result, tokens_result, ActionView, DeviceCode, PageAction};
use crate::members::{all_read, member_views};
use crate::pinned::{check_result, UrlParts};
use crate::providers::{model_views, ProviderHealth, RemoteModelOption};
use crate::refresh::{plan_result, refresh_result, CodexRefresh, PlanView, RefreshPlan};
use crate::secret::{given_opt, secret_opt, secret_result, CodexSecret, SecretFields};
use crate::subscription::{headers_result, prepare_result, PreparedUpstream, ProbeOutcome, ProbePlan, ProbeView, ProbedModels};

verus! {

// ---------------------------------------------------------------------------
// JSON
// ---------------------------------------------------------------------------

/// A value is read as what it is, as it stands, and as nothing else: a text as that text, an array
/// as those items, a truth value as that one, a whole number as that number where it fits.
pub proof fn law_values_are_read_as_they_are(
    s: Seq<char>,
    items: Seq<JsonView>,
    b: bool,
    n: u64,
    m: i64,
    value: JsonView,
)
    ensures
        as_text(Some(JsonView::Text(s))) == Some(s),
        as_items(Some(JsonView::Array(items))) == Some(items),
        as_truth(Some(JsonView::Bool(b))) == Some(b),
        as_unsigned(Some(JsonView::Number(Numeral::Unsigned(n)))) == Some(n),
        n <= i64::MAX ==> (as_signed(Some(JsonView::Number(Numeral::Unsigned(n)))) matches Some(k) && k
            == n),
        n > i64::MAX ==> as_signed(Some(JsonView::Number(Numeral::Unsigned(n)))) is None,
        as_signed(Some(JsonView::Number(Numeral::Negative(m)))) == Some(m),
        as_unsigned(Some(JsonView::Number(Numeral::Negative(m)))) is None,
        !(value is Text) ==> as_text(Some(value)) is None,
        !(value is Array) ==> as_items(Some(value)) is None,
        !(value is Bool) ==> as_truth(Some(value)) is None,
        !(value is Number) ==> as_unsigned(Some(value)) is None && as_signed(Some(value)) is None,
        as_text(None) is None && as_items(None) is None && as_truth(None) is None,
        as_unsigned(None) is None && as_signed(None) is None,
{
}

/// A member is what was put under its key, whatever was put under others; where nothing was, and
/// in a value that is no object, there is none.
pub proof fn law_members_are_found(
    members: Map<Seq<char>, JsonView>,
    key: Seq<char>,
    other: Seq<char>,
    value: JsonView,
)
    ensures
        member(JsonView::Object(members.insert(key, value)), key) == Some(value),
        other != key ==> member(JsonView::Object(members.insert(key, value)), other) == member(
            JsonView::Object(members),
            other,
        ),
        member(JsonView::Object(Map::<Seq<char>, JsonView>::empty()), key) is None,
        !(value is Object) ==> member(value, key) is None,
        member_of(Some(value), key) == member(value, key),
        member_of(None, key) is None,
        text_at(value, key) == as_text(member(value, key)),
        or_else(Some(key), other) == key,
        or_else(None, other) == other,
{
}

/// A value holds what it is made of: a text its characters, an array its items in their order, an
/// object its entries, the last of each key.
pub proof fn law_values_hold_what_they_are_made_of(
    s: String,
    b: bool,
    items: Vec<Json>,
    entries: Vec<(String, Json)>,
    i: int,
)
    ensures
        Json::Null.view() == JsonView::Null,
        Json::Text(s).view() == JsonView::Text(s@),
        Json::Bool(b).view() == JsonView::Bool(b),
        Json::Array(items).view() == JsonView::Array(array_view(items@)),
        Json::Object(entries).view() == JsonView::Object(object_view(entries@)),
        array_view(items@).len() == items@.len(),
        0 <= i < items@.len() ==> array_view(items@)[i] == items@[i].view(),
        entry_views(entries@).len() == entries@.len(),
        0 <= i < entries@.len() ==> entry_views(entries@)[i] == (
            entries@[i].0@,
            entries@[i].1.view(),
        ),
{
}

/// An object holds one more entry under its key, in place of an earlier one.
pub proof fn law_entries_are_held(entries: Seq<(String, Json)>, entry: (String, Json))
    ensures
        object_view(Seq::<(String, Json)>::empty()) == Map::<Seq<char>, JsonView>::empty(),
        object_view(entries.push(entry)) == object_view(entries).insert(entry.0@, entry.1.view()),
{
    assert(entries.push(entry).drop_last() =~= entries);
}

/// Optional values hold what they are, if they are there.
pub proof fn law_optional_values(value: Json, s: &str)
    ensures
        opt_view(Some(value)) == Some(value.view()),
        opt_view(None) is None,
        ref_view(Some(&value)) == Some(value.view()),
        ref_view(None) is None,
        str_view(Some(s)) == Some(s@),
        str_view(None) is None,
{
}

/// Members read one by one hold their key and their value, in their order.
pub proof fn law_members_hold_key_and_value(
    members: Seq<(String, Option<Json>)>,
    written: Seq<(Seq<char>, JsonView)>,
    i: int,
)
    ensures
        member_views(members).len() == members.len(),
        0 <= i < members.len() ==> member_views(members)[i] == (members[i].0@, opt_view(members[i].1)),
        all_read(written).len() == written.len(),
        0 <= i < written.len() ==> all_read(written)[i] == (written[i].0, Some(written[i].1)),
{
}

// ---------------------------------------------------------------------------
// Providers and models
// ---------------------------------------------------------------------------

/// An option holds what its fields hold, and options hold theirs in their order.
pub proof fn law_options_hold_their_fields(option: RemoteModelOption, options: Seq<RemoteModelOption>, i: int)
    ensures
        option@.id == option.id@ && option@.model == option.model@ && option@.base == option.base@,
        option@.port == option.port && option@.ready == option.ready && option@.label == option.label@,
        option@.thinking_supported == option.thinking_supported,
        option@.thinking_control == option.thinking_control.deep_view(),
        option@.thinking_efforts == option.thinking_efforts.deep_view(),
        option@.thinking_can_disable == option.thinking_can_disable,
        option@.reasoning_summary == option.reasoning_summary.deep_view(),
        option@.reasoning_context == option.reasoning_context.deep_view(),
        option@.attachments_supported == option.attachments_supported,
        option@.context_length == option.context_length,
        option@.prompt_progress_supported == option.prompt_progress_supported,
        option@.provider_id == option.provider_id@ && option@.provider_name == option.provider_name@,
        option@.request_style == option.request_style,
        option@.connect_kind == option.connect_kind.deep_view(),
        model_views(options).len() == options.len(),
        0 <= i < options.len() ==> model_views(options)[i] == options[i]@,
{
}

/// Health reports, prepared requests and what a probe starts with or comes to hold what their
/// fields hold.
pub proof fn law_reports_hold_their_fields(
    health: ProviderHealth,
    prepared: PreparedUpstream,
    models: Vec<RemoteModelOption>,
    request: PinnedRequest,
)
    ensures
        health@.ok == health.ok && health@.kind == health.kind,
        health@.model == health.model.deep_view() && health@.status == health.status.deep_view(),
        health@.error == health.error.deep_view(),
        prepared@.api_base == prepared.api_base@ && prepared@.token == prepared.token@,
        prepared@.style == prepared.style && prepared@.kind == prepared.kind,
        prepared@.allow_insecure_tls == prepared.allow_insecure_tls,
        prepared@.extra_headers == prepared.extra_headers.deep_view(),
        prepared@.no_redirect == prepared.no_redirect,
        prepared@.wire_model == prepared.wire_model@,
        (ProbePlan::Settled { health, models })@ == (ProbeView::Settled {
            health: health@,
            models: model_views(models@),
        }),
        ProbePlan::Ask(request)@ == ProbeView::Ask(request@),
        (ProbeOutcome { health, models: ProbedModels::Listed(models) })@.health == health@,
        (ProbeOutcome { health, models: ProbedModels::Listed(models) })@.models == Some(
            model_views(models@),
        ),
        (ProbeOutcome { health, models: ProbedModels::Recorded })@.health == health@,
        (ProbeOutcome { health, models: ProbedModels::Recorded })@.models is None,
{
}

// ---------------------------------------------------------------------------
// Requests, replies and sign-ins
// ---------------------------------------------------------------------------

/// A request holds what its fields hold, and a reply its status and the JSON in its body.
pub proof fn law_messages_hold_their_fields(
    request: PinnedRequest,
    fields: Vec<(String, String)>,
    value: Json,
    status: u16,
    bytes: Vec<u8>,
)
    ensures
        request@.url == request.url@ && request@.headers == request.headers.deep_view(),
        request@.payload == request.payload@ && request@.timeout_secs == request.timeout_secs,
        Payload::Empty@ == PayloadView::Empty,
        Payload::Form(fields)@ == PayloadView::Form(fields.deep_view()),
        Payload::Json(value)@ == PayloadView::Json(value.view()),
        HttpReply::Unreachable@ == ReplyView::Unreachable,
        (HttpReply::Answered { status, body: Some(bytes) })@ == (ReplyView::Answered {
            status,
            body: json_parse_bytes(bytes@),
        }),
        (HttpReply::Answered { status, body: None })@ == (ReplyView::Answered { status, body: None }),
        JsonReply::Unreachable@ == ReplyView::Unreachable,
        (JsonReply::Answered { status, body: Some(value) })@ == (ReplyView::Answered {
            status,
            body: Some(value.view()),
        }),
        (JsonReply::Answered { status, body: None })@ == (ReplyView::Answered { status, body: None }),
{
}

/// Sign-ins, their renewals, device codes, what the browser brings back and the parts of an address
/// hold what their fields hold.
pub proof fn law_sign_ins_hold_their_fields(
    secret: CodexSecret,
    fields: SecretFields,
    refresh: CodexRefresh,
    request: PinnedRequest,
    code: DeviceCode,
    brought: CallbackFields,
    parts: UrlParts,
)
    ensures
        secret@.access_token == secret.access_token@ && secret@.refresh_token == secret.refresh_token@,
        secret@.expires_at == secret.expires_at && secret@.refresh_dead == secret.refresh_dead,
        fields@.access_token == fields.access_token.deep_view(),
        fields@.refresh_token == fields.refresh_token.deep_view(),
        fields@.expires_at == fields.expires_at && fields@.refresh_dead == fields.refresh_dead,
        refresh@.secret_json == refresh.secret_json@ && refresh@.changed == refresh.changed,
        RefreshPlan::Settled(refresh)@ == PlanView::Settled(refresh@),
        (RefreshPlan::Ask { secret, request })@ == (PlanView::Ask { secret: secret@, request: request@ }),
        code@.user_code == code.user_code@ && code@.verification_url == code.verification_url@,
        code@.device_auth_id == code.device_auth_id@ && code@.interval_secs == code.interval_secs,
        brought@.code == brought.code.deep_view() && brought@.state == brought.state.deep_view(),
        brought@.error == brought.error.deep_view(),
        brought@.error_description == brought.error_description.deep_view(),
        parts@.scheme == parts.scheme@ && parts@.host == parts.host.deep_view(),
        parts@.path == parts.path@,
{
}

/// What the page does holds the answer, the code and the words that it is made of.
pub proof fn law_actions_hold_their_fields(page: &'static str, text: String, millis: u64)
    ensures
        (PageAction::Wait { millis })@ == (ActionView::Wait { millis }),
        PageAction::Again@ == ActionView::Again,
        (PageAction::Answer { page })@ == (ActionView::Answer { page: page@ }),
        (PageAction::Done { page, code: text })@ == (ActionView::Done { page: page@, code: text@ }),
        (PageAction::Fail { last: Some(page), message: text })@ == (ActionView::Fail {
            last: Some(page@),
            message: text@,
        }),
        (PageAction::Fail { last: None, message: text })@ == (ActionView::Fail {
            last: None,
            message: text@,
        }),
{
}

/// What an operation comes to holds the value that it gives.
pub proof fn law_outcomes_hold_their_values(
    text: String,
    other: String,
    number: Option<u64>,
    headers: Vec<(String, String)>,
    prepared: PreparedUpstream,
    plan: RefreshPlan,
    refresh: CodexRefresh,
    code: DeviceCode,
    request: PinnedRequest,
)
    ensures
        code_result(Ok(text)) == Ok::<Seq<char>, Seq<char>>(text@),
        tokens_result(Ok((text, other, number))) == Ok::<(Seq<char>, Seq<char>, Option<u64>), Seq<char>>(
            (text@, other@, number),
        ),
        headers_result(Ok((text, headers))) == Ok::<
            (Seq<char>, Seq<(Seq<char>, Seq<char>)>),
            Seq<char>,
        >((text@, headers.deep_view())),
        prepare_result(Ok(prepared)) is Ok && prepare_result(Ok(prepared))->Ok_0 == prepared@,
        plan_result(Ok(plan)) is Ok && plan_result(Ok(plan))->Ok_0 == plan@,
        refresh_result(Ok(refresh)) is Ok && refresh_result(Ok(refresh))->Ok_0 == refresh@,
        device_result(Ok(code)) is Ok && device_result(Ok(code))->Ok_0 == code@,
        poll_result(Ok(Some(request))) is Ok && poll_result(Ok(Some(request)))->Ok_0 == Some(request@),
        poll_result(Ok(None)) is Ok && poll_result(Ok(None))->Ok_0 is None,
        check_result(Ok(())) is Ok,
{
}

/// What an operation comes to holds the words that it fails with.
pub proof fn law_failures_hold_their_words(message: String)
    ensures
        code_result(Err(message)) == Err::<Seq<char>, Seq<char>>(message@),
        tokens_result(Err(message)) is Err && tokens_result(Err(message))->Err_0 == message@,
        headers_result(Err(message)) is Err && headers_result(Err(message))->Err_0 == message@,
        prepare_result(Err(message)) is Err && prepare_result(Err(message))->Err_0 == message@,
        plan_result(Err(message)) is Err && plan_result(Err(message))->Err_0 == message@,
        refresh_result(Err(message)) is Err && refresh_result(Err(message))->Err_0 == message@,
        device_result(Err(message)) is Err && device_result(Err(message))->Err_0 == message@,
        poll_result(Err(message)) is Err && poll_result(Err(message))->Err_0 == message@,
        check_result(Err(message)) is Err && check_result(Err(message))->Err_0 == message@,
        secret_result(Err(message)) is Err && secret_result(Err(message))->Err_0 == message@,
{
}

/// What may be there or not holds what is there.
pub proof fn law_optional_outcomes_hold_their_values(
    secret: CodexSecret,
    fields: SecretFields,
    action: PageAction,
)
    ensures
        secret_result(Ok(secret)) is Ok && secret_result(Ok(secret))->Ok_0 == secret@,
        secret_opt(Some(secret)) == Some(secret@) && secret_opt(None) is None,
        given_opt(Some(fields)) == Some(fields@) && given_opt(None) is None,
        action_opt(Some(action)) == Some(action@) && action_opt(None) is None,
{
}

} // verus!
