//! Renewing a ChatGPT sign-in near its expiry, and taking over one that the Codex CLI made.

use vstd::prelude::*;
use crate::http::{client_error, is_client_error, is_redirect, is_success, no_pairs, push_pair, redirect, success, HttpReply, JsonReply, Payload, PayloadView, PinnedRequest, ReplyView, RequestView};
use crate::json::{as_unsigned, json_parse, member, or_else, text_at, Json, JsonView};
use crate::secret::{add_capped, claimed_expiry, codex_secret_from_tokens, is_due, jwt_expiry, later, now_secs, secret_read, secret_text, stores_tokens, token_claims, CodexSecret, SecretView, CODEX_CLIENT_ID, CODEX_TOKEN_URL, REFRESH_SKEW_SECS};
use crate::text;

verus! {

// ---------------------------------------------------------------------------
// What a renewal comes to
// ---------------------------------------------------------------------------

/// The stored text of a sign-in after a look at it, and whether it is a new one.
#[derive(Debug)]
pub struct CodexRefresh {
    pub secret_json: String,
    pub changed: bool,
}

/// What a `CodexRefresh` holds.
#[verifier::ext_equal]
pub struct RefreshView {
    pub secret_json: Seq<char>,
    pub changed: bool,
}

impl View for CodexRefresh {
    type V = RefreshView;

    open spec fn view(&self) -> RefreshView {
        RefreshView { secret_json: self.secret_json@, changed: self.changed }
    }
}

/// What is to be done about a sign-in.
pub enum RefreshPlan {
    /// Nothing more.
    Settled(CodexRefresh),
    /// Send the request; `finish_refresh` takes the secret and what comes back.
    Ask { secret: CodexSecret, request: PinnedRequest },
}

/// What a `RefreshPlan` holds.
#[verifier::ext_equal]
pub enum PlanView {
    Settled(RefreshView),
    Ask { secret: SecretView, request: RequestView },
}

impl View for RefreshPlan {
    type V = PlanView;

    open spec fn view(&self) -> PlanView {
        match self {
            RefreshPlan::Settled(refresh) => PlanView::Settled(refresh@),
            RefreshPlan::Ask { secret, request } => PlanView::Ask {
                secret: secret@,
                request: request@,
            },
        }
    }
}

/// What planning came to.
pub open spec fn plan_result(r: Result<RefreshPlan, String>) -> Result<PlanView, Seq<char>> {
    match r {
        Ok(plan) => Ok(plan@),
        Err(message) => Err(message@),
    }
}

/// What a renewal came to.
pub open spec fn refresh_result(r: Result<CodexRefresh, String>) -> Result<RefreshView, Seq<char>> {
    match r {
        Ok(refresh) => Ok(refresh@),
        Err(message) => Err(message@),
    }
}

// ---------------------------------------------------------------------------
// Planning
// ---------------------------------------------------------------------------

/// The request that renews a sign-in.
pub open spec fn refresh_request(refresh_token: Seq<char>) -> RequestView {
    RequestView {
        url: CODEX_TOKEN_URL@,
        headers: seq![("Accept"@, "application/json"@)],
        payload: PayloadView::Form(
            seq![
                ("grant_type"@, "refresh_token"@),
                ("refresh_token"@, refresh_token),
                ("client_id"@, CODEX_CLIENT_ID@),
            ],
        ),
        timeout_secs: 20,
    }
}

/// `secret` with its refresh token marked as dead.
pub open spec fn dead(secret: SecretView) -> SecretView {
    SecretView { refresh_dead: true, ..secret }
}

/// What is to be done about the sign-in `secret`, stored as `stored`, at the time `now`, if its
/// token claims to expire at `claimed`.
pub open spec fn refresh_plan(
    stored: Seq<char>,
    secret: SecretView,
    claimed: Option<u64>,
    now: u64,
) -> Result<PlanView, Seq<char>> {
    if secret.refresh_dead {
        Err("Sign in to ChatGPT again."@)
    } else if !is_due(secret, claimed, now) {
        Ok(PlanView::Settled(RefreshView { secret_json: stored, changed: false }))
    } else if text::trimmed(secret.refresh_token).len() == 0 {
        Ok(
            PlanView::Settled(
                RefreshView { secret_json: secret_text(dead(secret)), changed: true },
            ),
        )
    } else {
        Ok(PlanView::Ask { secret, request: refresh_request(secret.refresh_token) })
    }
}

/// What is to be done about a stored sign-in at the time `now`.
pub open spec fn stored_plan(stored: Seq<char>, now: u64) -> Result<PlanView, Seq<char>> {
    match secret_read(stored) {
        Ok(secret) => refresh_plan(
            stored,
            secret,
            claimed_expiry(token_claims(secret.access_token)),
            now,
        ),
        Err(message) => Err(message),
    }
}

fn make_refresh_request(refresh_token: &str) -> (r: PinnedRequest)
    ensures
        r@ == refresh_request(refresh_token@),
{
    let mut headers = no_pairs();
    push_pair(&mut headers, "Accept", "application/json");
    let mut fields = no_pairs();
    push_pair(&mut fields, "grant_type", "refresh_token");
    push_pair(&mut fields, "refresh_token", refresh_token);
    push_pair(&mut fields, "client_id", CODEX_CLIENT_ID);
    let request = PinnedRequest {
        url: CODEX_TOKEN_URL.to_owned(),
        headers,
        payload: Payload::Form(fields),
        timeout_secs: 20,
    };
    proof {
        assert(request@.headers =~= refresh_request(refresh_token@).headers);
        assert(request@.payload->Form_0 =~= refresh_request(refresh_token@).payload->Form_0);
    }
    request
}

/// What is to be done about the sign-in `secret`, stored as `stored`, at the time `now`, if its
/// token claims to expire at `claimed`.
pub fn plan_refresh(stored: &str, secret: CodexSecret, claimed: Option<u64>, now: u64) -> (r: Result<
    RefreshPlan,
    String,
>)
    ensures
        plan_result(r) == refresh_plan(stored@, secret@, claimed, now),
        r matches Ok(RefreshPlan::Settled(refresh)) ==> (refresh.changed ==> secret_read(
            refresh.secret_json@,
        ) == Ok::<_, Seq<char>>(dead(secret@))),
{
    if secret.refresh_dead {
        return Err("Sign in to ChatGPT again.".to_owned());
    }
    if !secret.due(claimed, now) {
        return Ok(
            RefreshPlan::Settled(CodexRefresh { secret_json: stored.to_owned(), changed: false }),
        );
    }
    if text::trim(secret.refresh_token.as_str()).is_empty() {
        let mut secret = secret;
        secret.refresh_dead = true;
        return Ok(RefreshPlan::Settled(CodexRefresh { secret_json: secret.to_text(), changed: true }));
    }
    let request = make_refresh_request(secret.refresh_token.as_str());
    Ok(RefreshPlan::Ask { secret, request })
}

/// Whether a plan that puts a new text in place of `stored` puts one there that reads back as the
/// sign-in in `stored`, its refresh token marked as dead.
pub open spec fn stores_dead(stored: Seq<char>, plan: Result<RefreshPlan, String>) -> bool {
    plan matches Ok(RefreshPlan::Settled(refresh)) ==> (refresh.changed ==> (secret_read(
        stored,
    ) is Ok && secret_read(refresh.secret_json@) == Ok::<_, Seq<char>>(
        dead(secret_read(stored)->Ok_0),
    )))
}

/// What is to be done about a stored sign-in at the time `now`. A new text that is to be stored
/// reads back as the sign-in with its refresh token marked as dead.
pub fn plan_refresh_at(stored: &str, now: u64) -> (r: Result<RefreshPlan, String>)
    ensures
        plan_result(r) == stored_plan(stored@, now),
        stores_dead(stored@, r),
{
    match CodexSecret::parse(stored) {
        Ok(secret) => {
            let claimed = jwt_expiry(secret.access_token.as_str());
            plan_refresh(stored, secret, claimed, now)
        },
        Err(message) => Err(message),
    }
}

/// What is to be done about a stored sign-in now: it is renewed when it is near its expiry.
pub fn refresh_codex_secret(stored: &str) -> (r: Result<RefreshPlan, String>)
    ensures
        exists|now: u64|
            {
                &&& plan_result(r) == #[trigger] stored_plan(stored@, now)
                &&& stores_dead(stored@, r)
            },
{
    plan_refresh_at(stored, now_secs())
}

// ---------------------------------------------------------------------------
// The reply
// ---------------------------------------------------------------------------

/// The sign-in after the reply to a renewal at the time `now`. A refusal marks the refresh token
/// as dead, so that it is not replayed.
pub open spec fn settled_secret(secret: SecretView, reply: ReplyView, now: u64) -> Result<
    SecretView,
    Seq<char>,
> {
    match reply {
        ReplyView::Unreachable => Err("Could not refresh the ChatGPT sign-in."@),
        ReplyView::Answered { status, body } => if is_redirect(status) {
            Err("ChatGPT auth redirected. Gopher did not follow it."@)
        } else if is_client_error(status) {
            Ok(dead(secret))
        } else if !is_success(status) {
            Err("Could not refresh the ChatGPT sign-in."@)
        } else {
            match body {
                Some(body) => {
                    let access = text::trimmed(or_else(text_at(body, "access_token"@), ""@));
                    let refresh = text::trimmed(or_else(text_at(body, "refresh_token"@), ""@));
                    if access.len() == 0 {
                        Err("ChatGPT auth did not return an access token."@)
                    } else {
                        Ok(
                            SecretView {
                                access_token: access,
                                refresh_token: if refresh.len() == 0 {
                                    secret.refresh_token
                                } else {
                                    refresh
                                },
                                expires_at: later(
                                    now,
                                    match as_unsigned(member(body, "expires_in"@)) {
                                        Some(seconds) => seconds,
                                        None => 3600,
                                    },
                                ),
                                refresh_dead: false,
                            },
                        )
                    }
                },
                None => Err("ChatGPT auth returned an unreadable response."@),
            }
        },
    }
}

/// What a renewal comes to.
pub open spec fn refreshed(secret: SecretView, reply: ReplyView, now: u64) -> Result<
    RefreshView,
    Seq<char>,
> {
    match settled_secret(secret, reply, now) {
        Ok(secret) => Ok(RefreshView { secret_json: secret_text(secret), changed: true }),
        Err(message) => Err(message),
    }
}

/// The sign-in out of the body of a reply.
fn take_tokens(secret: &mut CodexSecret, body: &Json, now: u64) -> (r: Result<(), String>)
    ensures
        match r {
            Ok(_) => settled_secret(
                old(secret)@,
                ReplyView::Answered { status: 200, body: Some(body.view()) },
                now,
            ) == Ok::<_, Seq<char>>(final(secret)@),
            Err(message) => settled_secret(
                old(secret)@,
                ReplyView::Answered { status: 200, body: Some(body.view()) },
                now,
            ) == Err::<SecretView, _>(message@),
        },
{
    let access = text::trim(body.text_or("access_token", ""));
    if access.is_empty() {
        return Err("ChatGPT auth did not return an access token.".to_owned());
    }
    let refresh = text::trim(body.text_or("refresh_token", ""));
    let given = match body.get("expires_in") {
        Some(value) => value.as_u64(),
        None => None,
    };
    let expires_in: u64 = match given {
        Some(seconds) => seconds,
        None => 3600,
    };
    secret.access_token = access.to_owned();
    if !refresh.is_empty() {
        secret.refresh_token = refresh.to_owned();
    }
    secret.expires_at = add_capped(now, expires_in);
    secret.refresh_dead = false;
    Ok(())
}

/// What a renewal comes to, out of the reply to its request at the time `now`. Where it comes to
/// a stored text, reading that text gives the sign-in.
pub fn settle_refresh(secret: CodexSecret, reply: &JsonReply, now: u64) -> (r: Result<
    CodexRefresh,
    String,
>)
    ensures
        refresh_result(r) == refreshed(secret@, reply@, now),
        r is Ok ==> secret_read(r->Ok_0.secret_json@) == settled_secret(secret@, reply@, now),
{
    let mut secret = secret;
    let (status, body) = match reply {
        JsonReply::Unreachable => {
            return Err("Could not refresh the ChatGPT sign-in.".to_owned());
        },
        JsonReply::Answered { status, body } => (*status, body),
    };
    if redirect(status) {
        return Err("ChatGPT auth redirected. Gopher did not follow it.".to_owned());
    }
    if client_error(status) {
        secret.refresh_dead = true;
        return Ok(CodexRefresh { secret_json: secret.to_text(), changed: true });
    }
    if !success(status) {
        return Err("Could not refresh the ChatGPT sign-in.".to_owned());
    }
    let body = match body {
        Some(body) => body,
        None => {
            return Err("ChatGPT auth returned an unreadable response.".to_owned());
        },
    };
    match take_tokens(&mut secret, body, now) {
        Ok(()) => Ok(CodexRefresh { secret_json: secret.to_text(), changed: true }),
        Err(message) => Err(message),
    }
}

/// What a renewal comes to, out of the reply to its request.
pub fn finish_refresh(secret: CodexSecret, reply: &HttpReply) -> (r: Result<CodexRefresh, String>)
    ensures
        exists|now: u64|
            {
                &&& refresh_result(r) == #[trigger] refreshed(secret@, reply@, now)
                &&& r is Ok ==> secret_read(r->Ok_0.secret_json@) == settled_secret(
                    secret@,
                    reply@,
                    now,
                )
            },
{
    settle_refresh(secret, &reply.read(), now_secs())
}

// ---------------------------------------------------------------------------
// The Codex CLI
// ---------------------------------------------------------------------------

/// The tokens in the credentials of the Codex CLI, both trimmed; nothing where one is missing.
pub open spec fn cli_tokens(body: JsonView) -> Option<(Seq<char>, Seq<char>)> {
    let tokens = match member(body, "tokens"@) {
        Some(tokens) => tokens,
        None => body,
    };
    let access = text::trimmed(or_else(text_at(tokens, "access_token"@), ""@));
    let refresh = text::trimmed(or_else(text_at(tokens, "refresh_token"@), ""@));
    if access.len() == 0 || refresh.len() == 0 {
        None
    } else {
        Some((access, refresh))
    }
}

/// The tokens in the credentials of the Codex CLI.
pub fn read_cli_tokens(body: &Json) -> (r: Option<(String, String)>)
    ensures
        r.deep_view() == cli_tokens(body.view()),
{
    let tokens = match body.get("tokens") {
        Some(tokens) => tokens,
        None => body,
    };
    let access = text::trim(tokens.text_or("access_token", ""));
    let refresh = text::trim(tokens.text_or("refresh_token", ""));
    if access.is_empty() || refresh.is_empty() {
        None
    } else {
        Some((access.to_owned(), refresh.to_owned()))
    }
}

/// The text of the sign-in that the Codex CLI made, out of the text of its `auth.json` where it
/// could be read.
pub fn import_codex_cli_secret(file: Option<&str>) -> (r: Result<String, String>)
    ensures
        match file {
            None => r matches Err(message) && message@
                == "No Codex CLI credentials were found in the Codex home folder."@,
            Some(source) => match json_parse(source@) {
                None => r matches Err(message) && message@
                    == "Codex CLI credentials could not be read."@,
                Some(body) => match cli_tokens(body) {
                    None => r matches Err(message) && message@
                        == "Codex CLI credentials did not include a ChatGPT session."@,
                    Some((access, refresh)) => r matches Ok(stored) && stores_tokens(
                        stored@,
                        access,
                        refresh,
                        None,
                    ),
                },
            },
        },
{
    let source = match file {
        Some(source) => source,
        None => {
            return Err("No Codex CLI credentials were found in the Codex home folder.".to_owned());
        },
    };
    let body = match Json::parse(source) {
        Some(body) => body,
        None => {
            return Err("Codex CLI credentials could not be read.".to_owned());
        },
    };
    match read_cli_tokens(&body) {
        Some((access, refresh)) => Ok(
            codex_secret_from_tokens(access.as_str(), refresh.as_str(), None),
        ),
        None => Err("Codex CLI credentials did not include a ChatGPT session.".to_owned()),
    }
}

// ---------------------------------------------------------------------------
// Laws
// ---------------------------------------------------------------------------

/// A refresh token that was refused is not replayed: what is stored after the refusal calls for
/// a new sign-in and never for a request, whatever the time.
pub proof fn law_refused_token_is_not_replayed(
    secret: SecretView,
    status: u16,
    body: Option<JsonView>,
    answered: u64,
    stored: Seq<char>,
    now: u64,
)
    requires
        is_client_error(status),
        secret_read(stored) == settled_secret(
            secret,
            ReplyView::Answered { status, body },
            answered,
        ),
    ensures
        stored_plan(stored, now) == Err::<PlanView, _>("Sign in to ChatGPT again."@),
{
}

/// Nor is a request made for a sign-in without a refresh token: it is stored as dead, and what is
/// stored calls for a new sign-in.
pub proof fn law_missing_token_is_not_replayed(
    secret: SecretView,
    claimed: Option<u64>,
    checked: u64,
    first: Seq<char>,
    stored: Seq<char>,
    now: u64,
)
    requires
        text::trimmed(secret.refresh_token).len() == 0,
        is_due(secret, claimed, checked),
        !secret.refresh_dead,
        secret_read(stored) == Ok::<_, Seq<char>>(dead(secret)),
    ensures
        refresh_plan(first, secret, claimed, checked) == Ok::<_, Seq<char>>(
            PlanView::Settled(RefreshView { secret_json: secret_text(dead(secret)), changed: true }),
        ),
        stored_plan(stored, now) == Err::<PlanView, _>("Sign in to ChatGPT again."@),
{
}

/// A sign-in that is not due stays as it is stored, letter for letter.
pub proof fn law_fresh_secret_is_untouched(
    stored: Seq<char>,
    secret: SecretView,
    claimed: Option<u64>,
    now: u64,
)
    requires
        !secret.refresh_dead,
        !is_due(secret, claimed, now),
    ensures
        refresh_plan(stored, secret, claimed, now) == Ok::<_, Seq<char>>(
            PlanView::Settled(RefreshView { secret_json: stored, changed: false }),
        ),
{
}

/// A renewed sign-in is not due at once, if it lasts longer than the skew and the time is one
/// that a `u64` can still add to.
pub proof fn law_renewed_secret_is_fresh(
    secret: SecretView,
    status: u16,
    body: JsonView,
    seconds: u64,
    claimed: Option<u64>,
    now: u64,
)
    requires
        is_success(status),
        as_unsigned(member(body, "expires_in"@)) == Some(seconds),
        seconds > REFRESH_SKEW_SECS,
        now + seconds <= u64::MAX,
        settled_secret(secret, ReplyView::Answered { status, body: Some(body) }, now) is Ok,
    ensures
        !is_due(
            settled_secret(secret, ReplyView::Answered { status, body: Some(body) }, now)->Ok_0,
            claimed,
            now,
        ),
{
    text::lemma_trimmed_twice(or_else(text_at(body, "access_token"@), ""@));
}

/// Renewal never loses the refresh token: where the service sends none, the old one is kept.
pub proof fn law_refresh_token_is_kept(
    secret: SecretView,
    status: u16,
    body: JsonView,
    now: u64,
)
    requires
        is_success(status),
        text::trimmed(or_else(text_at(body, "access_token"@), ""@)).len() > 0,
        text::trimmed(or_else(text_at(body, "refresh_token"@), ""@)).len() == 0,
    ensures
        settled_secret(secret, ReplyView::Answered { status, body: Some(body) }, now) is Ok,
        (settled_secret(secret, ReplyView::Answered { status, body: Some(body) }, now)->Ok_0).refresh_token
            == secret.refresh_token,
{
}

} // verus!
