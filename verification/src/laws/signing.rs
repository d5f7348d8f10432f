//! Laws of signing in, of the stored sign-in and of its renewal.

use vstd::prelude::*;
use vstd::utf8::encode_utf8;
use crate::digest::base64url_bytes;
use crate::http::{PayloadView, ReplyView, RequestView};
use crate::json::{as_unsigned, json_parse, json_parse_bytes, member, text_at, JsonView};
use crate::laws::conversion::has_only;
use crate::laws::wording::{is_free_of, law_pieces_between};
use crate::login::{authorize_pairs, device_code, device_request, exchange_request, exchanged, page_action, poll_outcome, poll_request, redirect_text, PageEvent, ActionView, CALLBACK_ERR, CALLBACK_NOT_FOUND, CALLBACK_OK};
use crate::callback::{callback, is_callback, lossy};
use crate::members::{leads, object_members, past_space};
use crate::refresh::{cli_tokens, refresh_plan, refresh_request, refreshed, settled_secret, stored_plan, PlanView, RefreshView};
use crate::secret::{account_claims, claim_headers, claimed_expiry, claims_part, fields_of, is_due, named_items, new_secret, secret_members, secret_read, secret_text, stores_tokens, token_claims, GivenView, SecretView};
use crate::text::{decimal, trimmed};

verus! {

// ---------------------------------------------------------------------------
// The stored sign-in
// ---------------------------------------------------------------------------

proof fn lemma_names()
    ensures
        "access_token"@.len() == 12,
        "refresh_token"@.len() == 13,
        "expires_at"@.len() == 10,
        "refresh_dead"@.len() == 12,
        "access_token"@ != "refresh_dead"@,
        ""@ == Seq::<char>::empty(),
{
    reveal_strlit("access_token");
    reveal_strlit("refresh_token");
    reveal_strlit("expires_at");
    reveal_strlit("refresh_dead");
    reveal_strlit("");
    assert("access_token"@[0] == 'a' && "refresh_dead"@[0] == 'r');
    assert(""@ =~= Seq::<char>::empty());
}

/// A member gives one field: a text to either token, a whole number from zero up to the expiry, a
/// truth value to the mark, as it stands. A field given twice, or given anything else, spoils the
/// sign-in. Any other member counts for nothing, whatever it holds.
pub proof fn law_members_give_fields(
    members: Seq<(Seq<char>, Option<JsonView>)>,
    key: Seq<char>,
    value: Option<JsonView>,
)
    ensures
        fields_of(Seq::<(Seq<char>, Option<JsonView>)>::empty()) matches Some(none)
            && none.access_token is None && none.refresh_token is None && none.expires_at is None
            && none.refresh_dead is None,
        ({
            let before = fields_of(members);
            let after = fields_of(members.push((key, value)));
            &&& before is None ==> after is None
            &&& before matches Some(f) ==> {
                if key == "access_token"@ {
                    match value {
                        Some(JsonView::Text(t)) => if f.access_token is None {
                            after == Some(GivenView { access_token: Some(t), ..f })
                        } else {
                            after is None
                        },
                        _ => after is None,
                    }
                } else if key == "refresh_token"@ {
                    match value {
                        Some(JsonView::Text(t)) => if f.refresh_token is None {
                            after == Some(GivenView { refresh_token: Some(t), ..f })
                        } else {
                            after is None
                        },
                        _ => after is None,
                    }
                } else if key == "expires_at"@ {
                    match as_unsigned(value) {
                        Some(n) => if f.expires_at is None {
                            after == Some(GivenView { expires_at: Some(n), ..f })
                        } else {
                            after is None
                        },
                        None => after is None,
                    }
                } else if key == "refresh_dead"@ {
                    match value {
                        Some(JsonView::Bool(b)) => if f.refresh_dead is None {
                            after == Some(GivenView { refresh_dead: Some(b), ..f })
                        } else {
                            after is None
                        },
                        _ => after is None,
                    }
                } else {
                    after == Some(f)
                }
            }
        }),
{
    lemma_names();
    assert(members.push((key, value)).drop_last() =~= members);
}

/// The four fields of an array go by position.
pub proof fn law_items_give_fields(items: Seq<JsonView>, i: int)
    requires
        0 <= i < items.len() <= 4,
    ensures
        named_items(items).len() == items.len(),
        named_items(items)[i].1 == Some(items[i]),
        i == 0 ==> named_items(items)[i].0 == "access_token"@,
        i == 1 ==> named_items(items)[i].0 == "refresh_token"@,
        i == 2 ==> named_items(items)[i].0 == "expires_at"@,
        i == 3 ==> named_items(items)[i].0 == "refresh_dead"@,
{
}

/// A stored text is a sign-in exactly if it spells an object or an array of up to four items that
/// gives both tokens; what it does not give of the rest is zero and not dead. A blank text asks for
/// a first sign-in, any other for a new one.
pub proof fn law_stored_text_is_read(raw: Seq<char>)
    ensures
        ({
            let source = trimmed(raw);
            let bytes = encode_utf8(source);
            let given = if leads(past_space(bytes), 123) {
                match object_members(bytes) {
                    Some(members) => fields_of(members),
                    None => None,
                }
            } else {
                match json_parse(source) {
                    Some(JsonView::Array(items)) => if items.len() <= 4 {
                        fields_of(named_items(items))
                    } else {
                        None
                    },
                    _ => None,
                }
            };
            if source.len() == 0 {
                secret_read(raw) == Err::<SecretView, _>("Sign in to ChatGPT to use Codex models."@)
            } else {
                match given {
                    Some(f) => if f.access_token is Some && f.refresh_token is Some {
                        &&& secret_read(raw) is Ok
                        &&& secret_read(raw)->Ok_0.access_token == f.access_token->0
                        &&& secret_read(raw)->Ok_0.refresh_token == f.refresh_token->0
                        &&& f.expires_at is Some ==> secret_read(raw)->Ok_0.expires_at
                            == f.expires_at->0
                        &&& f.expires_at is None ==> secret_read(raw)->Ok_0.expires_at == 0
                        &&& secret_read(raw)->Ok_0.refresh_dead == (f.refresh_dead == Some(true))
                    } else {
                        secret_read(raw) == Err::<SecretView, _>("Sign in to ChatGPT again."@)
                    },
                    None => secret_read(raw) == Err::<SecretView, _>("Sign in to ChatGPT again."@),
                }
            }
        }),
{
}

/// A sign-in is written with its four fields, under their names and in this order, as they stand.
pub proof fn law_sign_in_is_written_whole(secret: SecretView)
    ensures
        ({
            let members = secret_members(secret);
            &&& members.len() == 4
            &&& members[0].0 == "access_token"@ && members[0].1 == JsonView::Text(secret.access_token)
            &&& members[1].0 == "refresh_token"@ && members[1].1 == JsonView::Text(
                secret.refresh_token,
            )
            &&& members[2].0 == "expires_at"@ && as_unsigned(Some(members[2].1)) == Some(
                secret.expires_at,
            )
            &&& members[3].0 == "refresh_dead"@ && members[3].1 == JsonView::Bool(secret.refresh_dead)
        }),
{
}

/// A sign-in is made of the tokens as they came, trimmed, with a refresh token that is not dead.
/// It expires the given seconds after it came, as far as a `u64` can count, or else when its token
/// claims to, or else at zero.
pub proof fn law_sign_in_is_made_of_its_tokens(
    access: Seq<char>,
    refresh: Seq<char>,
    expires_in: Option<u64>,
    claimed: Option<u64>,
    now: u64,
)
    ensures
        ({
            let secret = new_secret(access, refresh, expires_in, claimed, now);
            &&& secret.access_token == trimmed(access)
            &&& secret.refresh_token == trimmed(refresh)
            &&& !secret.refresh_dead
            &&& expires_in matches Some(n) ==> {
                &&& now + n <= u64::MAX ==> secret.expires_at == now + n
                &&& now + n > u64::MAX ==> secret.expires_at == u64::MAX
            }
            &&& expires_in is None ==> (claimed matches Some(at) ==> secret.expires_at == at)
            &&& expires_in is None && claimed is None ==> secret.expires_at == 0
        }),
{
}

/// A sign-in with an access token is due from 120 seconds before it expires on, and never if it is
/// not known to expire; one without an access token is due at once. The stored expiry counts
/// before the one that the token claims.
pub proof fn law_sign_in_is_due_before_it_expires(secret: SecretView, claimed: Option<u64>, now: u64)
    ensures
        trimmed(secret.access_token).len() == 0 ==> is_due(secret, claimed, now),
        trimmed(secret.access_token).len() > 0 ==> {
            let at: int = if secret.expires_at != 0 {
                secret.expires_at as int
            } else if claimed is Some {
                claimed->0 as int
            } else {
                0
            };
            is_due(secret, claimed, now) <==> at != 0 && (now + 120 >= at || now + 120 > u64::MAX)
        },
{
}

// ---------------------------------------------------------------------------
// The access token
// ---------------------------------------------------------------------------

/// The claims of a token stand between its first two dots, or behind the first if there is only
/// one; a token without a dot makes none.
pub proof fn law_claims_stand_between_dots(head: Seq<char>, part: Seq<char>, rest: Seq<char>)
    requires
        is_free_of(head, '.'),
        is_free_of(part, '.'),
    ensures
        claims_part(head + seq!['.'] + (part + seq!['.'] + rest)) == Some(part),
        claims_part(head + seq!['.'] + part) == Some(part),
        claims_part(head) is None,
        token_claims(head) is None,
{
    law_pieces_between(head, '.', part + seq!['.'] + rest);
    law_pieces_between(part, '.', rest);
    law_pieces_between(head, '.', part);
}

/// The claims of the sign-in service itself count before the others for the account; the expiry is
/// a claim of the token.
pub proof fn law_own_claims_count_first(claims: JsonView)
    ensures
        member(claims, "https://api.openai.com/auth"@) matches Some(own) ==> account_claims(claims)
            == own,
        member(claims, "https://api.openai.com/auth"@) is None ==> account_claims(claims) == claims,
        claimed_expiry(Some(claims)) == as_unsigned(member(claims, "exp"@)),
        claimed_expiry(None) is None,
{
}

/// A request names the account of the token, trimmed, if the token claims one; and where its data
/// is to stay, trimmed, if the token claims that: by the residency of the data, or, only where
/// that is no text, of the computation. Blank claims count for nothing, and nothing else is sent.
pub proof fn law_account_headers(claims: JsonView)
    requires
        member(claims, "https://api.openai.com/auth"@) is None,
    ensures
        claim_headers(None).len() == 0,
        ({
            let headers = claim_headers(Some(claims));
            let account = text_at(claims, "chatgpt_account_id"@);
            let place = if text_at(claims, "chatgpt_data_residency"@) is Some {
                text_at(claims, "chatgpt_data_residency"@)
            } else {
                text_at(claims, "chatgpt_compute_residency"@)
            };
            let has_account = account is Some && trimmed(account->0).len() > 0;
            let has_place = place is Some && trimmed(place->0).len() > 0;
            &&& headers.len() == (if has_account {
                1int
            } else {
                0
            }) + (if has_place {
                1int
            } else {
                0
            })
            &&& has_account ==> headers[0] == ("ChatGPT-Account-ID"@, trimmed(account->0))
            &&& has_place ==> headers.last() == (
                "x-openai-internal-codex-residency"@,
                trimmed(place->0),
            )
        }),
{
}

/// Claims under the name of the sign-in service count as if they were all.
pub proof fn law_nested_claims_count_alike(claims: JsonView, own: JsonView)
    requires
        member(claims, "https://api.openai.com/auth"@) == Some(own),
        member(own, "https://api.openai.com/auth"@) is None,
    ensures
        claim_headers(Some(claims)) == claim_headers(Some(own)),
{
}

/// The claims of a token are the JSON in the base64 text of their part; a part that is neither
/// makes none.
pub proof fn law_claims_are_decoded(token: Seq<char>, part: Seq<char>)
    requires
        claims_part(token) == Some(part),
    ensures
        base64url_bytes(part) matches Some(bytes) ==> token_claims(token) == json_parse_bytes(bytes),
        base64url_bytes(part) is None ==> token_claims(token) is None,
{
}

/// What is stored of new tokens reads back as they came, trimmed and not dead; without a lifetime
/// it expires when the access token, as it came, claims to, or at zero.
pub proof fn law_new_tokens_are_stored(
    stored: Seq<char>,
    access: Seq<char>,
    refresh: Seq<char>,
    expires_in: Option<u64>,
)
    requires
        stores_tokens(stored, access, refresh, expires_in),
    ensures
        secret_read(stored) is Ok,
        secret_read(stored)->Ok_0.access_token == trimmed(access),
        secret_read(stored)->Ok_0.refresh_token == trimmed(refresh),
        !secret_read(stored)->Ok_0.refresh_dead,
        stored == secret_text(secret_read(stored)->Ok_0),
        expires_in is None ==> secret_read(stored)->Ok_0.expires_at == (match claimed_expiry(
            token_claims(access),
        ) {
            Some(at) => at,
            None => 0,
        }),
{
}

// ---------------------------------------------------------------------------
// Renewal
// ---------------------------------------------------------------------------

/// A dead sign-in asks for a new one. One that is not due is left as it is stored. One that is due
/// and has a refresh token is renewed with that token, as it is; one that has none is stored as
/// dead, otherwise unchanged.
pub proof fn law_renewal_is_planned(
    stored: Seq<char>,
    secret: SecretView,
    claimed: Option<u64>,
    now: u64,
)
    ensures
        ({
            let plan = refresh_plan(stored, secret, claimed, now);
            if secret.refresh_dead {
                plan == Err::<PlanView, _>("Sign in to ChatGPT again."@)
            } else if !is_due(secret, claimed, now) {
                plan == Ok::<_, Seq<char>>(
                    PlanView::Settled(RefreshView { secret_json: stored, changed: false }),
                )
            } else if trimmed(secret.refresh_token).len() == 0 {
                plan == Ok::<_, Seq<char>>(
                    PlanView::Settled(
                        RefreshView {
                            secret_json: secret_text(
                                SecretView {
                                    access_token: secret.access_token,
                                    refresh_token: secret.refresh_token,
                                    expires_at: secret.expires_at,
                                    refresh_dead: true,
                                },
                            ),
                            changed: true,
                        },
                    ),
                )
            } else {
                &&& plan matches Ok(PlanView::Ask { secret: kept, request }) && kept == secret
                    && request == refresh_request(secret.refresh_token)
            }
        }),
        secret_read(stored) matches Ok(read) ==> stored_plan(stored, now) == refresh_plan(
            stored,
            read,
            claimed_expiry(token_claims(read.access_token)),
            now,
        ),
        secret_read(stored) matches Err(told) ==> stored_plan(stored, now) == Err::<PlanView, _>(told),
{
}

/// The reply to a renewal: an answer of success brings a new access token, trimmed, which is not
/// blank, a new refresh token, trimmed, or else the old one, and an expiry as many seconds on as it
/// says, or 3600; a refusal marks the refresh token as dead and changes nothing else; anything else
/// is an error, and which one follows from the answer.
pub proof fn law_renewal_is_settled(secret: SecretView, status: u16, body: Option<JsonView>, now: u64)
    ensures
        settled_secret(secret, ReplyView::Unreachable, now) == Err::<SecretView, _>(
            "Could not refresh the ChatGPT sign-in."@,
        ),
        ({
            let settled = settled_secret(secret, ReplyView::Answered { status, body }, now);
            let access = text_at(body->0, "access_token"@);
            let refresh = text_at(body->0, "refresh_token"@);
            let seconds = as_unsigned(member(body->0, "expires_in"@));
            if 300 <= status <= 399 {
                settled == Err::<SecretView, _>("ChatGPT auth redirected. Gopher did not follow it."@)
            } else if 400 <= status <= 499 {
                settled == Ok::<_, Seq<char>>(
                    SecretView {
                        access_token: secret.access_token,
                        refresh_token: secret.refresh_token,
                        expires_at: secret.expires_at,
                        refresh_dead: true,
                    },
                )
            } else if !(200 <= status <= 299) {
                settled == Err::<SecretView, _>("Could not refresh the ChatGPT sign-in."@)
            } else if body is None {
                settled == Err::<SecretView, _>("ChatGPT auth returned an unreadable response."@)
            } else if access is None || trimmed(access->0).len() == 0 {
                settled == Err::<SecretView, _>("ChatGPT auth did not return an access token."@)
            } else {
                &&& settled is Ok
                &&& settled->Ok_0.access_token == trimmed(access->0)
                &&& refresh is Some && trimmed(refresh->0).len() > 0 ==> settled->Ok_0.refresh_token
                    == trimmed(refresh->0)
                &&& refresh is None || trimmed(refresh->0).len() == 0 ==> settled->Ok_0.refresh_token
                    == secret.refresh_token
                &&& !settled->Ok_0.refresh_dead
                &&& ({
                    let n: int = if seconds is Some {
                        seconds->0 as int
                    } else {
                        3600
                    };
                    settled->Ok_0.expires_at == (if now + n > u64::MAX {
                        u64::MAX as int
                    } else {
                        now + n
                    })
                })
            }
        }),
{
    lemma_names();
    assert(trimmed(""@) =~= ""@);
}

/// What a renewal leaves is stored as a new text, or it is an error.
pub proof fn law_renewal_is_stored(secret: SecretView, reply: ReplyView, now: u64)
    ensures
        match settled_secret(secret, reply, now) {
            Ok(settled) => refreshed(secret, reply, now) == Ok::<_, Seq<char>>(
                RefreshView { secret_json: secret_text(settled), changed: true },
            ),
            Err(told) => refreshed(secret, reply, now) == Err::<RefreshView, _>(told),
        },
{
}

/// The Codex CLI keeps its tokens under `tokens`, or at the top where it has no such member; both
/// are taken, trimmed, and only together.
pub proof fn law_cli_tokens_are_taken(body: JsonView)
    ensures
        ({
            let place = if member(body, "tokens"@) is Some {
                member(body, "tokens"@)->0
            } else {
                body
            };
            let access = text_at(place, "access_token"@);
            let refresh = text_at(place, "refresh_token"@);
            if access is Some && refresh is Some && trimmed(access->0).len() > 0 && trimmed(
                refresh->0,
            ).len() > 0 {
                cli_tokens(body) == Some((trimmed(access->0), trimmed(refresh->0)))
            } else {
                cli_tokens(body) is None
            }
        }),
{
    lemma_names();
    assert(trimmed(""@) =~= ""@);
}

// ---------------------------------------------------------------------------
// Requests
// ---------------------------------------------------------------------------

/// Whether a request posts a form with exactly these fields to the address where tokens are handed
/// out, asks for JSON, and waits 20 seconds at most.
pub open spec fn posts_for_tokens(request: RequestView, fields: Seq<(Seq<char>, Seq<char>)>) -> bool {
    &&& request.url == "https://auth.openai.com/oauth/token"@
    &&& request.headers == seq![("Accept"@, "application/json"@)]
    &&& request.payload == PayloadView::Form(fields)
    &&& request.timeout_secs == 20
}

/// A renewal sends the refresh token; a trade sends the code, the verifier and the address that
/// the browser came back to; both say what they are and who asks, and nothing else.
pub proof fn law_token_requests(token: Seq<char>, code: Seq<char>, verifier: Seq<char>, uri: Seq<char>)
    ensures
        posts_for_tokens(
            refresh_request(token),
            seq![
                ("grant_type"@, "refresh_token"@),
                ("refresh_token"@, token),
                ("client_id"@, "app_EMoamEEZ73f0CkXaXp7hrann"@),
            ],
        ),
        posts_for_tokens(
            exchange_request(code, verifier, uri),
            seq![
                ("grant_type"@, "authorization_code"@),
                ("code"@, code),
                ("redirect_uri"@, uri),
                ("client_id"@, "app_EMoamEEZ73f0CkXaXp7hrann"@),
                ("code_verifier"@, verifier),
            ],
        ),
{
}

/// The address that the user allows a sign-in at carries the challenge and the state as they are,
/// and what the Codex client is registered with.
pub proof fn law_authorization_asks(uri: Seq<char>, challenge: Seq<char>, state: Seq<char>)
    ensures
        ({
            let pairs = authorize_pairs(uri, challenge, state);
            &&& pairs.len() == 8
            &&& pairs[0] == ("response_type"@, "code"@)
            &&& pairs[1] == ("client_id"@, "app_EMoamEEZ73f0CkXaXp7hrann"@)
            &&& pairs[2] == ("redirect_uri"@, uri)
            &&& pairs[3] == ("scope"@, "openid profile email offline_access"@)
            &&& pairs[4] == ("code_challenge"@, challenge)
            &&& pairs[5] == ("code_challenge_method"@, "S256"@)
            &&& pairs[6] == ("id_token_add_organizations"@, "true"@)
            &&& pairs[7] == ("state"@, state)
        }),
{
}

/// The address that the browser comes back to is the one that the Codex client is registered with.
pub proof fn law_browser_comes_back_here()
    ensures
        redirect_text() == "http://localhost:1455/auth/callback"@,
{
    reveal_strlit("http://localhost:");
    reveal_strlit("/auth/callback");
    reveal_strlit("http://localhost:1455/auth/callback");
    reveal_with_fuel(decimal, 5);
    assert(decimal(1455) =~= seq!['1', '4', '5', '5']);
    assert(redirect_text() =~= "http://localhost:1455/auth/callback"@);
}

/// A device code is asked for in the name of the client; a poll names the code and the device, as
/// they are. Both post JSON with nothing else in it and wait 20 seconds at most.
pub proof fn law_device_requests(user_code: Seq<char>, device: Seq<char>)
    ensures
        ({
            let ask = device_request();
            let poll = poll_request(user_code, device);
            &&& ask.url == "https://auth.openai.com/api/accounts/deviceauth/usercode"@
            &&& ask.headers.len() == 0 && ask.timeout_secs == 20
            &&& ask.payload matches PayloadView::Json(body) && text_at(body, "client_id"@) == Some(
                "app_EMoamEEZ73f0CkXaXp7hrann"@,
            ) && has_only(body, set!["client_id"@])
            &&& poll.url == "https://auth.openai.com/api/accounts/deviceauth/token"@
            &&& poll.headers.len() == 0 && poll.timeout_secs == 20
            &&& poll.payload matches PayloadView::Json(body) && text_at(body, "user_code"@) == Some(
                user_code,
            ) && text_at(body, "device_auth_id"@) == Some(device) && has_only(
                body,
                set!["user_code"@, "device_auth_id"@],
            )
        }),
{
    reveal_strlit("user_code");
    reveal_strlit("device_auth_id");
    assert("user_code"@.len() == 9 && "device_auth_id"@.len() == 14);
}

// ---------------------------------------------------------------------------
// Replies
// ---------------------------------------------------------------------------

/// The reply to a trade brings both tokens, as they are and neither of them empty, and the
/// lifetime if it gives one; or an error, and which one follows from the answer.
pub proof fn law_trade_is_settled(status: u16, body: Option<JsonView>)
    ensures
        exchanged(ReplyView::Unreachable) is Err,
        exchanged(ReplyView::Unreachable)->Err_0 == "Could not finish the ChatGPT sign-in."@,
        ({
            let outcome = exchanged(ReplyView::Answered { status, body });
            let access = text_at(body->0, "access_token"@);
            let refresh = text_at(body->0, "refresh_token"@);
            if 300 <= status <= 399 {
                outcome is Err && outcome->Err_0
                    == "ChatGPT auth redirected. Gopher did not follow it."@
            } else if !(200 <= status <= 299) {
                outcome is Err && outcome->Err_0 == "ChatGPT rejected the sign-in."@
            } else if body is None {
                outcome is Err && outcome->Err_0 == "ChatGPT auth returned an unreadable response."@
            } else if access is None || refresh is None || (access->0).len() == 0 || (
            refresh->0).len() == 0 {
                outcome is Err && outcome->Err_0 == "ChatGPT did not return a session."@
            } else {
                &&& outcome is Ok
                &&& (outcome->Ok_0).0 == access->0
                &&& (outcome->Ok_0).1 == refresh->0
                &&& (outcome->Ok_0).2 == as_unsigned(member(body->0, "expires_in"@))
            }
        }),
{
    lemma_names();
}

/// The reply with a device code brings the code and the id of the device, trimmed and neither of
/// them blank, where to enter the code, and how long to wait between two polls: as the service says
/// but 3 seconds at least, or 5 where it does not say; or an error, and which one follows from the
/// answer.
pub proof fn law_device_code_is_read(status: u16, body: Option<JsonView>)
    ensures
        device_code(ReplyView::Unreachable) is Err,
        device_code(ReplyView::Unreachable)->Err_0 == "Could not start device-code sign-in."@,
        ({
            let outcome = device_code(ReplyView::Answered { status, body });
            let code = text_at(body->0, "user_code"@);
            let device = text_at(body->0, "device_auth_id"@);
            let asked = as_unsigned(member(body->0, "interval"@));
            if !(200 <= status <= 299) {
                outcome is Err && outcome->Err_0 == "ChatGPT did not start a device-code sign-in."@
            } else if body is None {
                outcome is Err && outcome->Err_0 == "ChatGPT returned an unreadable device code."@
            } else if code is None || device is None || trimmed(code->0).len() == 0 || trimmed(
                device->0,
            ).len() == 0 {
                outcome is Err && outcome->Err_0 == "ChatGPT returned an incomplete device code."@
            } else {
                &&& outcome is Ok
                &&& outcome->Ok_0.user_code == trimmed(code->0)
                &&& outcome->Ok_0.device_auth_id == trimmed(device->0)
                &&& outcome->Ok_0.verification_url == "https://auth.openai.com/codex/device"@
                &&& asked is None ==> outcome->Ok_0.interval_secs == 5
                &&& asked matches Some(n) ==> outcome->Ok_0.interval_secs == (if n > 3 {
                    n
                } else {
                    3
                })
            }
        }),
{
    lemma_names();
    assert(trimmed(""@) =~= ""@);
}

/// A poll goes on while the service answers 403 or 404, or leaves the code or the verifier out or
/// empty; it ends with the request that trades the code, with that verifier and the address for
/// devices; or with an error, and which one follows from the answer.
pub proof fn law_poll_is_settled(status: u16, body: Option<JsonView>)
    ensures
        poll_outcome(ReplyView::Unreachable) is Err,
        poll_outcome(ReplyView::Unreachable)->Err_0 == "Could not check the device-code sign-in."@,
        ({
            let outcome = poll_outcome(ReplyView::Answered { status, body });
            let code = text_at(body->0, "authorization_code"@);
            let verifier = text_at(body->0, "code_verifier"@);
            if status == 403 || status == 404 {
                outcome == Ok::<_, Seq<char>>(None::<RequestView>)
            } else if !(200 <= status <= 299) {
                outcome is Err && outcome->Err_0 == "ChatGPT device-code sign-in failed."@
            } else if body is None {
                outcome is Err && outcome->Err_0
                    == "ChatGPT returned an unreadable device-code response."@
            } else if code is None || verifier is None || (code->0).len() == 0 || (
            verifier->0).len() == 0 {
                outcome == Ok::<_, Seq<char>>(None::<RequestView>)
            } else {
                outcome == Ok::<_, Seq<char>>(
                    Some(
                        exchange_request(
                            code->0,
                            verifier->0,
                            "https://auth.openai.com/deviceauth/callback"@,
                        ),
                    ),
                )
            }
        }),
{
    lemma_names();
}

/// What the page does: it waits while nobody comes, until the time is up; it looks again after a
/// broken connection or a stranger; it turns away requests for anything else and goes on; and a
/// request for it ends the wait, with the code or with what to tell the user.
pub proof fn law_page_acts(event: PageEvent, expected: Seq<char>)
    ensures
        ({
            let action = page_action(event, expected);
            match event {
                PageEvent::Idle { expired } => if expired {
                    action == (ActionView::Fail {
                        last: None,
                        message: "ChatGPT sign-in timed out before the browser returned."@,
                    })
                } else {
                    action == (ActionView::Wait { millis: 200 })
                },
                PageEvent::Broken => action is Again,
                PageEvent::Stranger => action is Again,
                PageEvent::Request(data) => {
                    let request = lossy(data@);
                    if !is_callback(request) {
                        action == (ActionView::Answer { page: CALLBACK_NOT_FOUND@ })
                    } else {
                        match callback(request, expected) {
                            Ok(code) => action == (ActionView::Done { page: CALLBACK_OK@, code }),
                            Err(message) => action == (ActionView::Fail {
                                last: Some(CALLBACK_ERR@),
                                message,
                            }),
                        }
                    }
                },
            }
        }),
{
}

} // verus!
