//! Signing in to ChatGPT: in the browser, with a page on this machine that it comes back to, or
//! with a code entered on another device.

use vstd::prelude::*;
use vstd::string::StringExecFns;
use crate::callback::{callback, callback_code, is_callback, is_callback_request, is_readable, lossy, lossy_text, readable, CODEX_CALLBACK_PATH};
use crate::digest::{base64url, challenge_of, challenge_text, random_token};
use crate::http::{is_redirect, is_success, no_pairs, push_pair, redirect, success, HttpReply, JsonReply, Payload, PayloadView, PinnedRequest, ReplyView, RequestView};
use crate::json::{as_unsigned, member, object_view, or_else, put, text_at, Json, JsonView};
use crate::pinned::{add_query, is_pinned, takes_query, url_with_query};
use crate::refresh::{refresh_request, settled_secret};
use crate::secret::{claimed_expiry, new_secret, now_secs, secret_from_tokens_at, secret_read, secret_text, stores_tokens, token_claims, SecretView, CODEX_CLIENT_ID, CODEX_TOKEN_URL};
use crate::subscription::{catalog_request, catalog_url, probe_outcome};
use crate::text;
use crate::text::trimmed;

verus! {

/// Where the user allows the sign-in.
pub const CODEX_AUTHORIZE_URL: &'static str = "https://auth.openai.com/oauth/authorize";

/// Where the user enters a device code.
pub const CODEX_DEVICE_URL: &'static str = "https://auth.openai.com/codex/device";

/// What a sign-in asks for.
pub const CODEX_SCOPE: &'static str = "openid profile email offline_access";

/// The port of the page that the browser comes back to. OpenAI's public Codex client only accepts
/// `http://localhost:1455/auth/callback`.
pub const CODEX_CALLBACK_PORT: u16 = 1455;

/// How long the browser may take.
pub const CODEX_CALLBACK_TIMEOUT_SECS: u64 = 300;

/// How long to wait before looking for the browser again.
pub const CALLBACK_POLL_MILLIS: u64 = 200;

/// Where a device code is handed out.
pub const DEVICE_CODE_URL: &'static str = "https://auth.openai.com/api/accounts/deviceauth/usercode";

/// Where a device code is traded.
pub const DEVICE_TOKEN_URL: &'static str = "https://auth.openai.com/api/accounts/deviceauth/token";

/// The page that a sign-in with a device code stands for.
pub const DEVICE_REDIRECT_URI: &'static str = "https://auth.openai.com/deviceauth/callback";

/// What the browser gets after a sign-in.
pub const CALLBACK_OK: &'static str = "HTTP/1.1 200 OK\r\nContent-Type: text/html; charset=utf-8\r\nConnection: close\r\n\r\n<!doctype html><title>Gopher</title><p>ChatGPT sign-in completed. You can close this tab.</p>";

/// What the browser gets after a sign-in that was rejected.
pub const CALLBACK_ERR: &'static str = "HTTP/1.1 400 Bad Request\r\nContent-Type: text/html; charset=utf-8\r\nConnection: close\r\n\r\n<!doctype html><title>Gopher</title><p>ChatGPT sign-in was rejected.</p>";

/// What the browser gets for anything else.
pub const CALLBACK_NOT_FOUND: &'static str = "HTTP/1.1 404 Not Found\r\nContent-Length: 0\r\nConnection: close\r\n\r\n";

// ---------------------------------------------------------------------------
// Starting in the browser
// ---------------------------------------------------------------------------

/// The address that the browser comes back to.
pub open spec fn redirect_text() -> Seq<char> {
    "http://localhost:"@ + text::decimal(CODEX_CALLBACK_PORT as nat) + CODEX_CALLBACK_PATH@
}

/// The address that the browser comes back to.
pub fn redirect_uri() -> (r: String)
    ensures
        r@ == redirect_text(),
{
    let mut uri = "http://localhost:".to_owned();
    let port = text::decimal_text(CODEX_CALLBACK_PORT as u64);
    uri.append(port.as_str());
    uri.append(CODEX_CALLBACK_PATH);
    uri
}

/// What the address that the user allows a sign-in at tells the service.
pub open spec fn authorize_pairs(
    redirect_uri: Seq<char>,
    challenge: Seq<char>,
    state: Seq<char>,
) -> Seq<(Seq<char>, Seq<char>)> {
    seq![
        ("response_type"@, "code"@),
        ("client_id"@, CODEX_CLIENT_ID@),
        ("redirect_uri"@, redirect_uri),
        ("scope"@, CODEX_SCOPE@),
        ("code_challenge"@, challenge),
        ("code_challenge_method"@, "S256"@),
        ("id_token_add_organizations"@, "true"@),
        ("state"@, state),
    ]
}

/// What the address that the user allows a sign-in at tells the service.
pub fn authorize_query(redirect_uri: &str, challenge: &str, state: &str) -> (r: Vec<(String, String)>)
    ensures
        r.deep_view() == authorize_pairs(redirect_uri@, challenge@, state@),
{
    let mut pairs = no_pairs();
    push_pair(&mut pairs, "response_type", "code");
    push_pair(&mut pairs, "client_id", CODEX_CLIENT_ID);
    push_pair(&mut pairs, "redirect_uri", redirect_uri);
    push_pair(&mut pairs, "scope", CODEX_SCOPE);
    push_pair(&mut pairs, "code_challenge", challenge);
    push_pair(&mut pairs, "code_challenge_method", "S256");
    push_pair(&mut pairs, "id_token_add_organizations", "true");
    push_pair(&mut pairs, "state", state);
    proof {
        assert(pairs.deep_view() =~= authorize_pairs(redirect_uri@, challenge@, state@));
    }
    pairs
}

/// The address that the user allows a sign-in at; nothing where it cannot be written.
pub fn authorize_url(redirect_uri: &str, challenge: &str, state: &str) -> (r: Option<String>)
    ensures
        r.deep_view() == url_with_query(
            CODEX_AUTHORIZE_URL@,
            authorize_pairs(redirect_uri@, challenge@, state@),
        ),
{
    proof {
        reveal_strlit("https://auth.openai.com/oauth/authorize");
        assert(takes_query(CODEX_AUTHORIZE_URL@));
    }
    add_query(CODEX_AUTHORIZE_URL, &authorize_query(redirect_uri, challenge, state))
}

/// A sign-in in the browser that has begun.
#[derive(Debug)]
pub struct PkceStart {
    /// Proves later that this is who began.
    pub verifier: String,
    /// What the browser must bring back.
    pub state: String,
    pub redirect_uri: String,
    /// Where the browser goes; nothing where the address cannot be written.
    pub auth_url: Option<String>,
}

/// Whether a sign-in has begun with this verifier and this state.
pub open spec fn begun(start: PkceStart, verifier: Seq<char>, state: Seq<char>) -> bool {
    &&& start.verifier@ == verifier
    &&& start.state@ == state
    &&& start.redirect_uri@ == redirect_text()
    &&& start.auth_url.deep_view() == url_with_query(
        CODEX_AUTHORIZE_URL@,
        authorize_pairs(redirect_text(), challenge_text(verifier), state),
    )
}

/// Begins a sign-in in the browser with a verifier and a state.
pub fn begin_with(verifier: String, state: String) -> (r: PkceStart)
    ensures
        begun(r, verifier@, state@),
{
    let challenge = challenge_of(verifier.as_str());
    let redirect_uri = redirect_uri();
    let auth_url = authorize_url(redirect_uri.as_str(), challenge.as_str(), state.as_str());
    PkceStart { verifier, state, redirect_uri, auth_url }
}

/// Begins a sign-in in the browser: with a verifier of 64 random bytes, of which the service is
/// told only the digest, and a state of 32.
pub fn begin_login() -> (r: PkceStart)
    ensures
        begun(r, r.verifier@, r.state@),
        exists|raw: Seq<u8>| raw.len() == 64 && r.verifier@ == #[trigger] base64url(raw),
        exists|raw: Seq<u8>| raw.len() == 32 && r.state@ == #[trigger] base64url(raw),
{
    let verifier = random_token(64);
    let state = random_token(32);
    begin_with(verifier, state)
}

/// A sign-in that is done.
#[derive(Debug)]
pub struct PkceLogin {
    pub secret_json: String,
}

/// Why a sign-in in the browser came to nothing.
#[derive(Debug)]
pub enum PkceError {
    /// The port is taken, usually by a Codex CLI login in progress. Use the device code instead.
    PortBusy,
    Failed(String),
}

impl From<String> for PkceError {
    fn from(message: String) -> (r: PkceError) {
        PkceError::Failed(message)
    }
}

impl vstd::std_specs::convert::FromSpecImpl<String> for PkceError {
    open spec fn obeys_from_spec() -> bool {
        true
    }

    open spec fn from_spec(message: String) -> PkceError {
        PkceError::Failed(message)
    }
}

/// What can go wrong on this machine before the browser has gone out.
#[derive(Clone, Copy, Debug)]
pub enum SetupFault {
    /// The port of the page could not be taken.
    Port,
    /// The page could not be made to wait without blocking.
    Page,
    /// The browser could not be opened.
    Browser,
}

/// Why a sign-in came to nothing after such a fault.
pub fn setup_error(fault: SetupFault) -> (r: PkceError)
    ensures
        match fault {
            SetupFault::Port => r is PortBusy,
            SetupFault::Page => r matches PkceError::Failed(message) && message@
                == "Could not open a local sign-in callback."@,
            SetupFault::Browser => r matches PkceError::Failed(message) && message@
                == "Could not open the browser. Use the device-code sign-in instead."@,
        },
{
    match fault {
        SetupFault::Port => PkceError::PortBusy,
        SetupFault::Page => PkceError::Failed("Could not open a local sign-in callback.".to_owned()),
        SetupFault::Browser => PkceError::Failed(
            "Could not open the browser. Use the device-code sign-in instead.".to_owned(),
        ),
    }
}

// ---------------------------------------------------------------------------
// Waiting for the browser
// ---------------------------------------------------------------------------

/// What happens at the page while it waits.
#[derive(Debug)]
pub enum PageEvent {
    /// Nobody has come; whether the time is up.
    Idle { expired: bool },
    /// Somebody came, and the connection broke.
    Broken,
    /// Somebody came from another machine.
    Stranger,
    /// Somebody came from this machine and sent these bytes.
    Request(Vec<u8>),
}

/// What the page does next.
#[derive(Debug)]
pub enum PageAction {
    /// Wait for so long, and look again.
    Wait { millis: u64 },
    /// Look again.
    Again,
    /// Send an answer, and look again.
    Answer { page: &'static str },
    /// Send an answer; the browser has brought the code.
    Done { page: &'static str, code: String },
    /// Send an answer, if there is one; the sign-in has failed.
    Fail { last: Option<&'static str>, message: String },
}

/// What a `PageAction` holds.
#[verifier::ext_equal]
pub enum ActionView {
    Wait { millis: u64 },
    Again,
    Answer { page: Seq<char> },
    Done { page: Seq<char>, code: Seq<char> },
    Fail { last: Option<Seq<char>>, message: Seq<char> },
}

impl View for PageAction {
    type V = ActionView;

    open spec fn view(&self) -> ActionView {
        match self {
            PageAction::Wait { millis } => ActionView::Wait { millis: *millis },
            PageAction::Again => ActionView::Again,
            PageAction::Answer { page } => ActionView::Answer { page: page@ },
            PageAction::Done { page, code } => ActionView::Done { page: page@, code: code@ },
            PageAction::Fail { last, message } => ActionView::Fail {
                last: match last {
                    Some(page) => Some(page@),
                    None => None,
                },
                message: message@,
            },
        }
    }
}

/// Whether what happened can be decoded.
pub open spec fn is_readable_event(event: PageEvent) -> bool {
    event matches PageEvent::Request(data) ==> is_readable(lossy(data@))
}

/// Whether what happened can be decoded.
pub fn readable_event(event: &PageEvent) -> (r: bool)
    ensures
        r == is_readable_event(*event),
{
    match event {
        PageEvent::Request(data) => readable(lossy_text(data).as_str()),
        _ => true,
    }
}

/// What the page does about a request. Browsers open speculative connections and fetch
/// `/favicon.ico`: only the page that the browser comes back to ends the wait.
pub open spec fn request_action(request: Seq<char>, expected_state: Seq<char>) -> ActionView {
    if !is_callback(request) {
        ActionView::Answer { page: CALLBACK_NOT_FOUND@ }
    } else {
        match callback(request, expected_state) {
            Ok(code) => ActionView::Done { page: CALLBACK_OK@, code },
            Err(message) => ActionView::Fail { last: Some(CALLBACK_ERR@), message },
        }
    }
}

/// What the page does about what happened.
pub open spec fn page_action(event: PageEvent, expected_state: Seq<char>) -> ActionView {
    match event {
        PageEvent::Idle { expired } => if expired {
            ActionView::Fail {
                last: None,
                message: "ChatGPT sign-in timed out before the browser returned."@,
            }
        } else {
            ActionView::Wait { millis: CALLBACK_POLL_MILLIS }
        },
        PageEvent::Broken => ActionView::Again,
        PageEvent::Stranger => ActionView::Again,
        PageEvent::Request(data) => request_action(lossy(data@), expected_state),
    }
}

/// What the page does about a request.
pub fn answer_request(request: &str, expected_state: &str) -> (r: PageAction)
    requires
        is_readable(request@),
    ensures
        r@ == request_action(request@, expected_state@),
{
    if !is_callback_request(request) {
        return PageAction::Answer { page: CALLBACK_NOT_FOUND };
    }
    match callback_code(request, expected_state) {
        Ok(code) => PageAction::Done { page: CALLBACK_OK, code },
        Err(message) => PageAction::Fail { last: Some(CALLBACK_ERR), message },
    }
}

/// What the page does about what happened.
pub fn page_step(event: &PageEvent, expected_state: &str) -> (r: PageAction)
    requires
        is_readable_event(*event),
    ensures
        r@ == page_action(*event, expected_state@),
{
    match event {
        PageEvent::Idle { expired } => if *expired {
            PageAction::Fail {
                last: None,
                message: "ChatGPT sign-in timed out before the browser returned.".to_owned(),
            }
        } else {
            PageAction::Wait { millis: CALLBACK_POLL_MILLIS }
        },
        PageEvent::Broken => PageAction::Again,
        PageEvent::Stranger => PageAction::Again,
        PageEvent::Request(data) => answer_request(lossy_text(data).as_str(), expected_state),
    }
}

/// What a checked step holds.
pub open spec fn action_opt(action: Option<PageAction>) -> Option<ActionView> {
    match action {
        Some(action) => Some(action@),
        None => None,
    }
}

/// What the page does about what happened; nothing where that cannot be decoded.
pub fn checked_page_step(event: &PageEvent, expected_state: &str) -> (r: Option<PageAction>)
    ensures
        r is Some <==> is_readable_event(*event),
        action_opt(r) == (if is_readable_event(*event) {
            Some(page_action(*event, expected_state@))
        } else {
            None
        }),
{
    if readable_event(event) {
        Some(page_step(event, expected_state))
    } else {
        None
    }
}

// ---------------------------------------------------------------------------
// Trading a code
// ---------------------------------------------------------------------------

/// The request that trades an authorization code.
pub open spec fn exchange_request(
    code: Seq<char>,
    verifier: Seq<char>,
    redirect_uri: Seq<char>,
) -> RequestView {
    RequestView {
        url: CODEX_TOKEN_URL@,
        headers: seq![("Accept"@, "application/json"@)],
        payload: PayloadView::Form(
            seq![
                ("grant_type"@, "authorization_code"@),
                ("code"@, code),
                ("redirect_uri"@, redirect_uri),
                ("client_id"@, CODEX_CLIENT_ID@),
                ("code_verifier"@, verifier),
            ],
        ),
        timeout_secs: 20,
    }
}

/// The request that trades an authorization code; `finish_exchange` takes what comes back.
pub fn exchange_authorization_code(code: &str, verifier: &str, redirect_uri: &str) -> (r:
    PinnedRequest)
    ensures
        r@ == exchange_request(code@, verifier@, redirect_uri@),
{
    let mut headers = no_pairs();
    push_pair(&mut headers, "Accept", "application/json");
    let mut fields = no_pairs();
    push_pair(&mut fields, "grant_type", "authorization_code");
    push_pair(&mut fields, "code", code);
    push_pair(&mut fields, "redirect_uri", redirect_uri);
    push_pair(&mut fields, "client_id", CODEX_CLIENT_ID);
    push_pair(&mut fields, "code_verifier", verifier);
    let request = PinnedRequest {
        url: CODEX_TOKEN_URL.to_owned(),
        headers,
        payload: Payload::Form(fields),
        timeout_secs: 20,
    };
    proof {
        let expected = exchange_request(code@, verifier@, redirect_uri@);
        assert(request@.headers =~= expected.headers);
        assert(request@.payload->Form_0 =~= expected.payload->Form_0);
    }
    request
}

/// The access token, the refresh token and the lifetime in the reply to a trade, or what to tell
/// the user.
pub open spec fn exchanged(reply: ReplyView) -> Result<
    (Seq<char>, Seq<char>, Option<u64>),
    Seq<char>,
> {
    match reply {
        ReplyView::Unreachable => Err("Could not finish the ChatGPT sign-in."@),
        ReplyView::Answered { status, body } => if is_redirect(status) {
            Err("ChatGPT auth redirected. Gopher did not follow it."@)
        } else if !is_success(status) {
            Err("ChatGPT rejected the sign-in."@)
        } else {
            match body {
                Some(body) => {
                    let access = or_else(text_at(body, "access_token"@), ""@);
                    let refresh = or_else(text_at(body, "refresh_token"@), ""@);
                    if access.len() == 0 || refresh.len() == 0 {
                        Err("ChatGPT did not return a session."@)
                    } else {
                        Ok((access, refresh, as_unsigned(member(body, "expires_in"@))))
                    }
                },
                None => Err("ChatGPT auth returned an unreadable response."@),
            }
        },
    }
}

/// What reading the reply to a trade came to.
pub open spec fn tokens_result(r: Result<(String, String, Option<u64>), String>) -> Result<
    (Seq<char>, Seq<char>, Option<u64>),
    Seq<char>,
> {
    match r {
        Ok((access, refresh, expires_in)) => Ok((access@, refresh@, expires_in)),
        Err(message) => Err(message@),
    }
}

/// The tokens in the reply to a trade, or what to tell the user.
pub fn read_exchange(reply: &JsonReply) -> (r: Result<(String, String, Option<u64>), String>)
    ensures
        tokens_result(r) == exchanged(reply@),
{
    let (status, body) = match reply {
        JsonReply::Unreachable => {
            return Err("Could not finish the ChatGPT sign-in.".to_owned());
        },
        JsonReply::Answered { status, body } => (*status, body),
    };
    if redirect(status) {
        return Err("ChatGPT auth redirected. Gopher did not follow it.".to_owned());
    }
    if !success(status) {
        return Err("ChatGPT rejected the sign-in.".to_owned());
    }
    let body = match body {
        Some(body) => body,
        None => {
            return Err("ChatGPT auth returned an unreadable response.".to_owned());
        },
    };
    let access = body.text_or("access_token", "");
    let refresh = body.text_or("refresh_token", "");
    if access.is_empty() || refresh.is_empty() {
        return Err("ChatGPT did not return a session.".to_owned());
    }
    let expires_in = match body.get("expires_in") {
        Some(value) => value.as_u64(),
        None => None,
    };
    Ok((access.to_owned(), refresh.to_owned(), expires_in))
}

/// The text of the sign-in that the reply to a trade at the time `now` makes, or what to tell
/// the user.
pub fn settle_exchange(reply: &JsonReply, now: u64) -> (r: Result<String, String>)
    ensures
        match exchanged(reply@) {
            Ok((access, refresh, expires_in)) => {
                let secret = new_secret(
                    access,
                    refresh,
                    expires_in,
                    claimed_expiry(token_claims(access)),
                    now,
                );
                &&& r is Ok
                &&& r->Ok_0@ == secret_text(secret)
                &&& secret_read(r->Ok_0@) == Ok::<_, Seq<char>>(secret)
            },
            Err(message) => r matches Err(told) && told@ == message,
        },
{
    match read_exchange(reply) {
        Ok((access, refresh, expires_in)) => Ok(
            secret_from_tokens_at(access.as_str(), refresh.as_str(), expires_in, now),
        ),
        Err(message) => Err(message),
    }
}

/// The text of the sign-in that the reply to a trade makes, or what to tell the user.
pub fn finish_exchange(reply: &HttpReply) -> (r: Result<String, String>)
    ensures
        match exchanged(reply@) {
            Ok((access, refresh, expires_in)) => r matches Ok(stored) && stores_tokens(
                stored@,
                access,
                refresh,
                expires_in,
            ),
            Err(message) => r matches Err(told) && told@ == message,
        },
{
    settle_exchange(&reply.read(), now_secs())
}

// ---------------------------------------------------------------------------
// Device codes
// ---------------------------------------------------------------------------

/// A code that the user enters on another device.
#[derive(Clone, Debug)]
pub struct DeviceCode {
    pub user_code: String,
    pub verification_url: String,
    pub device_auth_id: String,
    pub interval_secs: u64,
}

/// What a `DeviceCode` holds.
#[verifier::ext_equal]
pub struct DeviceView {
    pub user_code: Seq<char>,
    pub verification_url: Seq<char>,
    pub device_auth_id: Seq<char>,
    pub interval_secs: u64,
}

impl View for DeviceCode {
    type V = DeviceView;

    open spec fn view(&self) -> DeviceView {
        DeviceView {
            user_code: self.user_code@,
            verification_url: self.verification_url@,
            device_auth_id: self.device_auth_id@,
            interval_secs: self.interval_secs,
        }
    }
}

/// The request for a device code.
pub open spec fn device_request() -> RequestView {
    RequestView {
        url: DEVICE_CODE_URL@,
        headers: seq![],
        payload: PayloadView::Json(
            JsonView::Object(map!["client_id"@ => JsonView::Text(CODEX_CLIENT_ID@)]),
        ),
        timeout_secs: 20,
    }
}

/// The request for a device code; `finish_device_code` takes what comes back.
pub fn request_device_code() -> (r: PinnedRequest)
    ensures
        r@ == device_request(),
{
    let mut entries: Vec<(String, Json)> = Vec::new();
    put(&mut entries, "client_id", Json::text(CODEX_CLIENT_ID));
    proof {
        assert(object_view(entries@) =~= map!["client_id"@ => JsonView::Text(CODEX_CLIENT_ID@)]);
    }
    PinnedRequest {
        url: DEVICE_CODE_URL.to_owned(),
        headers: no_pairs(),
        payload: Payload::Json(Json::Object(entries)),
        timeout_secs: 20,
    }
}

/// How long to wait between two polls, as the service asks: 5 seconds where it does not say, and
/// never less than 3.
pub open spec fn poll_interval(asked: Option<u64>) -> u64 {
    match asked {
        Some(seconds) => if seconds < 3 {
            3
        } else {
            seconds
        },
        None => 5,
    }
}

/// The device code in a reply, or what to tell the user.
pub open spec fn device_code(reply: ReplyView) -> Result<DeviceView, Seq<char>> {
    match reply {
        ReplyView::Unreachable => Err("Could not start device-code sign-in."@),
        ReplyView::Answered { status, body } => if !is_success(status) {
            Err("ChatGPT did not start a device-code sign-in."@)
        } else {
            match body {
                Some(body) => {
                    let user_code = trimmed(or_else(text_at(body, "user_code"@), ""@));
                    let device_auth_id = trimmed(or_else(text_at(body, "device_auth_id"@), ""@));
                    if user_code.len() == 0 || device_auth_id.len() == 0 {
                        Err("ChatGPT returned an incomplete device code."@)
                    } else {
                        Ok(
                            DeviceView {
                                user_code,
                                verification_url: CODEX_DEVICE_URL@,
                                device_auth_id,
                                interval_secs: poll_interval(as_unsigned(member(body, "interval"@))),
                            },
                        )
                    }
                },
                None => Err("ChatGPT returned an unreadable device code."@),
            }
        },
    }
}

/// What reading a device code came to.
pub open spec fn device_result(r: Result<DeviceCode, String>) -> Result<DeviceView, Seq<char>> {
    match r {
        Ok(code) => Ok(code@),
        Err(message) => Err(message@),
    }
}

/// The device code in a reply, or what to tell the user.
pub fn read_device_code(reply: &JsonReply) -> (r: Result<DeviceCode, String>)
    ensures
        device_result(r) == device_code(reply@),
{
    let (status, body) = match reply {
        JsonReply::Unreachable => {
            return Err("Could not start device-code sign-in.".to_owned());
        },
        JsonReply::Answered { status, body } => (*status, body),
    };
    if !success(status) {
        return Err("ChatGPT did not start a device-code sign-in.".to_owned());
    }
    let body = match body {
        Some(body) => body,
        None => {
            return Err("ChatGPT returned an unreadable device code.".to_owned());
        },
    };
    let user_code = text::trim(body.text_or("user_code", ""));
    let device_auth_id = text::trim(body.text_or("device_auth_id", ""));
    if user_code.is_empty() || device_auth_id.is_empty() {
        return Err("ChatGPT returned an incomplete device code.".to_owned());
    }
    let asked = match body.get("interval") {
        Some(value) => value.as_u64(),
        None => None,
    };
    let interval_secs: u64 = match asked {
        Some(seconds) => if seconds < 3 {
            3
        } else {
            seconds
        },
        None => 5,
    };
    Ok(
        DeviceCode {
            user_code: user_code.to_owned(),
            verification_url: CODEX_DEVICE_URL.to_owned(),
            device_auth_id: device_auth_id.to_owned(),
            interval_secs,
        },
    )
}

/// The device code in a reply, or what to tell the user.
pub fn finish_device_code(reply: &HttpReply) -> (r: Result<DeviceCode, String>)
    ensures
        device_result(r) == device_code(reply@),
{
    read_device_code(&reply.read())
}

/// The request that asks whether the user has entered a device code.
pub open spec fn poll_request(user_code: Seq<char>, device_auth_id: Seq<char>) -> RequestView {
    RequestView {
        url: DEVICE_TOKEN_URL@,
        headers: seq![],
        payload: PayloadView::Json(
            JsonView::Object(
                map![
                    "device_auth_id"@ => JsonView::Text(device_auth_id),
                    "user_code"@ => JsonView::Text(user_code),
                ],
            ),
        ),
        timeout_secs: 20,
    }
}

/// The request that asks whether the user has entered a device code; `finish_poll` takes what
/// comes back.
pub fn poll_device_code(user_code: &str, device_auth_id: &str) -> (r: PinnedRequest)
    ensures
        r@ == poll_request(user_code@, device_auth_id@),
{
    let mut entries: Vec<(String, Json)> = Vec::new();
    put(&mut entries, "device_auth_id", Json::text(device_auth_id));
    put(&mut entries, "user_code", Json::text(user_code));
    proof {
        assert(object_view(entries@) =~= map![
            "device_auth_id"@ => JsonView::Text(device_auth_id@),
            "user_code"@ => JsonView::Text(user_code@),
        ]);
    }
    PinnedRequest {
        url: DEVICE_TOKEN_URL.to_owned(),
        headers: no_pairs(),
        payload: Payload::Json(Json::Object(entries)),
        timeout_secs: 20,
    }
}

/// The authorization code and the verifier in a reply; nothing while the user has not entered the
/// device code; or what to tell the user.
pub open spec fn polled(reply: ReplyView) -> Result<Option<(Seq<char>, Seq<char>)>, Seq<char>> {
    match reply {
        ReplyView::Unreachable => Err("Could not check the device-code sign-in."@),
        ReplyView::Answered { status, body } => if status == 403 || status == 404 {
            Ok(None)
        } else if !is_success(status) {
            Err("ChatGPT device-code sign-in failed."@)
        } else {
            match body {
                Some(body) => {
                    let code = or_else(text_at(body, "authorization_code"@), ""@);
                    let verifier = or_else(text_at(body, "code_verifier"@), ""@);
                    if code.len() == 0 || verifier.len() == 0 {
                        Ok(None)
                    } else {
                        Ok(Some((code, verifier)))
                    }
                },
                None => Err("ChatGPT returned an unreadable device-code response."@),
            }
        },
    }
}

/// What a poll comes to: the request that trades the code, nothing while the user has not entered
/// the device code, or what to tell the user.
pub open spec fn poll_outcome(reply: ReplyView) -> Result<Option<RequestView>, Seq<char>> {
    match polled(reply) {
        Ok(Some((code, verifier))) => Ok(
            Some(exchange_request(code, verifier, DEVICE_REDIRECT_URI@)),
        ),
        Ok(None) => Ok(None),
        Err(message) => Err(message),
    }
}

/// What a poll came to.
pub open spec fn poll_result(r: Result<Option<PinnedRequest>, String>) -> Result<
    Option<RequestView>,
    Seq<char>,
> {
    match r {
        Ok(Some(request)) => Ok(Some(request@)),
        Ok(None) => Ok(None),
        Err(message) => Err(message@),
    }
}

/// What a poll comes to.
pub fn settle_poll(reply: &JsonReply) -> (r: Result<Option<PinnedRequest>, String>)
    ensures
        poll_result(r) == poll_outcome(reply@),
{
    let (status, body) = match reply {
        JsonReply::Unreachable => {
            return Err("Could not check the device-code sign-in.".to_owned());
        },
        JsonReply::Answered { status, body } => (*status, body),
    };
    if status == 403 || status == 404 {
        return Ok(None);
    }
    if !success(status) {
        return Err("ChatGPT device-code sign-in failed.".to_owned());
    }
    let body = match body {
        Some(body) => body,
        None => {
            return Err("ChatGPT returned an unreadable device-code response.".to_owned());
        },
    };
    let code = body.text_or("authorization_code", "");
    let verifier = body.text_or("code_verifier", "");
    if code.is_empty() || verifier.is_empty() {
        return Ok(None);
    }
    Ok(Some(exchange_authorization_code(code, verifier, DEVICE_REDIRECT_URI)))
}

/// What a poll comes to: the request that trades the code, which `finish_exchange` then takes the
/// reply to; nothing while the user has not entered the device code; or what to tell the user.
pub fn finish_poll(reply: &HttpReply) -> (r: Result<Option<PinnedRequest>, String>)
    ensures
        poll_result(r) == poll_outcome(reply@),
{
    settle_poll(&reply.read())
}

// ---------------------------------------------------------------------------
// Laws
// ---------------------------------------------------------------------------

/// Every request for a sign-in, a token or a catalog goes to a pinned address, whatever it
/// carries.
pub proof fn law_requests_stay_pinned(
    first: Seq<char>,
    second: Seq<char>,
    third: Seq<char>,
    claims: Option<JsonView>,
    reply: ReplyView,
)
    ensures
        is_pinned(refresh_request(first).url),
        is_pinned(exchange_request(first, second, third).url),
        is_pinned(device_request().url),
        is_pinned(poll_request(first, second).url),
        is_pinned(catalog_request(first, claims).url),
        poll_outcome(reply) matches Ok(Some(request)) ==> is_pinned(request.url),
{
    reveal_strlit("https://auth.openai.com/");
    reveal_strlit("https://auth.openai.com/oauth/token");
    reveal_strlit("https://auth.openai.com/api/accounts/deviceauth/usercode");
    reveal_strlit("https://auth.openai.com/api/accounts/deviceauth/token");
    reveal_strlit("https://chatgpt.com/backend-api/codex/");
    reveal_strlit("https://chatgpt.com/backend-api/codex");
    reveal_strlit("/models?client_version=1.0.0");
    let auth = "https://auth.openai.com/"@;
    let codex = "https://chatgpt.com/backend-api/codex/"@;
    assert(auth.is_prefix_of(CODEX_TOKEN_URL@)) by {
        assert(CODEX_TOKEN_URL@.subrange(0, auth.len() as int) =~= auth);
    }
    assert(auth.is_prefix_of(DEVICE_CODE_URL@)) by {
        assert(DEVICE_CODE_URL@.subrange(0, auth.len() as int) =~= auth);
    }
    assert(auth.is_prefix_of(DEVICE_TOKEN_URL@)) by {
        assert(DEVICE_TOKEN_URL@.subrange(0, auth.len() as int) =~= auth);
    }
    assert(codex.is_prefix_of(catalog_url())) by {
        assert(catalog_url().subrange(0, codex.len() as int) =~= codex);
    }
}

/// The page ends the wait with a code only for a request from this machine that brings back the
/// expected state; whatever else comes, no code is taken.
pub proof fn law_only_the_expected_state_ends_the_wait(event: PageEvent, expected_state: Seq<char>)
    requires
        page_action(event, expected_state) is Done,
    ensures
        event is Request,
        is_callback(lossy(event->Request_0@)),
        callback(lossy(event->Request_0@), expected_state) == Ok::<_, Seq<char>>(
            page_action(event, expected_state)->code,
        ),
{
}

/// Requests for anything but the page that the browser comes back to do not end the wait, nor do
/// broken connections and strangers.
pub proof fn law_noise_does_not_end_the_wait(event: PageEvent, expected_state: Seq<char>)
    requires
        match event {
            PageEvent::Idle { expired } => !expired,
            PageEvent::Broken => true,
            PageEvent::Stranger => true,
            PageEvent::Request(data) => !is_callback(lossy(data@)),
        },
    ensures
        !(page_action(event, expected_state) is Done),
        !(page_action(event, expected_state) is Fail),
{
}

/// Polls are never asked for more often than every 3 seconds.
pub proof fn law_polls_keep_their_distance(reply: ReplyView)
    ensures
        device_code(reply) matches Ok(code) ==> code.interval_secs >= 3,
{
}

/// An answer that redirects yields no sign-in, no tokens, no device code and no models from the
/// service: it is never followed.
pub proof fn law_redirects_yield_nothing(
    secret: SecretView,
    status: u16,
    body: Option<JsonView>,
    now: u64,
)
    requires
        is_redirect(status),
    ensures
        settled_secret(secret, ReplyView::Answered { status, body }, now) is Err,
        exchanged(ReplyView::Answered { status, body }) is Err,
        device_code(ReplyView::Answered { status, body }) is Err,
        polled(ReplyView::Answered { status, body }) is Err,
        !probe_outcome(ReplyView::Answered { status, body }).health.ok,
        probe_outcome(ReplyView::Answered { status, body }).models is None,
{
}

} // verus!
