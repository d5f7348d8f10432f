use std::collections::HashMap;

use gopher_codex::callback::{callback_code, decodable, is_callback_request, lossy_text, read_pair, readable, settle_callback, unescape, urlencoding_decode, CallbackFields};
use gopher_codex::digest::{challenge_of, constant_eq, random_token};
use gopher_codex::http::{HttpReply, Payload, PinnedRequest};
use gopher_codex::login::{authorize_url, begin_login, begin_with, checked_page_step, exchange_authorization_code, finish_device_code, finish_exchange, finish_poll, page_step, poll_device_code, readable_event, redirect_uri, request_device_code, settle_exchange, setup_error, PageAction, PageEvent, PkceError, SetupFault, CALLBACK_ERR, CALLBACK_NOT_FOUND, CALLBACK_OK};
use gopher_codex::secret::CODEX_CLIENT_ID;

fn answered(status: u16, body: &str) -> HttpReply {
    HttpReply::Answered { status, body: Some(body.as_bytes().to_vec()) }
}

fn fields(request: PinnedRequest) -> Vec<(String, String)> {
    match request.payload {
        Payload::Form(fields) => fields,
        _ => panic!("not a form"),
    }
}

fn body(request: &PinnedRequest) -> String {
    match &request.payload {
        Payload::Json(value) => value.to_text(),
        _ => panic!("not JSON"),
    }
}

fn request(data: &str) -> PageEvent {
    PageEvent::Request(data.as_bytes().to_vec())
}

#[test]
fn pkce_state_mismatch_is_rejected() {
    let request = "GET /auth/callback?code=abc&state=wrong HTTP/1.1\r\n";
    assert!(callback_code(request, "expected-state-value").is_err());
    let ok = "GET /auth/callback?code=abc&state=expected-state-value HTTP/1.1\r\n";
    assert_eq!(callback_code(ok, "expected-state-value").unwrap(), "abc");
}

#[test]
fn browser_noise_does_not_end_the_callback_wait() {
    assert!(!is_callback_request("GET /favicon.ico HTTP/1.1\r\n"));
    assert!(!is_callback_request(""));
    assert!(!is_callback_request("GET /auth/callbackx?code=a HTTP/1.1\r\n"));
    assert!(is_callback_request("GET /auth/callback?code=a&state=b HTTP/1.1\r\n"));
}

#[test]
fn callback_reports_openai_error_description() {
    let request =
        "GET /auth/callback?error=access_denied&error_description=User%20cancelled&state=s HTTP/1.1\r\n";
    let error = callback_code(request, "s").unwrap_err();
    assert!(error.contains("User cancelled"));
}

#[test]
fn authorize_url_matches_the_codex_client_registration() {
    let url = authorize_url("http://localhost:1455/auth/callback", "challenge", "state").unwrap();
    let parsed = reqwest::Url::parse(&url).unwrap();
    let pairs: HashMap<_, _> = parsed.query_pairs().into_owned().collect();
    assert_eq!(pairs["redirect_uri"], "http://localhost:1455/auth/callback");
    assert_eq!(pairs["scope"], "openid profile email offline_access");
    assert_eq!(pairs["code_challenge_method"], "S256");
    assert_eq!(pairs["client_id"], CODEX_CLIENT_ID);
    assert!(!pairs.contains_key("originator"));
}

#[test]
fn authorize_url_is_exact() {
    assert_eq!(redirect_uri(), "http://localhost:1455/auth/callback");
    assert_eq!(
        authorize_url(&redirect_uri(), "c+/", "s&t").unwrap(),
        "https://auth.openai.com/oauth/authorize?response_type=code&client_id=app_EMoamEEZ73f0CkXaXp7hrann&redirect_uri=http%3A%2F%2Flocalhost%3A1455%2Fauth%2Fcallback&scope=openid+profile+email+offline_access&code_challenge=c%2B%2F&code_challenge_method=S256&id_token_add_organizations=true&state=s%26t"
    );
}

#[test]
fn sign_ins_begin_with_fresh_secrets() {
    let verifier = "dBjftJeZ4CVP-mB92K27uhbUJU1p1r_wW1gFWFOEjXk";
    assert_eq!(challenge_of(verifier), "E9Melhoa2OwvFrEMTJguCHaoeK1t8URWbuGJSstw-cM");
    let start = begin_with(verifier.to_string(), "st".to_string());
    let url = start.auth_url.unwrap();
    assert!(url.contains("code_challenge=E9Melhoa2OwvFrEMTJguCHaoeK1t8URWbuGJSstw-cM&"));
    assert!(!url.contains(verifier));
    let first = begin_login();
    let second = begin_login();
    assert_eq!((first.verifier.len(), first.state.len()), (86, 43));
    assert_ne!(first.verifier, second.verifier);
    assert_ne!(first.state, second.state);
    assert_eq!(first.redirect_uri, redirect_uri());
    assert!(first.auth_url.unwrap().ends_with(&format!("&state={}", first.state)));
    assert_eq!(random_token(0), "");
}

#[test]
fn callback_requests_are_recognised_by_line_and_path() {
    for request in [
        "GET /auth/callback",
        "get /auth/callback HTTP/1.1\n",
        "  GET\t/auth/callback? HTTP/1.1",
        "GET /auth/callback?a?b x",
    ] {
        assert!(is_callback_request(request), "{request}");
    }
    for request in [
        "POST /auth/callback HTTP/1.1",
        "GET /auth/callback/ HTTP/1.1",
        "GET /auth/callback#a HTTP/1.1",
        "GET",
        "\nGET /auth/callback HTTP/1.1",
        "/auth/callback GET",
    ] {
        assert!(!is_callback_request(request), "{request}");
    }
}

#[test]
fn callback_outcomes_are_exact() {
    let told = |query: &str| callback_code(&format!("GET /auth/callback{query} HTTP/1.1\r\nHost: x\r\n"), "s");
    assert_eq!(told("?state=s&code=a%2Bb+c"), Ok("a+b c".to_string()));
    assert_eq!(told("?code=first&state=x&code=last&state=s"), Ok("last".to_string()));
    assert_eq!(told("?code=a=b&state=s"), Ok("a=b".to_string()));
    for (query, message) in [
        ("", "ChatGPT sign-in did not include a state value."),
        ("?code=c", "ChatGPT sign-in did not include a state value."),
        ("?code=c&state", "ChatGPT sign-in did not include a state value."),
        ("?code=c&state=S", "ChatGPT sign-in state did not match."),
        ("?code=c&state=", "ChatGPT sign-in state did not match."),
        ("?state=s", "ChatGPT sign-in did not include a code."),
        ("?state=s&code=", "ChatGPT sign-in did not include a code."),
        ("?error=e&state=s&code=c", "OpenAI authorization failed: e"),
        ("?error=e&error_description=+", "OpenAI authorization failed: e"),
        ("?error=e&error_description=%0Ad%09", "OpenAI authorization failed: d"),
        ("?error=", "OpenAI authorization failed: "),
        ("?error_description=d&state=s", "ChatGPT sign-in did not include a code."),
    ] {
        assert_eq!(told(query), Err(message.to_string()), "{query}");
    }
    assert_eq!(
        told(&format!("?error={}", "x".repeat(201))),
        Err(format!("OpenAI authorization failed: {}", "x".repeat(200)))
    );
    assert_eq!(callback_code("GET / HTTP/1.1", "s").unwrap_err(), "Rejected an unexpected sign-in callback.");
}

#[test]
fn settled_callbacks_compare_whole_states() {
    let given = |code: Option<&str>, state: Option<&str>| CallbackFields {
        code: code.map(str::to_string),
        state: state.map(str::to_string),
        error: None,
        error_description: None,
    };
    assert_eq!(settle_callback(&given(Some("c"), Some("é")), "é"), Ok("c".to_string()));
    assert!(settle_callback(&given(Some("c"), Some("éx")), "é").is_err());
    assert!(constant_eq(b"", b""));
    assert!(constant_eq(b"ab", b"ab"));
    assert!(!constant_eq(b"ab", b"ac"));
    assert!(!constant_eq(b"ab", b"abc"));
}

#[test]
fn escapes_are_decoded() {
    for (value, decoded) in [
        ("", ""),
        ("a+b", "a b"),
        ("%41%62", "Ab"),
        ("%4", "%4"),
        ("%", "%"),
        ("a%", "a%"),
        ("%zz", "zz"),
        ("%4z", "4z"),
        ("%%41", "A"),
        ("%+5", "\u{5}"),
        ("%-5", "-5"),
        ("%C3%A9", "é"),
        ("%ff", "\u{fffd}"),
        ("é%é", "éé"),
    ] {
        assert!(decodable(value), "{value}");
        assert_eq!(urlencoding_decode(value), decoded, "{value}");
    }
    for value in ["%aé", "%日", "x%€y"] {
        assert!(!decodable(value), "{value}");
    }
    assert!(readable("GET /auth/callback?code=%41 HTTP/1.1"));
    assert!(!readable("GET /auth/callback?other=%日 HTTP/1.1"));
    assert!(readable("GET /elsewhere?other=%日 HTTP/1.1"));
    assert_eq!(unescape(b"%00+%fe"), [0, 32, 254]);
}

#[test]
fn pairs_are_read_as_std_reads_them() {
    for a in 0..128u8 {
        for b in 0..128u8 {
            let pair = format!("{}{}", a as char, b as char);
            assert_eq!(read_pair(a, b), u8::from_str_radix(&pair, 16).ok(), "{pair:?}");
        }
    }
}

#[test]
fn any_text_survives_escaping() {
    for text in ["abc", "a b&c=d?%+", "é日本\u{1f600}", "\r\n\0"] {
        let escaped: String = text.bytes().map(|byte| format!("%{byte:02x}")).collect();
        assert_eq!(urlencoding_decode(&escaped), text);
        let request = format!("GET /auth/callback?code={escaped}&state={escaped} HTTP/1.1\r\n");
        assert!(readable(&request));
        assert_eq!(callback_code(&request, text), Ok(text.to_string()));
    }
}

#[test]
fn lossy_text_replaces_what_is_no_text() {
    assert_eq!(lossy_text("é".as_bytes()), "é");
    assert_eq!(lossy_text(b"a\xffb"), "a\u{fffd}b");
}

#[test]
fn the_page_acts_on_what_happens() {
    assert!(matches!(
        page_step(&PageEvent::Idle { expired: false }, "s"),
        PageAction::Wait { millis: 200 }
    ));
    match page_step(&PageEvent::Idle { expired: true }, "s") {
        PageAction::Fail { last, message } => {
            assert_eq!(last, None);
            assert_eq!(message, "ChatGPT sign-in timed out before the browser returned.");
        }
        _ => panic!("no failure"),
    }
    assert!(matches!(page_step(&PageEvent::Broken, "s"), PageAction::Again));
    assert!(matches!(page_step(&PageEvent::Stranger, "s"), PageAction::Again));
    for noise in ["", "GET /favicon.ico HTTP/1.1\r\n"] {
        assert!(readable_event(&request(noise)));
        assert!(matches!(
            page_step(&request(noise), "s"),
            PageAction::Answer { page } if page == CALLBACK_NOT_FOUND
        ));
    }
    match page_step(&request("GET /auth/callback?code=c&state=s HTTP/1.1\r\n"), "s") {
        PageAction::Done { page, code } => assert_eq!((page, code.as_str()), (CALLBACK_OK, "c")),
        _ => panic!("not done"),
    }
    match page_step(&request("GET /auth/callback?code=c&state=t HTTP/1.1\r\n"), "s") {
        PageAction::Fail { last, message } => {
            assert_eq!(last, Some(CALLBACK_ERR));
            assert_eq!(message, "ChatGPT sign-in state did not match.");
        }
        _ => panic!("no failure"),
    }
    assert!(!readable_event(&request("GET /auth/callback?code=%日 HTTP/1.1\r\n")));
    assert!(readable_event(&PageEvent::Stranger));
    assert!(checked_page_step(&request("GET /auth/callback?code=%日 HTTP/1.1\r\n"), "s").is_none());
    assert!(matches!(
        checked_page_step(&request("GET /auth/callback?code=c&state=s HTTP/1.1\r\n"), "s"),
        Some(PageAction::Done { code, .. }) if code == "c"
    ));
    assert!(matches!(checked_page_step(&PageEvent::Broken, "s"), Some(PageAction::Again)));
}

#[test]
fn the_pages_are_complete_answers() {
    assert_eq!(CALLBACK_NOT_FOUND, "HTTP/1.1 404 Not Found\r\nContent-Length: 0\r\nConnection: close\r\n\r\n");
    assert!(CALLBACK_OK.starts_with("HTTP/1.1 200 OK\r\n"));
    assert!(CALLBACK_ERR.starts_with("HTTP/1.1 400 Bad Request\r\n"));
}

#[test]
fn setup_faults_are_told() {
    assert!(matches!(setup_error(SetupFault::Port), PkceError::PortBusy));
    for (fault, told) in [
        (SetupFault::Page, "Could not open a local sign-in callback."),
        (SetupFault::Browser, "Could not open the browser. Use the device-code sign-in instead."),
    ] {
        assert!(matches!(setup_error(fault), PkceError::Failed(message) if message == told));
    }
    assert!(matches!(PkceError::from("m".to_string()), PkceError::Failed(message) if message == "m"));
}

#[test]
fn codes_are_traded() {
    let request = exchange_authorization_code("c", "v", "u");
    assert_eq!(request.url, "https://auth.openai.com/oauth/token");
    assert_eq!(request.timeout_secs, 20);
    assert_eq!(request.headers, [("Accept".to_string(), "application/json".to_string())]);
    let expected: Vec<(String, String)> = [
        ("grant_type", "authorization_code"),
        ("code", "c"),
        ("redirect_uri", "u"),
        ("client_id", CODEX_CLIENT_ID),
        ("code_verifier", "v"),
    ]
    .iter()
    .map(|(name, value)| (name.to_string(), value.to_string()))
    .collect();
    assert_eq!(fields(request), expected);
    let good = answered(200, "{\"access_token\":\" a \",\"refresh_token\":\"r\",\"expires_in\":30}");
    assert_eq!(
        settle_exchange(&good.read(), 100).unwrap(),
        "{\"access_token\":\"a\",\"refresh_token\":\"r\",\"expires_at\":130,\"refresh_dead\":false}"
    );
    assert!(finish_exchange(&good).unwrap().starts_with("{\"access_token\":\"a\","));
    for (reply, message) in [
        (HttpReply::Unreachable, "Could not finish the ChatGPT sign-in."),
        (answered(303, ""), "ChatGPT auth redirected. Gopher did not follow it."),
        (answered(400, ""), "ChatGPT rejected the sign-in."),
        (answered(200, ""), "ChatGPT auth returned an unreadable response."),
        (answered(200, "{\"access_token\":\"a\"}"), "ChatGPT did not return a session."),
        (answered(200, "{\"access_token\":\"\",\"refresh_token\":\"r\"}"), "ChatGPT did not return a session."),
    ] {
        assert_eq!(finish_exchange(&reply).unwrap_err(), message);
    }
}

#[test]
fn device_codes_are_asked_for_and_read() {
    let request = request_device_code();
    assert_eq!(request.url, "https://auth.openai.com/api/accounts/deviceauth/usercode");
    assert!(request.headers.is_empty());
    assert_eq!(body(&request), "{\"client_id\":\"app_EMoamEEZ73f0CkXaXp7hrann\"}");
    let read = |interval: &str| {
        finish_device_code(&answered(
            200,
            &format!("{{\"user_code\":\" U \",\"device_auth_id\":\" d \"{interval}}}"),
        ))
        .unwrap()
    };
    let code = read(",\"interval\":9");
    assert_eq!((code.user_code.as_str(), code.device_auth_id.as_str()), ("U", "d"));
    assert_eq!(code.verification_url, "https://auth.openai.com/codex/device");
    assert_eq!(code.interval_secs, 9);
    assert_eq!(read(",\"interval\":1").interval_secs, 3);
    assert_eq!(read(",\"interval\":\"9\"").interval_secs, 5);
    assert_eq!(read("").interval_secs, 5);
    for (reply, message) in [
        (HttpReply::Unreachable, "Could not start device-code sign-in."),
        (answered(302, ""), "ChatGPT did not start a device-code sign-in."),
        (answered(200, "x"), "ChatGPT returned an unreadable device code."),
        (answered(200, "{\"user_code\":\"U\"}"), "ChatGPT returned an incomplete device code."),
        (answered(200, "{\"user_code\":\" \",\"device_auth_id\":\"d\"}"), "ChatGPT returned an incomplete device code."),
    ] {
        assert_eq!(finish_device_code(&reply).unwrap_err(), message);
    }
}

#[test]
fn device_codes_are_polled() {
    let request = poll_device_code("U", "d");
    assert_eq!(request.url, "https://auth.openai.com/api/accounts/deviceauth/token");
    assert_eq!(body(&request), "{\"device_auth_id\":\"d\",\"user_code\":\"U\"}");
    for pending in [
        answered(403, ""),
        answered(404, ""),
        answered(200, "{}"),
        answered(200, "{\"authorization_code\":\"c\",\"code_verifier\":\"\"}"),
    ] {
        assert!(finish_poll(&pending).unwrap().is_none());
    }
    let trade = finish_poll(&answered(200, "{\"authorization_code\":\"c\",\"code_verifier\":\"v\"}")).unwrap().unwrap();
    let sent = fields(trade);
    assert_eq!(sent[1].1, "c");
    assert_eq!(sent[2].1, "https://auth.openai.com/deviceauth/callback");
    assert_eq!(sent[4].1, "v");
    for (reply, message) in [
        (HttpReply::Unreachable, "Could not check the device-code sign-in."),
        (answered(500, ""), "ChatGPT device-code sign-in failed."),
        (answered(200, "x"), "ChatGPT returned an unreadable device-code response."),
    ] {
        assert_eq!(finish_poll(&reply).unwrap_err(), message);
    }
}
