use base64::engine::general_purpose::URL_SAFE_NO_PAD;
use base64::Engine;
use gopher_codex::catalog::CODEX_BASE;
use gopher_codex::digest::{hex_encode, hmac_sha256, new_session_key, session_hmac};
use gopher_codex::http::{HttpReply, Payload};
use gopher_codex::json::Json;
use gopher_codex::members::{object_text, read_object};
use gopher_codex::pinned::{check_address, require_request_url, UrlParts};
use gopher_codex::providers::{ApiStyle, Provider, ProviderHealthKind, ProviderKind};
use gopher_codex::redact::{cuttable, mask_secrets, redact};
use gopher_codex::refresh::{finish_refresh, import_codex_cli_secret, plan_refresh_at, refresh_codex_secret, settle_refresh, RefreshPlan};
use gopher_codex::secret::{codex_account_headers, codex_secret_from_tokens, jwt_expiry, now_secs, secret_from_tokens_at, secs_of_reading, CodexSecret, SecretFields};
use gopher_codex::subscription::{builtin_spec, codex_request_headers, connect_option, finish_probe, prepare, probe_builtin, ProbePlan, ProbedModels, ID_CODEX};

const KEY: [u8; 32] = [7; 32];

fn codex_provider(secret: &str) -> Provider {
    let mut provider = Provider::new("ChatGPT", CODEX_BASE, secret, ApiStyle::Responses);
    provider.kind = ProviderKind::OpenaiCodex;
    provider.id = ID_CODEX.to_string();
    provider
}

fn token(claims: &str) -> String {
    format!("head.{}.tail", URL_SAFE_NO_PAD.encode(claims))
}

fn answered(status: u16, body: &str) -> HttpReply {
    HttpReply::Answered { status, body: Some(body.as_bytes().to_vec()) }
}

fn pairs(list: &[(&str, &str)]) -> Vec<(String, String)> {
    list.iter().map(|(name, value)| (name.to_string(), value.to_string())).collect()
}

#[test]
fn pinned_hosts_reject_other_destinations() {
    assert!(require_request_url(ProviderKind::OpenaiCodex, "https://chatgpt.com/backend-api/codex/responses").is_ok());
    assert!(require_request_url(ProviderKind::OpenaiCodex, "https://evil.example/backend-api/codex/responses").is_err());
    assert!(require_request_url(ProviderKind::OpenaiCodex, "http://chatgpt.com/backend-api/codex/responses").is_err());
    assert!(require_request_url(ProviderKind::OpenaiCodex, "https://chatgpt.com/backend-api/other").is_err());
    assert!(require_request_url(ProviderKind::Custom, "https://chatgpt.com/backend-api/codex/responses").is_err());
}

#[test]
fn codex_requests_use_responses_and_hide_the_conversation_id() {
    let secret = "{ \"access_token\": \"access-token-value\", \"refresh_token\": \"r\" }";
    let provider = codex_provider(secret);
    let key = new_session_key();
    let prepared = prepare(&provider, " gpt-5.5 ", Some("conversation-42"), None, &key).unwrap();
    assert_eq!(prepared.api_base, CODEX_BASE);
    assert_eq!(prepared.style, ApiStyle::Responses);
    assert_eq!(prepared.wire_model, "gpt-5.5");
    assert_eq!(prepared.token, "access-token-value");
    assert!(prepared.no_redirect);
    assert!(prepared.extra_headers.iter().any(|(name, value)| name == "originator" && value == "gopher"));
    let session = prepared
        .extra_headers
        .iter()
        .find(|(name, _)| name == "session_id")
        .map(|(_, value)| value.clone())
        .unwrap();
    assert!(!session.contains("conversation-42"));
    assert_eq!(session.len(), 64);
}

#[test]
fn redact_removes_secrets_from_errors() {
    let text = redact("failed bearer sk-live-secret-value", &["sk-live-secret-value"]);
    assert!(!text.contains("sk-live"));
    assert!(text.contains("[redacted]"));
}

#[test]
fn a_plain_api_key_is_not_a_codex_sign_in() {
    assert!(prepare(&codex_provider("sk-not-a-codex-session"), "gpt-5.5", None, None, &KEY).is_err());
}

#[test]
fn refused_addresses_say_why() {
    let why = |kind, url| require_request_url(kind, url).unwrap_err();
    assert_eq!(why(ProviderKind::OpenaiCodex, "no address"), "Refused a non-URL provider request.");
    assert_eq!(why(ProviderKind::OpenaiCodex, "http://chatgpt.com/"), "Built-in providers only use HTTPS.");
    let host = "Refused to send this credential to an unexpected host.";
    assert_eq!(why(ProviderKind::OpenaiCodex, "https://chatgpt.com.evil/backend-api/codex/x"), host);
    assert_eq!(why(ProviderKind::OpenaiCodex, "https://chatgpt.com@evil/backend-api/codex/x"), host);
    assert_eq!(why(ProviderKind::OpenaiCodex, "https://chatgpt.com/backend-api/codex"), host);
    assert_eq!(why(ProviderKind::OpenaiCodex, "https://chatgpt.com/backend-api/codex/../other"), host);
    assert_eq!(why(ProviderKind::Retired, "https://chatgpt.com/backend-api/codex/x"), host);
    assert!(require_request_url(ProviderKind::OpenaiCodex, "HTTPS://CHATGPT.com/backend-api/codex/x").is_ok());
    let parts = UrlParts {
        scheme: "https".to_string(),
        host: None,
        path: "/backend-api/codex/".to_string(),
    };
    assert_eq!(check_address(ProviderKind::OpenaiCodex, Some(&parts)).unwrap_err(), host);
}

#[test]
fn one_provider_is_built_in() {
    let spec = builtin_spec(ProviderKind::OpenaiCodex).unwrap();
    assert_eq!((spec.id, spec.name, spec.base), (ID_CODEX, "ChatGPT", CODEX_BASE));
    assert_eq!((spec.kind, spec.api_style), (ProviderKind::OpenaiCodex, ApiStyle::Responses));
    assert!(builtin_spec(ProviderKind::Custom).is_none());
    assert!(builtin_spec(ProviderKind::Retired).is_none());
}

#[test]
fn custom_providers_go_to_their_own_base() {
    let mut provider = Provider::new("Mine", "http://localhost:1", "key", ApiStyle::Chat);
    provider.allow_insecure_tls = true;
    let prepared = prepare(&provider, " m ", Some("c"), Some("http://localhost:1/v1"), &KEY).unwrap();
    assert_eq!(prepared.api_base, "http://localhost:1/v1");
    assert_eq!(prepared.token, "key");
    assert_eq!(prepared.style, ApiStyle::Chat);
    assert!(prepared.allow_insecure_tls);
    assert!(prepared.extra_headers.is_empty());
    assert!(!prepared.no_redirect);
    assert_eq!(prepared.kind, ProviderKind::Custom);
    assert_eq!(prepared.wire_model, " m ");
    assert_eq!(prepare(&provider, "m", None, None, &KEY).unwrap_err(), "Invalid model API base.");
}

#[test]
fn preparing_says_what_is_wrong() {
    let mut provider = codex_provider("");
    assert_eq!(
        prepare(&provider, "m", None, None, &KEY).unwrap_err(),
        "Sign in to ChatGPT to use Codex models."
    );
    provider.allow_insecure_tls = true;
    assert_eq!(
        prepare(&provider, "m", None, None, &KEY).unwrap_err(),
        "Built-in providers cannot skip certificate checks."
    );
    provider.kind = ProviderKind::Retired;
    assert_eq!(prepare(&provider, "m", None, None, &KEY).unwrap_err(), "Unknown built-in provider.");
    for secret in [
        "{}",
        "{\"access_token\":\" \",\"refresh_token\":\"r\"}",
        "{\"access_token\":\"a\",\"refresh_token\":\"r\",\"refresh_dead\":true}",
        "{\"access_token\":\"a\"}",
        "{\"access_token\":\"a\",\"refresh_token\":\"r\",\"expires_at\":-1}",
    ] {
        assert_eq!(
            prepare(&codex_provider(secret), "m", None, None, &KEY).unwrap_err(),
            "Sign in to ChatGPT again."
        );
    }
}

#[test]
fn request_headers_are_exact() {
    let access = token(
        "{\"https://api.openai.com/auth\":{\"chatgpt_account_id\":\" acc \",\"chatgpt_compute_residency\":\"eu\"}}",
    );
    let stored = format!("{{\"access_token\":\"{access}\",\"refresh_token\":\"r\"}}");
    let (sent, headers) = codex_request_headers(&stored, Some(" conversation-42 "), &KEY).unwrap();
    assert_eq!(sent, access);
    assert_eq!(
        headers,
        pairs(&[
            ("originator", "gopher"),
            ("ChatGPT-Account-ID", "acc"),
            ("x-openai-internal-codex-residency", "eu"),
            ("session_id", "f9e2e359072b2d921f33b54bd882548ea7bd77477347eee9f5f33b9c168ad920"),
        ])
    );
    let (_, headers) = codex_request_headers(&stored, Some("  "), &KEY).unwrap();
    assert_eq!(headers.len(), 3);
    let (_, headers) = codex_request_headers(&stored, None, &KEY).unwrap();
    assert_eq!(headers.len(), 3);
}

#[test]
fn account_headers_follow_the_claims() {
    assert_eq!(codex_account_headers("plain"), pairs(&[]));
    assert_eq!(codex_account_headers("a.!!!.c"), pairs(&[]));
    assert_eq!(
        codex_account_headers(&token("{\"chatgpt_account_id\":\"top\"}")),
        pairs(&[("ChatGPT-Account-ID", "top")])
    );
    assert_eq!(
        codex_account_headers(&token(
            "{\"chatgpt_account_id\":\" \",\"chatgpt_data_residency\":\"us\",\"chatgpt_compute_residency\":\"eu\"}"
        )),
        pairs(&[("x-openai-internal-codex-residency", "us")])
    );
    assert_eq!(
        codex_account_headers(&token(
            "{\"chatgpt_data_residency\":\" \",\"chatgpt_compute_residency\":\"eu\"}"
        )),
        pairs(&[])
    );
}

#[test]
fn digests_match_the_published_values() {
    assert_eq!(
        hex_encode(&hmac_sha256(&[0x0b; 20], b"Hi There")),
        "b0344c61d8db38535ca8afceaf0bf12b881dc200c9833da726e9376c2e32cff7"
    );
    assert_eq!(
        hex_encode(&hmac_sha256(&[0xaa; 131], b"Test Using Larger Than Block-Size Key - Hash Key First")),
        "60e431591ee0b67f0d8a26aacbf5b77f8e0bc6213728c5140546040f0ee37f54"
    );
    assert_eq!(hex_encode(&[0x00, 0x9f, 0xa0, 0xff]), "009fa0ff");
    assert_eq!(session_hmac(&KEY, "conversation-42"), "f9e2e359072b2d921f33b54bd882548ea7bd77477347eee9f5f33b9c168ad920");
    assert_eq!(new_session_key().len(), 32);
    assert_ne!(new_session_key(), vec![0u8; 32]);
    assert_ne!(new_session_key(), new_session_key());
}

#[test]
fn stored_sign_ins_read_back() {
    let stored = secret_from_tokens_at(" a\"\\\u{e9}\n ", "\tr ", Some(60), 1000);
    assert_eq!(
        stored,
        "{\"access_token\":\"a\\\"\\\\\u{e9}\",\"refresh_token\":\"r\",\"expires_at\":1060,\"refresh_dead\":false}"
    );
    let secret = CodexSecret::parse(&format!(" {stored}\n")).ok().unwrap();
    assert_eq!(secret.access_token, "a\"\\\u{e9}");
    assert_eq!(secret.refresh_token, "r");
    assert_eq!((secret.expires_at, secret.refresh_dead), (1060, false));
    assert_eq!(secret.to_text(), stored);
    let array = CodexSecret::parse("[\"a\",\"r\",5]").ok().unwrap();
    assert_eq!((array.access_token.as_str(), array.expires_at), ("a", 5));
    assert!(CodexSecret::parse("[\"a\"]").is_err());
    assert!(CodexSecret::parse("[\"a\",\"r\",5,true,1]").is_err());
    assert!(CodexSecret::parse("[\"a\",\"r\",null]").is_err());
    assert!(CodexSecret::parse("[\"a\",5]").is_err());
    assert!(CodexSecret::parse("[]").is_err());
}

#[test]
fn sign_ins_are_read_member_by_member() {
    let read = |members: &str| {
        CodexSecret::parse(&format!("{{\"access_token\":\"a\",\"refresh_token\":\"r\"{members}}}"))
    };
    let deep = format!(",\"x\":{}{}", "[".repeat(1000), "]".repeat(1000));
    for ignored in [
        "",
        ",\"x\":1e999",
        ",\"x\":\"\\ud800\"",
        ",\"x\":{\"access_token\":\"b\"}",
        ",\"x\":1,\"x\":2",
        ",\"x\" \n:\t-0.5e+3 \r",
        ",\"Access_token\":5",
        deep.as_str(),
    ] {
        let secret = read(ignored).ok().unwrap();
        assert_eq!((secret.access_token.as_str(), secret.refresh_token.as_str()), ("a", "r"), "{ignored}");
        assert_eq!((secret.expires_at, secret.refresh_dead), (0, false));
    }
    let given = read(",\"refresh_dead\":true,\"\\u0065xpires_at\":7").ok().unwrap();
    assert_eq!((given.expires_at, given.refresh_dead), (7, true));
    for refused in [
        ",\"access_token\":\"a\"",
        ",\"refresh_token\":\"r\"",
        ",\"\\u0061ccess_token\":\"a\"",
        ",\"expires_at\":1,\"expires_at\":1",
        ",\"refresh_dead\":false,\"refresh_dead\":false",
        ",\"expires_at\":null",
        ",\"expires_at\":1.0",
        ",\"expires_at\":-0",
        ",\"expires_at\":18446744073709551616",
        ",\"refresh_dead\":0",
        ",\"\\ud800\":1",
        ",\"x\":01",
        ",\"x\":1x",
        ",\"x\":[1",
        ",\"x\":\"\\q\"",
        ",\"x\":",
        ",\"x\"",
        ",\"x\",1",
        ",x:1",
        ",",
        ",,\"x\":1",
        " \"x\":1",
        "}",
        "}{",
    ] {
        assert_eq!(read(refused).err().unwrap(), "Sign in to ChatGPT again.", "{refused}");
    }
    for text in ["{", "{}", "{ }", "{,}", "\"a\"", "null", "{\"access_token\":\"a\",\"refresh_token\":\"\\ud800\"}"] {
        assert_eq!(CodexSecret::parse(text).err().unwrap(), "Sign in to ChatGPT again.", "{text}");
    }
}

#[test]
fn objects_are_read_member_by_member() {
    let members = read_object(b" { \"a\" : [1] , \"a\":1e999,\"b\":{} } ").unwrap();
    let read: Vec<(&str, Option<String>)> =
        members.iter().map(|(key, value)| (key.as_str(), value.as_ref().map(Json::to_text))).collect();
    assert_eq!(read, [("a", Some("[1]".to_string())), ("a", None), ("b", Some("{}".to_string()))]);
    assert!(read_object(b"{}").unwrap().is_empty());
    assert!(read_object(b" {\n} ").unwrap().is_empty());
    for text in ["", "[]", "{} x", "{\"a\":1} ,", "{\"a\":1,}", "{\"a\" 1}", "{1:1}"] {
        assert!(read_object(text.as_bytes()).is_none(), "{text}");
    }
    let mut fields = SecretFields::none();
    assert!(fields.take("other", None));
    assert!(!fields.take("access_token", None));
    assert!(fields.take("access_token", Some(&Json::text("a"))));
    assert!(!fields.take("access_token", Some(&Json::text("b"))));
    assert_eq!(fields.access_token.as_deref(), Some("a"));
    assert!(fields.finish().is_none());
    let written = object_text(&vec![
        ("k\"".to_string(), Json::text("v\n")),
        ("n".to_string(), Json::unsigned(u64::MAX)),
        ("k\"".to_string(), Json::Bool(true)),
    ]);
    assert_eq!(written, "{\"k\\\"\":\"v\\n\",\"n\":18446744073709551615,\"k\\\"\":true}");
    let back = read_object(written.as_bytes()).unwrap();
    assert_eq!(back.len(), 3);
    assert_eq!(back[0].0, "k\"");
    assert_eq!(back[0].1.as_ref().unwrap().as_str(), Some("v\n"));
    assert_eq!(back[1].1.as_ref().unwrap().as_u64(), Some(u64::MAX));
    assert_eq!(back[2].1.as_ref().unwrap().as_bool(), Some(true));
    assert_eq!(object_text(&vec![]), "{}");
}

#[test]
fn expiry_comes_from_the_reply_or_the_token() {
    let access = token("{\"exp\":5000}");
    assert_eq!(jwt_expiry(&access), Some(5000));
    assert_eq!(jwt_expiry("x"), None);
    assert!(secret_from_tokens_at(&access, "r", None, 9).contains("\"expires_at\":5000"));
    assert!(secret_from_tokens_at(&access, "r", Some(1), 9).contains("\"expires_at\":10"));
    assert!(secret_from_tokens_at("x", "r", None, 9).contains("\"expires_at\":0"));
    assert!(secret_from_tokens_at("x", "r", Some(u64::MAX), 9).contains(&format!("\"expires_at\":{}", u64::MAX)));
    let now = now_secs();
    let made = CodexSecret::parse(&codex_secret_from_tokens("a", "r", Some(3600))).ok().unwrap();
    assert!(made.expires_at >= now + 3600 && made.expires_at <= now + 3700);
    assert!(!made.expiring());
    assert!(made.expiring_at(made.expires_at - 120));
    assert!(!made.expiring_at(made.expires_at - 121));
}

fn settled(plan: Result<RefreshPlan, String>) -> (String, bool) {
    match plan {
        Ok(RefreshPlan::Settled(refresh)) => (refresh.secret_json, refresh.changed),
        _ => panic!("not settled"),
    }
}

fn asked(plan: Result<RefreshPlan, String>) -> CodexSecret {
    match plan {
        Ok(RefreshPlan::Ask { secret, request }) => {
            assert_eq!(request.url, "https://auth.openai.com/oauth/token");
            assert_eq!(request.headers, pairs(&[("Accept", "application/json")]));
            assert_eq!(request.timeout_secs, 20);
            match request.payload {
                Payload::Form(fields) => assert_eq!(
                    fields,
                    pairs(&[
                        ("grant_type", "refresh_token"),
                        ("refresh_token", secret.refresh_token.as_str()),
                        ("client_id", "app_EMoamEEZ73f0CkXaXp7hrann"),
                    ])
                ),
                _ => panic!("not a form"),
            }
            secret
        }
        _ => panic!("nothing asked"),
    }
}

#[test]
fn fresh_sign_ins_are_left_alone() {
    let stored = "  {\"refresh_token\":\"r\",\"access_token\":\"a\",\"expires_at\":1000}";
    assert_eq!(settled(plan_refresh_at(stored, 879)), (stored.to_string(), false));
    let never = "{\"refresh_token\":\"r\",\"access_token\":\"a\"}";
    assert_eq!(settled(refresh_codex_secret(never)), (never.to_string(), false));
    asked(plan_refresh_at(stored, 880));
    asked(plan_refresh_at(stored, u64::MAX));
    asked(refresh_codex_secret(stored));
}

#[test]
fn refused_sign_ins_are_marked_dead() {
    let stored = "{\"refresh_token\":\" r \",\"access_token\":\"\"}";
    for status in [400, 401, 499] {
        let secret = asked(plan_refresh_at(stored, 1));
        let refresh = finish_refresh(secret, &answered(status, "")).unwrap();
        assert!(refresh.changed);
        assert_eq!(
            refresh.secret_json,
            "{\"access_token\":\"\",\"refresh_token\":\" r \",\"expires_at\":0,\"refresh_dead\":true}"
        );
        assert_eq!(plan_refresh_at(&refresh.secret_json, 1).err().unwrap(), "Sign in to ChatGPT again.");
        assert!(codex_request_headers(&refresh.secret_json, None, &KEY).is_err());
    }
    let (stored, changed) = settled(plan_refresh_at("{\"refresh_token\":\" \",\"access_token\":\"\"}", 1));
    assert!(changed);
    assert_eq!(plan_refresh_at(&stored, 1).err().unwrap(), "Sign in to ChatGPT again.");
    assert_eq!(plan_refresh_at("", 1).err().unwrap(), "Sign in to ChatGPT to use Codex models.");
    assert_eq!(plan_refresh_at("{", 1).err().unwrap(), "Sign in to ChatGPT again.");
}

#[test]
fn renewals_take_what_the_service_sends() {
    let stored = "{\"refresh_token\":\"old\",\"access_token\":\"a\",\"expires_at\":1}";
    let renew = |reply: &HttpReply| {
        settle_refresh(asked(plan_refresh_at(stored, 5)), &reply.read(), 5).map(|refresh| refresh.secret_json)
    };
    assert_eq!(
        renew(&answered(200, "{\"access_token\":\" b \",\"refresh_token\":\" new \",\"expires_in\":10}")).unwrap(),
        "{\"access_token\":\"b\",\"refresh_token\":\"new\",\"expires_at\":15,\"refresh_dead\":false}"
    );
    assert_eq!(
        renew(&answered(204, "{\"access_token\":\"b\",\"refresh_token\":\" \",\"expires_in\":\"10\"}")).unwrap(),
        "{\"access_token\":\"b\",\"refresh_token\":\"old\",\"expires_at\":3605,\"refresh_dead\":false}"
    );
    for (reply, message) in [
        (HttpReply::Unreachable, "Could not refresh the ChatGPT sign-in."),
        (answered(302, ""), "ChatGPT auth redirected. Gopher did not follow it."),
        (answered(500, ""), "Could not refresh the ChatGPT sign-in."),
        (answered(200, "<html>"), "ChatGPT auth returned an unreadable response."),
        (HttpReply::Answered { status: 200, body: None }, "ChatGPT auth returned an unreadable response."),
        (answered(200, "{}"), "ChatGPT auth did not return an access token."),
        (answered(200, "{\"access_token\":\"  \"}"), "ChatGPT auth did not return an access token."),
    ] {
        assert_eq!(renew(&reply).unwrap_err(), message);
    }
}

#[test]
fn codex_cli_sign_ins_are_taken_over() {
    let access = token("{\"exp\":7}");
    let nested = format!("{{\"tokens\":{{\"access_token\":\" {access} \",\"refresh_token\":\"r\"}}}}");
    assert_eq!(
        import_codex_cli_secret(Some(&nested)).unwrap(),
        format!("{{\"access_token\":\"{access}\",\"refresh_token\":\"r\",\"expires_at\":7,\"refresh_dead\":false}}")
    );
    assert!(import_codex_cli_secret(Some("{\"access_token\":\"a\",\"refresh_token\":\"r\"}")).is_ok());
    for (file, message) in [
        (None, "No Codex CLI credentials were found in the Codex home folder."),
        (Some("{"), "Codex CLI credentials could not be read."),
        (Some("{\"tokens\":{\"access_token\":\"a\"}}"), "Codex CLI credentials did not include a ChatGPT session."),
        (
            Some("{\"tokens\":null,\"access_token\":\"a\",\"refresh_token\":\"r\"}"),
            "Codex CLI credentials did not include a ChatGPT session.",
        ),
    ] {
        assert_eq!(import_codex_cli_secret(file).unwrap_err(), message);
    }
}

#[test]
fn redacted_text_is_exact() {
    assert_eq!(redact("a 12345678 b", &[" 12345678 "]), "a [redacted] b");
    assert_eq!(redact("a 1234567 b", &["1234567"]), "a 1234567 b");
    assert_eq!(redact("äöüß!", &["äöüß"]), "[redacted]!");
    assert_eq!(redact("first-key second-key", &["first-key", "second-key"]), "[redacted] [redacted]");
    assert_eq!(redact("kept", &[]), "kept");
    assert_eq!(redact(&"x".repeat(501), &[]), "x".repeat(500));
    assert_eq!(redact(&"x".repeat(500), &[]), "x".repeat(500));
    let odd = format!("x{}", "é".repeat(300));
    assert!(!cuttable(&mask_secrets(&odd, &[])));
    assert!(cuttable(&mask_secrets(&"é".repeat(300), &[])));
    assert_eq!(redact(&"é".repeat(300), &[]), "é".repeat(250));
    // Characters of the mark can complete a secret that starts with them.
    assert_eq!(redact("d]abcdefgabcdefg", &["d]abcdefg"]), "[redacted]abcdefg");
}

#[test]
fn missing_sign_ins_are_offered() {
    let option = connect_option(&codex_provider(" ")).unwrap();
    assert_eq!(option.id, format!("connect|{ID_CODEX}"));
    assert_eq!((option.model.as_str(), option.base.as_str(), option.port), ("", CODEX_BASE, 443));
    assert_eq!((option.label.as_str(), option.provider_name.as_str()), ("Connect ChatGPT", "ChatGPT"));
    assert_eq!(option.provider_id, ID_CODEX);
    assert_eq!(option.connect_kind.as_deref(), Some(ProviderKind::OpenaiCodex.as_str()));
    assert!(!option.ready && !option.thinking_supported && option.thinking_efforts.is_empty());
    assert!(connect_option(&codex_provider("x")).is_none());
    assert!(connect_option(&Provider::new("n", "b", "", ApiStyle::Chat)).is_none());
}

#[test]
fn probes_ask_the_pinned_catalog() {
    let access = token("{\"chatgpt_account_id\":\"acc\"}");
    let stored = format!("{{\"access_token\":\"{access}\",\"refresh_token\":\"r\"}}");
    match probe_builtin(ProviderKind::OpenaiCodex, &stored) {
        ProbePlan::Ask(request) => {
            assert_eq!(request.url, "https://chatgpt.com/backend-api/codex/models?client_version=1.0.0");
            assert!(require_request_url(ProviderKind::OpenaiCodex, &request.url).is_ok());
            assert_eq!(
                request.headers,
                pairs(&[
                    ("Accept", "application/json"),
                    ("Authorization", format!("Bearer {access}").as_str()),
                    ("originator", "gopher"),
                    ("ChatGPT-Account-ID", "acc"),
                ])
            );
            assert!(matches!(request.payload, Payload::Empty));
            assert_eq!(request.timeout_secs, 10);
        }
        ProbePlan::Settled { .. } => panic!("settled"),
    }
    for (kind, stored, health_kind, message) in [
        (ProviderKind::OpenaiCodex, "", ProviderHealthKind::Auth, "Sign in to ChatGPT to list Codex models."),
        (ProviderKind::OpenaiCodex, "key", ProviderHealthKind::Auth, "Sign in to ChatGPT to list Codex models."),
        (ProviderKind::Custom, "", ProviderHealthKind::Error, "Not a built-in provider."),
        (ProviderKind::Retired, "", ProviderHealthKind::Error, "Not a built-in provider."),
    ] {
        match probe_builtin(kind, stored) {
            ProbePlan::Settled { health, models } => {
                assert!(!health.ok && models.is_empty());
                assert_eq!(health.kind, health_kind);
                assert_eq!(health.error.as_deref(), Some(message));
            }
            ProbePlan::Ask(_) => panic!("asked"),
        }
    }
}

#[test]
fn probes_read_the_reply() {
    let ready = finish_probe(&answered(200, "{\"models\":[{\"slug\":\"gpt\"}]}"));
    assert!(ready.health.ok);
    assert_eq!(ready.health.kind, ProviderHealthKind::Ready);
    assert_eq!(ready.health.model.as_deref(), Some("gpt"));
    assert!(matches!(ready.models, ProbedModels::Listed(models) if models.len() == 1));
    for (reply, kind, message, recorded) in [
        (HttpReply::Unreachable, ProviderHealthKind::Waiting, "Codex catalog is unavailable.", true),
        (answered(301, ""), ProviderHealthKind::Error, "Codex catalog redirected. Gopher did not follow it.", true),
        (answered(200, "{}"), ProviderHealthKind::Empty, "ChatGPT returned no Codex models.", false),
        (answered(200, "no json"), ProviderHealthKind::Empty, "ChatGPT returned no Codex models.", false),
        (answered(401, ""), ProviderHealthKind::Auth, "Sign in to ChatGPT again.", false),
        (answered(403, ""), ProviderHealthKind::Waiting, "Codex catalog is unavailable.", true),
    ] {
        let outcome = finish_probe(&reply);
        assert!(!outcome.health.ok);
        assert_eq!(outcome.health.kind, kind);
        assert_eq!(outcome.health.error.as_deref(), Some(message));
        match outcome.models {
            ProbedModels::Recorded => assert!(recorded),
            ProbedModels::Listed(models) => assert!(!recorded && models.is_empty()),
        }
    }
}

#[test]
fn json_values_keep_their_numbers() {
    let value = Json::parse("{\"b\":[18446744073709551615,-1,1.5,true,null],\"a\":\"x\",\"a\":\"y\"}").unwrap();
    assert_eq!(value.to_text(), "{\"a\":\"y\",\"b\":[18446744073709551615,-1,1.5,true,null]}");
    assert_eq!(value.copy().to_text(), value.to_text());
    assert_eq!(value.text_at("a"), Some("y"));
    let items = value.items_at("b").unwrap();
    assert_eq!(items[0].as_u64(), Some(u64::MAX));
    assert_eq!(items[0].as_i64(), None);
    assert_eq!(items[1].as_i64(), Some(-1));
    assert_eq!(items[1].as_u64(), None);
    assert_eq!(items[2].as_u64(), None);
    assert!(Json::parse("{").is_none());
    assert!(Json::parse_bytes(b"[\xff]").is_none());
    assert_eq!(Json::parse_bytes(b"[1]").unwrap().to_text(), "[1]");
}

#[test]
fn the_clock_is_read_in_seconds() {
    let clock = || {
        std::time::SystemTime::now().duration_since(std::time::UNIX_EPOCH).unwrap().as_secs()
    };
    let before = clock();
    let now = now_secs();
    assert!(before <= now && now <= clock());
    assert_eq!(secs_of_reading(None), 0);
    assert_eq!(secs_of_reading(Some(1_700_000_000)), 1_700_000_000);
}
