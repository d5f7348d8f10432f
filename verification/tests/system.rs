use gopher_codex::system::{is_openable_external_url, url_stays_in_webview};
use gopher_codex::text;

#[test]
fn openable_urls() {
    assert!(is_openable_external_url("https://x.ai/news"));
    assert!(is_openable_external_url("HTTPS://x.ai/news"));
    assert!(is_openable_external_url("http://127.0.0.1:8787/"));
    assert!(is_openable_external_url("mailto:hi@example.com"));
    assert!(!is_openable_external_url("javascript:alert(1)"));
    assert!(!is_openable_external_url("file:///etc/passwd"));
    assert!(!is_openable_external_url("https://x.ai/news\n-a"));
}

#[test]
fn webview_origin_check() {
    let origin = "http://127.0.0.1:8787";
    assert!(url_stays_in_webview(
        origin,
        "http://127.0.0.1:8787/settings"
    ));
    assert!(url_stays_in_webview(origin, "http://127.0.0.1:8787"));
    assert!(!url_stays_in_webview(origin, "https://x.ai/blog"));
    assert!(!url_stays_in_webview(origin, "http://127.0.0.1:8787.evil"));
}

#[test]
fn openable_urls_at_the_edges() {
    assert!(is_openable_external_url("  https://x.ai \n"));
    assert!(!is_openable_external_url(""));
    assert!(!is_openable_external_url("   "));
    assert!(!is_openable_external_url("https"));
    assert!(!is_openable_external_url("https://x.ai/a b"));
    assert!(!is_openable_external_url("https://x.ai/\u{7f}"));
    assert!(!is_openable_external_url(":"));
    assert!(!is_openable_external_url("about:blank"));
}

#[test]
fn webview_origin_at_the_edges() {
    let origin = "http://127.0.0.1:8787//";
    assert!(url_stays_in_webview(origin, ""));
    assert!(url_stays_in_webview(origin, "about:blank"));
    assert!(url_stays_in_webview(origin, "about:srcdoc"));
    assert!(url_stays_in_webview(origin, " http://127.0.0.1:8787?q "));
    assert!(url_stays_in_webview(origin, "http://127.0.0.1:8787#f"));
    assert!(!url_stays_in_webview(origin, "http://127.0.0.1:87871/"));
    assert!(!url_stays_in_webview(origin, "http://127.0.0.1"));
}

#[test]
fn character_classes_are_those_of_std() {
    for c in '\0'..=char::MAX {
        assert_eq!(text::white_space(c), c.is_whitespace(), "{c:?}");
        assert_eq!(text::control(c), c.is_control(), "{c:?}");
        assert_eq!(text::lower_ascii(c), c.to_ascii_lowercase(), "{c:?}");
    }
}

#[test]
fn text_functions_agree_with_std() {
    let samples = [
        "", " ", "a", "  a b  ", "a,b,,c", ",", "a\r\nb", "\r\n", "a\r", "Ärger\u{3000}", "aaaa", "abcabc", "x=y=z",
        "\u{85}t\u{a0}", "日本 語",
    ];
    for s in samples {
        assert_eq!(text::trim(s), s.trim());
        assert_eq!(text::split(s, ','), s.split(',').collect::<Vec<_>>());
        assert_eq!(text::words(s), s.split_whitespace().collect::<Vec<_>>());
        assert_eq!(text::first_line(s), s.lines().next().unwrap_or(""));
        assert_eq!(text::split_once(s, '='), s.split_once('='));
        assert_eq!(text::trim_trailing(s, 'a'), s.trim_end_matches('a'));
        assert_eq!(text::strip_prefix(s, "a"), s.strip_prefix("a"));
        assert_eq!(text::to_lower(s), s.to_ascii_lowercase());
        assert_eq!(text::replace(s, "aa", "-"), s.replace("aa", "-"));
        assert_eq!(text::replace(s, "abc", "[abc]"), s.replace("abc", "[abc]"));
        for t in samples {
            assert_eq!(text::same(s, t), s == t);
            assert_eq!(text::before(s, t), s < t);
            assert_eq!(text::same_ignoring_case(s, t), s.eq_ignore_ascii_case(t));
        }
    }
    for n in [0u64, 9, 10, 1455, u64::MAX] {
        assert_eq!(text::decimal_text(n), n.to_string());
    }
}
