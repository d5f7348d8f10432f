//! Which addresses are handed to the system, and which stay in the window.

use vstd::prelude::*;
use crate::text;
use crate::text::{after_prefix, cut, lowered, trimmed, without_trailing};

verus! {

/// Whether every character of `s` is neither a control character nor white space.
pub open spec fn is_solid(s: Seq<char>) -> bool {
    forall|i: int| 0 <= i < s.len() ==> !text::is_control(#[trigger] s[i]) && !text::is_space(s[i])
}

/// Whether a scheme is one that the system may open: `http`, `https` or `mailto`, in any case.
pub open spec fn is_openable_scheme(scheme: Seq<char>) -> bool {
    lowered(scheme) == lowered("http"@) || lowered(scheme) == lowered("https"@) || lowered(scheme)
        == lowered("mailto"@)
}

/// Whether an address is safe to hand to the system: trimmed, it is an `http`, `https` or
/// `mailto` address without control characters and white space.
pub open spec fn is_openable(url: Seq<char>) -> bool {
    let url = trimmed(url);
    url.len() > 0 && is_solid(url) && cut(url, ':') is Some && is_openable_scheme((cut(url, ':')->0).0)
}

fn solid(s: &str) -> (r: bool)
    ensures
        r == is_solid(s@),
{
    let chars = text::chars_of(s);
    let mut i: usize = 0;
    while i < chars.len()
        invariant
            chars@ == s@,
            i <= chars@.len(),
            forall|j: int|
                0 <= j < i ==> !text::is_control(#[trigger] s@[j]) && !text::is_space(s@[j]),
        decreases chars@.len() - i,
    {
        let c: char = chars[i];
        if text::control(c) || text::white_space(c) {
            proof {
                assert(s@[i as int] == c);
            }
            return false;
        }
        i += 1;
    }
    true
}

/// Whether an address is safe to hand to the system.
pub fn is_openable_external_url(url: &str) -> (r: bool)
    ensures
        r == is_openable(url@),
{
    let url = text::trim(url);
    if url.is_empty() || !solid(url) {
        return false;
    }
    match text::split_once(url, ':') {
        Some((scheme, _)) => text::same_ignoring_case(scheme, "http") || text::same_ignoring_case(
            scheme,
            "https",
        ) || text::same_ignoring_case(scheme, "mailto"),
        None => false,
    }
}

/// Whether what follows the origin of an address leaves the origin as it is: nothing, or a path,
/// a query or a fragment.
pub open spec fn ends_origin(rest: Seq<char>) -> bool {
    rest.len() == 0 || rest[0] == '/' || rest[0] == '?' || rest[0] == '#'
}

/// Whether an address stays in the window: it is blank, an `about:` address, or one of the
/// origin of the application.
pub open spec fn is_local(app_origin: Seq<char>, url: Seq<char>) -> bool {
    let url = trimmed(url);
    let origin = without_trailing(app_origin, '/');
    ||| url.len() == 0
    ||| "about:"@.is_prefix_of(url)
    ||| after_prefix(url, origin) is Some && ends_origin(after_prefix(url, origin)->0)
}

/// Whether an address stays in the window; everything else belongs in the browser.
pub fn url_stays_in_webview(app_origin: &str, url: &str) -> (r: bool)
    ensures
        r == is_local(app_origin@, url@),
{
    let url = text::trim(url);
    if url.is_empty() || text::starts_with(url, "about:") {
        return true;
    }
    let origin = text::trim_trailing(app_origin, '/');
    let rest = match text::strip_prefix(url, origin) {
        Some(rest) => rest,
        None => {
            return false;
        },
    };
    let chars = text::chars_of(rest);
    chars.len() == 0 || chars[0] == '/' || chars[0] == '?' || chars[0] == '#'
}

// ---------------------------------------------------------------------------
// Laws
// ---------------------------------------------------------------------------

/// Another host, or another port, does not pass for the origin of the application by starting
/// with its name.
pub proof fn law_longer_hosts_are_not_local(app_origin: Seq<char>, url: Seq<char>)
    requires
        without_trailing(app_origin, '/').is_prefix_of(trimmed(url)),
        !ends_origin(trimmed(url).skip(without_trailing(app_origin, '/').len() as int)),
        !"about:"@.is_prefix_of(trimmed(url)),
    ensures
        !is_local(app_origin, url),
{
    let rest = trimmed(url).skip(without_trailing(app_origin, '/').len() as int);
    assert(rest.len() > 0);
}

/// What is handed to the system is one word, and starts with one of the three schemes.
pub proof fn law_opened_addresses_are_plain(url: Seq<char>)
    requires
        is_openable(url),
    ensures
        is_solid(trimmed(url)),
        exists|scheme: Seq<char>|
            #[trigger] is_openable_scheme(scheme) && (scheme + seq![':']).is_prefix_of(trimmed(url)),
{
    let u = trimmed(url);
    let scheme = (cut(u, ':')->0).0;
    let i = text::first_index(u, ':') as int;
    text::lemma_index_found(u, ':');
    assert(u.subrange(0, i + 1) =~= scheme + seq![':']);
    assert((scheme + seq![':']).is_prefix_of(u));
}

/// An `about:` address stays in the window and is never handed to the system.
pub proof fn law_about_pages_stay(app_origin: Seq<char>, url: Seq<char>)
    requires
        "about:"@.is_prefix_of(trimmed(url)),
    ensures
        is_local(app_origin, url),
        !is_openable(url),
{
    let u = trimmed(url);
    reveal_strlit("about:");
    reveal_strlit("http");
    reveal_strlit("https");
    reveal_strlit("mailto");
    let head = "about:"@;
    assert(u.subrange(0, 6) == head);
    assert forall|j: int| 0 <= j < 6 implies u[j] == head[j] by {
        assert(u.subrange(0, 6)[j] == u[j]);
    }
    text::lemma_first_index(u, ':', 5);
    let scheme = u.take(5);
    assert(lowered(scheme)[0] == text::lower_char(u[0]));
    assert(lowered("http"@)[0] == 'h');
    assert(lowered("https"@)[0] == 'h');
    assert(lowered("mailto"@)[0] == 'm');
}

} // verus!
