//! Which addresses a credential may be sent to.

use vstd::prelude::*;
use crate::providers::ProviderKind;
use crate::text;

verus! {

/// The parts of an address that decide where a request goes.
#[derive(Debug)]
pub struct UrlParts {
    pub scheme: String,
    pub host: Option<String>,
    pub path: String,
}

/// What `UrlParts` hold.
#[verifier::ext_equal]
pub struct UrlView {
    pub scheme: Seq<char>,
    pub host: Option<Seq<char>>,
    pub path: Seq<char>,
}

impl View for UrlParts {
    type V = UrlView;

    open spec fn view(&self) -> UrlView {
        UrlView { scheme: self.scheme@, host: self.host.deep_view(), path: self.path@ }
    }
}

/// The scheme, the host and the path that `reqwest::Url` reads in an address, or nothing where
/// it is none.
pub uninterp spec fn url_parts(source: Seq<char>) -> Option<UrlView>;

/// The address that `reqwest::Url` writes for a base with query pairs appended, or nothing where
/// the base is no address.
pub uninterp spec fn url_with_query(
    base: Seq<char>,
    pairs: Seq<(Seq<char>, Seq<char>)>,
) -> Option<Seq<char>>;

/// What optional parts hold.
pub open spec fn parts_view(parts: Option<&UrlParts>) -> Option<UrlView> {
    match parts {
        Some(parts) => Some(parts@),
        None => None,
    }
}

/// `reqwest::Url::parse`, then `scheme`, `host_str` and `path` of its result, which are named
/// `url_parts`.
#[verifier::external_body]
fn read_url(source: &str) -> (r: Option<UrlParts>)
    ensures
        r is Some <==> url_parts(source@) is Some,
        r is Some ==> r->0@ == url_parts(source@)->0,
{
    let url = reqwest::Url::parse(source).ok()?;
    let scheme = url.scheme().to_owned();
    let host = url.host_str().map(str::to_owned);
    Some(UrlParts { scheme, host, path: url.path().to_owned() })
}

/// Whether query pairs can be appended to a base: it has no fragment, and what is written before
/// the query is far too short to pass the 32 bits in which `reqwest::Url` counts positions.
pub open spec fn takes_query(base: Seq<char>) -> bool {
    base.len() <= 0x100_0000 && !base.contains('#')
}

/// `reqwest::Url::parse`, then `extend_pairs` on its query and `to_string`: the result is named
/// `url_with_query`. The call panics where a position that it keeps passes 32 bits, which a base
/// that `takes_query` rules out.
#[verifier::external_body]
fn write_url(base: &str, pairs: &Vec<(String, String)>) -> (r: Option<String>)
    requires
        takes_query(base@),
    ensures
        r.deep_view() == url_with_query(base@, pairs.deep_view()),
{
    let mut url = reqwest::Url::parse(base).ok()?;
    url.query_pairs_mut().extend_pairs(pairs.iter());
    Some(url.to_string())
}

/// An address with query pairs appended.
pub fn add_query(base: &str, pairs: &Vec<(String, String)>) -> (r: Option<String>)
    requires
        takes_query(base@),
    ensures
        r.deep_view() == url_with_query(base@, pairs.deep_view()),
{
    write_url(base, pairs)
}

/// What a check came to.
pub open spec fn check_result(r: Result<(), String>) -> Result<(), Seq<char>> {
    match r {
        Ok(_) => Ok(()),
        Err(message) => Err(message@),
    }
}

/// Whether the credential of a built-in provider may go to an address, or why not: only that of
/// the Codex provider, only over HTTPS, only to its host, only below its path.
pub open spec fn address_check(kind: ProviderKind, parts: Option<UrlView>) -> Result<(), Seq<char>> {
    match parts {
        None => Err("Refused a non-URL provider request."@),
        Some(parts) => if parts.scheme != "https"@ {
            Err("Built-in providers only use HTTPS."@)
        } else if kind == ProviderKind::OpenaiCodex && parts.host == Some("chatgpt.com"@)
            && "/backend-api/codex/"@.is_prefix_of(parts.path) {
            Ok(())
        } else {
            Err("Refused to send this credential to an unexpected host."@)
        },
    }
}

/// Whether the credential of a built-in provider may go to the address with these parts.
pub fn check_address(kind: ProviderKind, parts: Option<&UrlParts>) -> (r: Result<(), String>)
    ensures
        check_result(r) == address_check(kind, parts_view(parts)),
{
    let parts = match parts {
        Some(parts) => parts,
        None => {
            return Err("Refused a non-URL provider request.".to_owned());
        },
    };
    if !text::same(parts.scheme.as_str(), "https") {
        return Err("Built-in providers only use HTTPS.".to_owned());
    }
    let host_ok = match &parts.host {
        Some(host) => text::same(host.as_str(), "chatgpt.com"),
        None => false,
    };
    let codex = match kind {
        ProviderKind::OpenaiCodex => true,
        _ => false,
    };
    if codex && host_ok && text::starts_with(parts.path.as_str(), "/backend-api/codex/") {
        Ok(())
    } else {
        Err("Refused to send this credential to an unexpected host.".to_owned())
    }
}

/// Whether the credential of a built-in provider may go to an address.
pub fn require_request_url(kind: ProviderKind, url: &str) -> (r: Result<(), String>)
    ensures
        check_result(r) == address_check(kind, url_parts(url@)),
{
    match read_url(url) {
        Some(parts) => check_address(kind, Some(&parts)),
        None => check_address(kind, None),
    }
}

// ---------------------------------------------------------------------------
// Laws
// ---------------------------------------------------------------------------

/// Whether an address is one that sign-ins, tokens and catalogs are asked for at.
pub open spec fn is_pinned(url: Seq<char>) -> bool {
    "https://auth.openai.com/"@.is_prefix_of(url)
        || "https://chatgpt.com/backend-api/codex/"@.is_prefix_of(url)
}

/// A credential goes out over HTTPS, to the Codex host and path, for the Codex provider, or not
/// at all.
pub proof fn law_credentials_stay_pinned(kind: ProviderKind, parts: Option<UrlView>)
    ensures
        address_check(kind, parts) is Ok <==> (kind == ProviderKind::OpenaiCodex && parts is Some
            && (parts->0).scheme == "https"@ && (parts->0).host == Some("chatgpt.com"@)
            && "/backend-api/codex/"@.is_prefix_of((parts->0).path)),
{
}

} // verus!
