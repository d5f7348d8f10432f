//! The stored ChatGPT sign-in: reading it, writing it, what its access token tells, and when it
//! is to be renewed.

use vstd::prelude::*;
use vstd::utf8::encode_utf8;
use crate::digest::{base64url_bytes, base64url_decode};
use crate::http::{no_pairs, push_pair};
use crate::json::{array_view, as_text, as_truth, as_unsigned, entry_views, json_parse, json_parse_bytes, member, member_of, opt_view, put, ref_view, str_view, text_at, Json, JsonView, Numeral};
use crate::members::{all_read, is_scalar, leads, member_views, members_text, object_members, object_text, past_space, read_object, skip_space, starts};
use crate::text;

verus! {

/// The client under which sign-ins are made.
pub const CODEX_CLIENT_ID: &'static str = "app_EMoamEEZ73f0CkXaXp7hrann";

/// Where tokens are handed out.
pub const CODEX_TOKEN_URL: &'static str = "https://auth.openai.com/oauth/token";

/// How long before its expiry an access token is renewed.
pub const REFRESH_SKEW_SECS: u64 = 120;

// ---------------------------------------------------------------------------
// The secret
// ---------------------------------------------------------------------------

/// `zeroize` on a `String`: it ends up empty. That the memory is overwritten first is not
/// stated.
#[verifier::external_body]
fn wipe_text(secret: &mut String)
    ensures
        final(secret)@ == Seq::<char>::empty(),
    opens_invariants none
    no_unwind
{
    zeroize::Zeroize::zeroize(secret)
}

/// A ChatGPT sign-in. Its tokens are wiped when it goes.
pub struct CodexSecret {
    pub access_token: String,
    pub refresh_token: String,
    /// When the access token expires, in seconds; zero where that is not known.
    pub expires_at: u64,
    /// Whether the refresh token was refused, so that it is not replayed.
    pub refresh_dead: bool,
}

/// What a sign-in holds.
#[verifier::ext_equal]
pub struct SecretView {
    pub access_token: Seq<char>,
    pub refresh_token: Seq<char>,
    pub expires_at: u64,
    pub refresh_dead: bool,
}

impl View for CodexSecret {
    type V = SecretView;

    open spec fn view(&self) -> SecretView {
        SecretView {
            access_token: self.access_token@,
            refresh_token: self.refresh_token@,
            expires_at: self.expires_at,
            refresh_dead: self.refresh_dead,
        }
    }
}

impl Drop for CodexSecret {
    fn drop(&mut self)
        opens_invariants none
        no_unwind
    {
        wipe_text(&mut self.access_token);
        wipe_text(&mut self.refresh_token);
    }
}

// ---------------------------------------------------------------------------
// Reading
// ---------------------------------------------------------------------------

/// The fields of a sign-in that have been given so far.
#[derive(Debug)]
pub struct SecretFields {
    pub access_token: Option<String>,
    pub refresh_token: Option<String>,
    pub expires_at: Option<u64>,
    pub refresh_dead: Option<bool>,
}

/// What `SecretFields` hold.
#[verifier::ext_equal]
pub struct GivenView {
    pub access_token: Option<Seq<char>>,
    pub refresh_token: Option<Seq<char>>,
    pub expires_at: Option<u64>,
    pub refresh_dead: Option<bool>,
}

impl View for SecretFields {
    type V = GivenView;

    open spec fn view(&self) -> GivenView {
        GivenView {
            access_token: self.access_token.deep_view(),
            refresh_token: self.refresh_token.deep_view(),
            expires_at: self.expires_at,
            refresh_dead: self.refresh_dead,
        }
    }
}

/// No fields.
pub open spec fn no_fields() -> GivenView {
    GivenView { access_token: None, refresh_token: None, expires_at: None, refresh_dead: None }
}

/// The fields after one more member; nothing where the member gives a field a second time, or
/// gives it what it cannot hold. Members that are no fields are ignored.
pub open spec fn with_field(fields: GivenView, key: Seq<char>, value: Option<JsonView>) -> Option<
    GivenView,
> {
    if key == "access_token"@ {
        if fields.access_token is None && as_text(value) is Some {
            Some(GivenView { access_token: as_text(value), ..fields })
        } else {
            None
        }
    } else if key == "refresh_token"@ {
        if fields.refresh_token is None && as_text(value) is Some {
            Some(GivenView { refresh_token: as_text(value), ..fields })
        } else {
            None
        }
    } else if key == "expires_at"@ {
        if fields.expires_at is None && as_unsigned(value) is Some {
            Some(GivenView { expires_at: as_unsigned(value), ..fields })
        } else {
            None
        }
    } else if key == "refresh_dead"@ {
        if fields.refresh_dead is None && as_truth(value) is Some {
            Some(GivenView { refresh_dead: as_truth(value), ..fields })
        } else {
            None
        }
    } else {
        Some(fields)
    }
}

/// The fields that members give; nothing where one of them is refused.
pub open spec fn fields_of(members: Seq<(Seq<char>, Option<JsonView>)>) -> Option<GivenView>
    decreases members.len(),
{
    if members.len() == 0 {
        Some(no_fields())
    } else {
        match fields_of(members.drop_last()) {
            Some(fields) => with_field(fields, members.last().0, members.last().1),
            None => None,
        }
    }
}

/// The name of field number `i`.
pub open spec fn field_name(i: int) -> Seq<char> {
    if i == 0 {
        "access_token"@
    } else if i == 1 {
        "refresh_token"@
    } else if i == 2 {
        "expires_at"@
    } else {
        "refresh_dead"@
    }
}

/// The items of an array as the fields in their order.
pub open spec fn named_items(items: Seq<JsonView>) -> Seq<(Seq<char>, Option<JsonView>)> {
    Seq::new(items.len(), |i: int| (field_name(i), Some(items[i])))
}

/// The fields that a text spells: an object by its members, each field at most once, others
/// ignored whatever they hold; or an array of at most four items by position.
pub open spec fn fields_in(source: Seq<char>) -> Option<GivenView> {
    if leads(past_space(encode_utf8(source)), 123) {
        match object_members(encode_utf8(source)) {
            Some(members) => fields_of(members),
            None => None,
        }
    } else {
        match json_parse(source) {
            Some(JsonView::Array(items)) => if items.len() <= 4 {
                fields_of(named_items(items))
            } else {
                None
            },
            _ => None,
        }
    }
}

/// The sign-in out of the fields given: both tokens must be there. Without an expiry it is not
/// known when the token expires, and without a mark the refresh token is not dead.
pub open spec fn secret_of(fields: GivenView) -> Option<SecretView> {
    match (fields.access_token, fields.refresh_token) {
        (Some(access_token), Some(refresh_token)) => Some(
            SecretView {
                access_token,
                refresh_token,
                expires_at: match fields.expires_at {
                    Some(n) => n,
                    None => 0,
                },
                refresh_dead: match fields.refresh_dead {
                    Some(b) => b,
                    None => false,
                },
            },
        ),
        _ => None,
    }
}

/// The sign-in that a stored text spells, or what to tell the user.
pub open spec fn secret_read(raw: Seq<char>) -> Result<SecretView, Seq<char>> {
    if text::trimmed(raw).len() == 0 {
        Err("Sign in to ChatGPT to use Codex models."@)
    } else {
        match fields_in(text::trimmed(raw)) {
            Some(fields) => match secret_of(fields) {
                Some(secret) => Ok(secret),
                None => Err("Sign in to ChatGPT again."@),
            },
            None => Err("Sign in to ChatGPT again."@),
        }
    }
}

/// What an optional sign-in holds.
pub open spec fn secret_opt(secret: Option<CodexSecret>) -> Option<SecretView> {
    match secret {
        Some(secret) => Some(secret@),
        None => None,
    }
}

/// What reading a sign-in came to.
pub open spec fn secret_result(r: Result<CodexSecret, String>) -> Result<SecretView, Seq<char>> {
    match r {
        Ok(secret) => Ok(secret@),
        Err(message) => Err(message@),
    }
}

/// What optional fields hold.
pub open spec fn given_opt(fields: Option<SecretFields>) -> Option<GivenView> {
    match fields {
        Some(fields) => Some(fields@),
        None => None,
    }
}

fn given_text(value: Option<&Json>) -> (r: Option<&str>)
    ensures
        str_view(r) == as_text(ref_view(value)),
{
    match value {
        Some(value) => value.as_str(),
        None => None,
    }
}

impl SecretFields {
    /// No fields.
    pub fn none() -> (r: SecretFields)
        ensures
            r@ == no_fields(),
    {
        SecretFields { access_token: None, refresh_token: None, expires_at: None, refresh_dead: None }
    }

    /// Takes one more member, and tells whether it was accepted: a field that is given a second
    /// time is not, nor one that is given what it cannot hold.
    pub fn take(&mut self, key: &str, value: Option<&Json>) -> (r: bool)
        ensures
            match with_field(old(self)@, key@, ref_view(value)) {
                Some(fields) => r && final(self)@ == fields,
                None => !r && final(self)@ == old(self)@,
            },
    {
        if text::same(key, "access_token") {
            if self.access_token.is_some() {
                return false;
            }
            match given_text(value) {
                Some(token) => {
                    self.access_token = Some(token.to_owned());
                    true
                },
                None => false,
            }
        } else if text::same(key, "refresh_token") {
            if self.refresh_token.is_some() {
                return false;
            }
            match given_text(value) {
                Some(token) => {
                    self.refresh_token = Some(token.to_owned());
                    true
                },
                None => false,
            }
        } else if text::same(key, "expires_at") {
            let given = match value {
                Some(value) => value.as_u64(),
                None => None,
            };
            if self.expires_at.is_some() || given.is_none() {
                return false;
            }
            self.expires_at = given;
            true
        } else if text::same(key, "refresh_dead") {
            let given = match value {
                Some(value) => value.as_bool(),
                None => None,
            };
            if self.refresh_dead.is_some() || given.is_none() {
                return false;
            }
            self.refresh_dead = given;
            true
        } else {
            true
        }
    }

    /// The fields that members give; nothing where one of them is refused.
    pub fn of_members(members: &Vec<(String, Option<Json>)>) -> (r: Option<SecretFields>)
        ensures
            given_opt(r) == fields_of(member_views(members@)),
    {
        let ghost all = member_views(members@);
        let mut fields = SecretFields::none();
        for i in 0..members.len()
            invariant
                all == member_views(members@),
                fields_of(all.take(i as int)) == Some(fields@),
        {
            let member = &members[i];
            proof {
                assert(all.take(i + 1).drop_last() =~= all.take(i as int));
                assert(all.take(i + 1).last() == (member.0@, opt_view(member.1)));
            }
            let value = match &member.1 {
                Some(value) => Some(value),
                None => None,
            };
            if !fields.take(member.0.as_str(), value) {
                proof {
                    lemma_fields_refused(all, i + 1);
                }
                return None;
            }
        }
        proof {
            assert(all.take(members@.len() as int) =~= all);
        }
        Some(fields)
    }

    /// The fields that the items of an array give by position; nothing where one of them is
    /// refused, or where there are too many.
    pub fn of_items(items: &Vec<Json>) -> (r: Option<SecretFields>)
        ensures
            given_opt(r) == (if items@.len() <= 4 {
                fields_of(named_items(array_view(items@)))
            } else {
                None
            }),
    {
        if items.len() > 4 {
            return None;
        }
        let ghost all = named_items(array_view(items@));
        let mut fields = SecretFields::none();
        for i in 0..items.len()
            invariant
                items@.len() <= 4,
                all == named_items(array_view(items@)),
                fields_of(all.take(i as int)) == Some(fields@),
        {
            proof {
                assert(all.take(i + 1).drop_last() =~= all.take(i as int));
                assert(all.take(i + 1).last() == (field_name(i as int), Some(items@[i as int].view())));
            }
            let name = if i == 0 {
                "access_token"
            } else if i == 1 {
                "refresh_token"
            } else if i == 2 {
                "expires_at"
            } else {
                "refresh_dead"
            };
            if !fields.take(name, Some(&items[i])) {
                proof {
                    lemma_fields_refused(all, i + 1);
                }
                return None;
            }
        }
        proof {
            assert(all.take(items@.len() as int) =~= all);
        }
        Some(fields)
    }

    /// The sign-in out of the fields given.
    pub fn finish(self) -> (r: Option<CodexSecret>)
        ensures
            secret_opt(r) == secret_of(self@),
    {
        let expires_at: u64 = match self.expires_at {
            Some(n) => n,
            None => 0,
        };
        let refresh_dead = match self.refresh_dead {
            Some(b) => b,
            None => false,
        };
        match (self.access_token, self.refresh_token) {
            (Some(access_token), Some(refresh_token)) => Some(
                CodexSecret { access_token, refresh_token, expires_at, refresh_dead },
            ),
            _ => None,
        }
    }
}

/// Where the first members are refused, so are all of them.
proof fn lemma_fields_refused(members: Seq<(Seq<char>, Option<JsonView>)>, n: int)
    requires
        0 <= n <= members.len(),
        fields_of(members.take(n)) is None,
    ensures
        fields_of(members) is None,
    decreases members.len() - n,
{
    if n < members.len() {
        assert(members.take(n + 1).drop_last() =~= members.take(n));
        lemma_fields_refused(members, n + 1);
    } else {
        assert(members.take(n) =~= members);
    }
}

/// Whether a text is one that spells an object, if it spells anything.
fn opens_object(source: &str) -> (r: bool)
    ensures
        r == leads(past_space(encode_utf8(source@)), 123),
{
    starts(skip_space(source.as_bytes()), 123)
}

/// The fields that a text spells.
pub fn read_fields(source: &str) -> (r: Option<SecretFields>)
    ensures
        given_opt(r) == fields_in(source@),
{
    if opens_object(source) {
        match read_object(source.as_bytes()) {
            Some(members) => SecretFields::of_members(&members),
            None => None,
        }
    } else {
        match Json::parse(source) {
            Some(Json::Array(items)) => SecretFields::of_items(&items),
            _ => None,
        }
    }
}

impl CodexSecret {
    /// The sign-in that a stored text spells, or what to tell the user.
    pub fn parse(raw: &str) -> (r: Result<CodexSecret, String>)
        ensures
            secret_result(r) == secret_read(raw@),
    {
        let raw = text::trim(raw);
        if raw.is_empty() {
            return Err("Sign in to ChatGPT to use Codex models.".to_owned());
        }
        let parsed = match read_fields(raw) {
            Some(fields) => fields.finish(),
            None => None,
        };
        match parsed {
            Some(secret) => Ok(secret),
            None => Err("Sign in to ChatGPT again.".to_owned()),
        }
    }
}

// ---------------------------------------------------------------------------
// Writing
// ---------------------------------------------------------------------------

/// The members of a stored sign-in, in the order in which they are written.
pub open spec fn secret_members(secret: SecretView) -> Seq<(Seq<char>, JsonView)> {
    seq![
        ("access_token"@, JsonView::Text(secret.access_token)),
        ("refresh_token"@, JsonView::Text(secret.refresh_token)),
        ("expires_at"@, JsonView::Number(Numeral::Unsigned(secret.expires_at))),
        ("refresh_dead"@, JsonView::Bool(secret.refresh_dead)),
    ]
}

/// The text of a stored sign-in.
pub open spec fn secret_text(secret: SecretView) -> Seq<char> {
    members_text(secret_members(secret))
}

/// The members of a stored sign-in give its fields.
proof fn lemma_written_fields(secret: SecretView)
    ensures
        fields_of(all_read(secret_members(secret))) == Some(
            GivenView {
                access_token: Some(secret.access_token),
                refresh_token: Some(secret.refresh_token),
                expires_at: Some(secret.expires_at),
                refresh_dead: Some(secret.refresh_dead),
            },
        ),
{
    let four = all_read(secret_members(secret));
    let three = four.drop_last();
    let two = three.drop_last();
    let one = two.drop_last();
    let none = one.drop_last();
    reveal_strlit("access_token");
    reveal_strlit("refresh_token");
    reveal_strlit("expires_at");
    reveal_strlit("refresh_dead");
    assert("access_token"@.len() == 12 && "refresh_token"@.len() == 13 && "expires_at"@.len() == 10
        && "refresh_dead"@.len() == 12);
    assert("access_token"@[0] != "refresh_dead"@[0]);
    assert(fields_of(none) == Some(no_fields()));
    assert(fields_of(one) is Some);
    assert(fields_of(two) is Some);
    assert(fields_of(three) is Some);
}

impl CodexSecret {
    /// The text under which the sign-in is stored. Reading it gives the sign-in back.
    pub fn to_text(&self) -> (r: String)
        ensures
            r@ == secret_text(self@),
            secret_read(r@) == Ok::<_, Seq<char>>(self@),
    {
        let mut members: Vec<(String, Json)> = Vec::new();
        put(&mut members, "access_token", Json::text(self.access_token.as_str()));
        put(&mut members, "refresh_token", Json::text(self.refresh_token.as_str()));
        put(&mut members, "expires_at", Json::unsigned(self.expires_at));
        put(&mut members, "refresh_dead", Json::Bool(self.refresh_dead));
        let out = object_text(&members);
        proof {
            assert(entry_views(members@) =~= secret_members(self@));
            assert forall|i: int| 0 <= i < members@.len() implies is_scalar(
                (#[trigger] members@[i]).1.view(),
            ) by {
                assert(entry_views(members@)[i].1 == members@[i].1.view());
            }
            assert(text::trimmed(out@) == out@) by {
                assert(text::trimmed_start(out@) == out@);
                assert(text::trimmed_end(out@) == out@);
            }
            lemma_written_fields(self@);
            reveal_strlit("access_token");
            reveal_strlit("refresh_token");
            reveal_strlit("expires_at");
            reveal_strlit("refresh_dead");
            assert("access_token"@.len() == 12 && "refresh_token"@.len() == 13 && "expires_at"@.len()
                == 10 && "refresh_dead"@.len() == 12);
            assert("access_token"@[0] != "refresh_dead"@[0]);
        }
        out
    }
}

// ---------------------------------------------------------------------------
// The access token
// ---------------------------------------------------------------------------

/// The part of a token that holds its claims: what stands between the first two dots.
pub open spec fn claims_part(token: Seq<char>) -> Option<Seq<char>> {
    if text::pieces(token, '.').len() > 1 {
        Some(text::pieces(token, '.')[1])
    } else {
        None
    }
}

/// The claims of a token.
pub open spec fn token_claims(token: Seq<char>) -> Option<JsonView> {
    match claims_part(token) {
        Some(part) => match base64url_bytes(part) {
            Some(bytes) => json_parse_bytes(bytes),
            None => None,
        },
        None => None,
    }
}

/// The claims of a token.
pub fn jwt_claims(token: &str) -> (r: Option<Json>)
    ensures
        opt_view(r) == token_claims(token@),
{
    let parts = text::split(token, '.');
    proof {
        assert(parts.deep_view().len() == parts@.len());
    }
    if parts.len() < 2 {
        return None;
    }
    proof {
        assert(parts.deep_view()[1] == parts@[1]@);
    }
    match base64url_decode(parts[1]) {
        Some(bytes) => Json::parse_bytes(&bytes),
        None => None,
    }
}

/// The claims about the account, out of all the claims: those of the sign-in service, or all
/// where it makes none of its own.
pub open spec fn account_claims(claims: JsonView) -> JsonView {
    match member(claims, "https://api.openai.com/auth"@) {
        Some(own) => own,
        None => claims,
    }
}

/// A text that is there and not blank, trimmed.
pub open spec fn present(found: Option<Seq<char>>) -> Option<Seq<char>> {
    match found {
        Some(s) => if text::trimmed(s).len() == 0 {
            None
        } else {
            Some(text::trimmed(s))
        },
        None => None,
    }
}

/// The headers that claims ask for: the account, and where its data is to stay.
pub open spec fn claim_headers(claims: Option<JsonView>) -> Seq<(Seq<char>, Seq<char>)> {
    match claims {
        Some(claims) => {
            let claims = account_claims(claims);
            let residency = match text_at(claims, "chatgpt_data_residency"@) {
                Some(residency) => Some(residency),
                None => text_at(claims, "chatgpt_compute_residency"@),
            };
            let headers = match present(text_at(claims, "chatgpt_account_id"@)) {
                Some(account) => seq![("ChatGPT-Account-ID"@, account)],
                None => seq![],
            };
            match present(residency) {
                Some(residency) => headers.push(("x-openai-internal-codex-residency"@, residency)),
                None => headers,
            }
        },
        None => seq![],
    }
}

/// The headers that claims ask for.
pub fn headers_of_claims(claims: Option<&Json>) -> (r: Vec<(String, String)>)
    ensures
        r.deep_view() == claim_headers(ref_view(claims)),
{
    let mut headers = no_pairs();
    let claims = match claims {
        Some(claims) => claims,
        None => {
            return headers;
        },
    };
    let claims = match claims.get("https://api.openai.com/auth") {
        Some(own) => own,
        None => claims,
    };
    match claims.text_at("chatgpt_account_id") {
        Some(account) => {
            let account = text::trim(account);
            if !account.is_empty() {
                push_pair(&mut headers, "ChatGPT-Account-ID", account);
                proof {
                    assert(headers.deep_view() =~= seq![("ChatGPT-Account-ID"@, account@)]);
                }
            }
        },
        None => {},
    }
    let residency = match claims.text_at("chatgpt_data_residency") {
        Some(residency) => Some(residency),
        None => claims.text_at("chatgpt_compute_residency"),
    };
    match residency {
        Some(residency) => {
            let residency = text::trim(residency);
            if !residency.is_empty() {
                push_pair(&mut headers, "x-openai-internal-codex-residency", residency);
            }
        },
        None => {},
    }
    headers
}

/// The headers that the claims of an access token ask for.
pub fn codex_account_headers(access_token: &str) -> (r: Vec<(String, String)>)
    ensures
        r.deep_view() == claim_headers(token_claims(access_token@)),
{
    match jwt_claims(access_token) {
        Some(claims) => headers_of_claims(Some(&claims)),
        None => headers_of_claims(None),
    }
}

/// When a token expires, as its claims tell.
pub open spec fn claimed_expiry(claims: Option<JsonView>) -> Option<u64> {
    as_unsigned(member_of(claims, "exp"@))
}

/// When a token expires, as its claims tell.
pub fn jwt_expiry(token: &str) -> (r: Option<u64>)
    ensures
        r == claimed_expiry(token_claims(token@)),
{
    match jwt_claims(token) {
        Some(claims) => match claims.get("exp") {
            Some(value) => value.as_u64(),
            None => None,
        },
        None => None,
    }
}

// ---------------------------------------------------------------------------
// Time
// ---------------------------------------------------------------------------

/// `std::time::SystemTime::now`, as the seconds since the Unix epoch; nothing where the clock
/// stands before it. What comes back is up to the clock.
#[verifier::external_body]
fn read_clock() -> (r: Option<u64>) {
    std::time::SystemTime::now().duration_since(std::time::UNIX_EPOCH).ok().map(|t| t.as_secs())
}

/// The time that a reading of the clock stands for: zero where the clock stands before the Unix
/// epoch.
pub open spec fn clock_secs(reading: Option<u64>) -> u64 {
    match reading {
        Some(now) => now,
        None => 0,
    }
}

/// The time that a reading of the clock stands for.
pub fn secs_of_reading(reading: Option<u64>) -> (r: u64)
    ensures
        r == clock_secs(reading),
{
    match reading {
        Some(now) => now,
        None => 0,
    }
}

/// The seconds since the Unix epoch; zero where the clock stands before it. The clock may give
/// any reading, so nothing holds of every result; `secs_of_reading` says what becomes of a reading.
pub fn now_secs() -> (r: u64) {
    secs_of_reading(read_clock())
}

/// `a + b`, or the largest `u64` where that is larger.
pub open spec fn later(a: u64, b: u64) -> u64 {
    if a + b > u64::MAX {
        u64::MAX
    } else {
        (a + b) as u64
    }
}

/// `a + b`, or the largest `u64` where that is larger.
pub fn add_capped(a: u64, b: u64) -> (r: u64)
    ensures
        r == later(a, b),
{
    if a > u64::MAX - b {
        u64::MAX
    } else {
        a + b
    }
}

/// When a sign-in expires: as it was stored, or else as its token tells; zero where neither does.
pub open spec fn expiry(secret: SecretView, claimed: Option<u64>) -> u64 {
    if secret.expires_at > 0 {
        secret.expires_at
    } else {
        match claimed {
            Some(exp) => exp,
            None => 0,
        }
    }
}

/// Whether a sign-in is due for renewal at the time `now`, if its token claims to expire at
/// `claimed`: it has no access token, or it expires within the skew.
pub open spec fn is_due(secret: SecretView, claimed: Option<u64>, now: u64) -> bool {
    text::trimmed(secret.access_token).len() == 0 || (expiry(secret, claimed) != 0 && later(
        now,
        REFRESH_SKEW_SECS,
    ) >= expiry(secret, claimed))
}

impl CodexSecret {
    /// Whether the sign-in is due for renewal at the time `now`, if its token claims to expire
    /// at `claimed`.
    pub fn due(&self, claimed: Option<u64>, now: u64) -> (r: bool)
        ensures
            r == is_due(self@, claimed, now),
    {
        if text::trim(self.access_token.as_str()).is_empty() {
            return true;
        }
        let exp: u64 = if self.expires_at > 0 {
            self.expires_at
        } else {
            match claimed {
                Some(exp) => exp,
                None => 0,
            }
        };
        if exp == 0 {
            return false;
        }
        add_capped(now, REFRESH_SKEW_SECS) >= exp
    }

    /// Whether the sign-in is due for renewal at the time `now`.
    pub fn expiring_at(&self, now: u64) -> (r: bool)
        ensures
            r == is_due(self@, claimed_expiry(token_claims(self@.access_token)), now),
    {
        self.due(jwt_expiry(self.access_token.as_str()), now)
    }

    /// Whether the sign-in is due for renewal now.
    pub fn expiring(&self) -> (r: bool)
        ensures
            exists|now: u64|
                r == #[trigger] is_due(
                    self@,
                    claimed_expiry(token_claims(self@.access_token)),
                    now,
                ),
    {
        self.expiring_at(now_secs())
    }
}

// ---------------------------------------------------------------------------
// New sign-ins
// ---------------------------------------------------------------------------

/// The sign-in made of tokens received at the time `now`. It expires `expires_in` seconds later,
/// or else when the access token claims to.
pub open spec fn new_secret(
    access_token: Seq<char>,
    refresh_token: Seq<char>,
    expires_in: Option<u64>,
    claimed: Option<u64>,
    now: u64,
) -> SecretView {
    SecretView {
        access_token: text::trimmed(access_token),
        refresh_token: text::trimmed(refresh_token),
        expires_at: match expires_in {
            Some(seconds) => later(now, seconds),
            None => match claimed {
                Some(exp) => exp,
                None => 0,
            },
        },
        refresh_dead: false,
    }
}

/// The sign-in made of tokens received at the time `now`, if the access token claims to expire
/// at `claimed`.
pub fn secret_from_claims(
    access_token: &str,
    refresh_token: &str,
    expires_in: Option<u64>,
    claimed: Option<u64>,
    now: u64,
) -> (r: CodexSecret)
    ensures
        r@ == new_secret(access_token@, refresh_token@, expires_in, claimed, now),
{
    let expires_at: u64 = match expires_in {
        Some(seconds) => add_capped(now, seconds),
        None => match claimed {
            Some(exp) => exp,
            None => 0,
        },
    };
    CodexSecret {
        access_token: text::trim(access_token).to_owned(),
        refresh_token: text::trim(refresh_token).to_owned(),
        expires_at,
        refresh_dead: false,
    }
}

/// The text of the sign-in made of tokens received at the time `now`.
pub fn secret_from_tokens_at(
    access_token: &str,
    refresh_token: &str,
    expires_in: Option<u64>,
    now: u64,
) -> (r: String)
    ensures
        r@ == secret_text(
            new_secret(
                access_token@,
                refresh_token@,
                expires_in,
                claimed_expiry(token_claims(access_token@)),
                now,
            ),
        ),
        secret_read(r@) == Ok::<_, Seq<char>>(
            new_secret(
                access_token@,
                refresh_token@,
                expires_in,
                claimed_expiry(token_claims(access_token@)),
                now,
            ),
        ),
{
    let claimed = jwt_expiry(access_token);
    let secret = secret_from_claims(access_token, refresh_token, expires_in, claimed, now);
    secret.to_text()
}

/// Whether `stored` is the text of the sign-in made of tokens received at some time, and reads
/// back as that sign-in.
pub open spec fn stores_tokens(
    stored: Seq<char>,
    access_token: Seq<char>,
    refresh_token: Seq<char>,
    expires_in: Option<u64>,
) -> bool {
    exists|now: u64|
        {
            let secret = #[trigger] new_secret(
                access_token,
                refresh_token,
                expires_in,
                claimed_expiry(token_claims(access_token)),
                now,
            );
            stored == secret_text(secret) && secret_read(stored) == Ok::<_, Seq<char>>(secret)
        }
}

/// The text of the sign-in made of tokens received now. Reading it gives the tokens back,
/// trimmed.
pub fn codex_secret_from_tokens(
    access_token: &str,
    refresh_token: &str,
    expires_in: Option<u64>,
) -> (r: String)
    ensures
        stores_tokens(r@, access_token@, refresh_token@, expires_in),
{
    let now = now_secs();
    secret_from_tokens_at(access_token, refresh_token, expires_in, now)
}

} // verus!
