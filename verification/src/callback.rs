//! The page that the browser comes back to after a sign-in: which requests are for it, and what
//! they carry.

use vstd::prelude::*;
use vstd::utf8::{decode_utf8, encode_utf8, encode_utf8_decode_utf8, encode_utf8_valid_utf8, is_ascii_chars, is_ascii_chars_encode_utf8, is_char_boundary, is_char_boundary_iff_not_is_continuation_byte, is_char_boundary_start_end_of_seq, valid_utf8};
use crate::digest::{constant_eq, hex_digit, is_hex_digit};
use crate::text;
use crate::text::{cut, first_index, line_one, lowered, pieces, printable_prefix, trimmed, word_seq};

verus! {

/// The path that the browser comes back to.
pub const CODEX_CALLBACK_PATH: &'static str = "/auth/callback";

// ---------------------------------------------------------------------------
// Bytes as text
// ---------------------------------------------------------------------------

/// The text that `String::from_utf8_lossy` makes of bytes that are not UTF-8.
pub uninterp spec fn utf8_lossy(data: Seq<u8>) -> Seq<char>;

/// `String::from_utf8_lossy`: the text that the bytes encode; where they encode none, the result
/// is named `utf8_lossy`.
#[verifier::external_body]
fn read_lossy(data: &[u8]) -> (r: String)
    ensures
        r@ == (if valid_utf8(data@) {
            decode_utf8(data@)
        } else {
            utf8_lossy(data@)
        }),
{
    String::from_utf8_lossy(data).into_owned()
}

/// Bytes as text: what they encode, or what comes nearest to it.
pub open spec fn lossy(data: Seq<u8>) -> Seq<char> {
    if valid_utf8(data) {
        decode_utf8(data)
    } else {
        utf8_lossy(data)
    }
}

/// Bytes as text: what they encode, or what comes nearest to it.
pub fn lossy_text(data: &[u8]) -> (r: String)
    ensures
        r@ == lossy(data@),
{
    read_lossy(data)
}

// ---------------------------------------------------------------------------
// Escapes
// ---------------------------------------------------------------------------

/// The value of a hexadecimal digit.
pub open spec fn digit_value(b: u8) -> Option<u8> {
    if 48 <= b <= 57 {
        Some((b - 48) as u8)
    } else if 65 <= b <= 70 {
        Some((b - 55) as u8)
    } else if 97 <= b <= 102 {
        Some((b - 87) as u8)
    } else {
        None
    }
}

/// The value that two characters spell in hexadecimal: two digits, or a plus sign and a digit.
pub open spec fn pair_value(a: u8, b: u8) -> Option<u8> {
    if a == 43 {
        digit_value(b)
    } else if digit_value(a) is Some && digit_value(b) is Some {
        Some((16 * digit_value(a)->0 + digit_value(b)->0) as u8)
    } else {
        None
    }
}

/// What escaped bytes stand for: a plus sign for a space, a percent sign and two characters for
/// the byte that these spell. A percent sign before two characters that spell none is dropped;
/// one that fewer follow stands for itself.
pub open spec fn unescaped(data: Seq<u8>) -> Seq<u8>
    decreases data.len(),
{
    if data.len() == 0 {
        seq![]
    } else if data[0] == 43 {
        seq![32u8] + unescaped(data.drop_first())
    } else if data[0] == 37 && data.len() > 2 {
        match pair_value(data[1], data[2]) {
            Some(byte) => seq![byte] + unescaped(data.skip(3)),
            None => unescaped(data.drop_first()),
        }
    } else {
        seq![data[0]] + unescaped(data.drop_first())
    }
}

/// The text that an escaped value stands for.
pub open spec fn unescaped_text(value: Seq<char>) -> Seq<char> {
    lossy(unescaped(encode_utf8(value)))
}

/// Whether no percent sign that two more bytes follow is followed by a piece of a character: a
/// character ends two bytes after it.
pub open spec fn is_decodable(value: Seq<char>) -> bool {
    forall|i: int|
        0 <= i && i + 2 < encode_utf8(value).len() && #[trigger] encode_utf8(value)[i] == 37
            ==> is_char_boundary(encode_utf8(value), i + 3)
}

/// Whether an escaped value can be decoded.
pub fn decodable(value: &str) -> (r: bool)
    ensures
        r == is_decodable(value@),
{
    let bytes = value.as_bytes();
    let mut i: usize = 0;
    while i < bytes.len()
        invariant
            bytes@ == encode_utf8(value@),
            i <= bytes@.len(),
            forall|j: int|
                0 <= j < i && j + 2 < bytes@.len() && #[trigger] encode_utf8(value@)[j] == 37
                    ==> is_char_boundary(encode_utf8(value@), j + 3),
        decreases bytes@.len() - i,
    {
        if bytes[i] == 37 && bytes.len() - i > 2 && !value.is_char_boundary(i + 3) {
            proof {
                assert(encode_utf8(value@)[i as int] == 37);
            }
            return false;
        }
        i += 1;
    }
    true
}

fn read_digit(b: u8) -> (r: Option<u8>)
    ensures
        r == digit_value(b),
{
    if 48 <= b && b <= 57 {
        Some(b - 48)
    } else if 65 <= b && b <= 70 {
        Some(b - 55)
    } else if 97 <= b && b <= 102 {
        Some(b - 87)
    } else {
        None
    }
}

/// The value that two characters spell in hexadecimal.
pub fn read_pair(a: u8, b: u8) -> (r: Option<u8>)
    ensures
        r == pair_value(a, b),
{
    if a == 43 {
        return read_digit(b);
    }
    match (read_digit(a), read_digit(b)) {
        (Some(high), Some(low)) => Some(16 * high + low),
        _ => None,
    }
}

/// What escaped bytes stand for.
pub fn unescape(data: &[u8]) -> (r: Vec<u8>)
    ensures
        r@ == unescaped(data@),
{
    let mut out: Vec<u8> = Vec::new();
    let mut i: usize = 0;
    proof {
        assert(data@.skip(0) =~= data@);
        assert(out@ + unescaped(data@) =~= unescaped(data@));
    }
    while i < data.len()
        invariant
            i <= data@.len(),
            out@ + unescaped(data@.skip(i as int)) == unescaped(data@),
        decreases data@.len() - i,
    {
        let ghost before = out@;
        let ghost rest = data@.skip(i as int);
        let byte: u8 = data[i];
        proof {
            assert(rest.drop_first() =~= data@.skip(i + 1));
        }
        if byte == 43 {
            out.push(32);
            proof {
                assert(before.push(32u8) + unescaped(rest.drop_first()) =~= before + (seq![32u8]
                    + unescaped(rest.drop_first())));
            }
        } else if byte == 37 && data.len() - i > 2 {
            match read_pair(data[i + 1], data[i + 2]) {
                Some(value) => {
                    out.push(value);
                    proof {
                        assert(rest.skip(3) =~= data@.skip(i + 3));
                        assert(before.push(value) + unescaped(rest.skip(3)) =~= before + (
                        seq![value] + unescaped(rest.skip(3))));
                    }
                    i += 2;
                },
                None => {},
            }
        } else {
            out.push(byte);
            proof {
                assert(before.push(byte) + unescaped(rest.drop_first()) =~= before + (seq![byte]
                    + unescaped(rest.drop_first())));
            }
        }
        i += 1;
    }
    proof {
        assert(out@ + unescaped(data@.skip(i as int)) =~= out@);
    }
    out
}

/// The text that an escaped value stands for.
pub fn urlencoding_decode(value: &str) -> (r: String)
    requires
        is_decodable(value@),
    ensures
        r@ == unescaped_text(value@),
{
    lossy_text(&unescape(value.as_bytes()))
}

// ---------------------------------------------------------------------------
// The request
// ---------------------------------------------------------------------------

/// The word number `n` of the first line of a request, counted from zero, or nothing.
pub open spec fn line_word(request: Seq<char>, n: int) -> Seq<char> {
    if n < word_seq(line_one(request)).len() {
        word_seq(line_one(request))[n]
    } else {
        seq![]
    }
}

/// Whether a request gets the page that the browser comes back to.
pub open spec fn is_callback(request: Seq<char>) -> bool {
    let target = line_word(request, 1);
    lowered(line_word(request, 0)) == lowered("GET"@) && target.take(
        first_index(target, '?') as int,
    ) == CODEX_CALLBACK_PATH@
}

/// Whether a request gets the page that the browser comes back to.
pub fn is_callback_request(request: &str) -> (r: bool)
    ensures
        r == is_callback(request@),
{
    let line = text::first_line(request);
    let method = text::word_at(line, 0);
    let target = text::word_at(line, 1);
    let path = text::split(target, '?');
    proof {
        let t = target@;
        assert(path.deep_view() == pieces(t, '?'));
        text::lemma_index_within(t, '?');
        assert(pieces(t, '?')[0] =~= t.take(first_index(t, '?') as int));
        assert(path.deep_view().len() == path@.len());
        assert(path.deep_view()[0] == path@[0]@);
    }
    text::same_ignoring_case(method, "GET") && text::same(path[0], CODEX_CALLBACK_PATH)
}

/// The query of a request: what follows the question mark of its target.
pub open spec fn query_of(request: Seq<char>) -> Seq<char> {
    match cut(line_word(request, 1), '?') {
        Some((_, query)) => query,
        None => seq![],
    }
}

/// The raw value of the last pair of a query that has the key `key`.
pub open spec fn last_value(pairs: Seq<Seq<char>>, key: Seq<char>) -> Option<Seq<char>>
    decreases pairs.len(),
{
    if pairs.len() == 0 {
        None
    } else {
        match cut(pairs.last(), '=') {
            Some((found, value)) => if found == key {
                Some(value)
            } else {
                last_value(pairs.drop_last(), key)
            },
            None => last_value(pairs.drop_last(), key),
        }
    }
}

/// The value that a query gives a key.
pub open spec fn query_value(query: Seq<char>, key: Seq<char>) -> Option<Seq<char>> {
    match last_value(pieces(query, '&'), key) {
        Some(value) => Some(unescaped_text(value)),
        None => None,
    }
}

/// Whether every value of a query can be decoded.
pub open spec fn has_decodable_values(query: Seq<char>) -> bool {
    forall|i: int|
        0 <= i < pieces(query, '&').len() ==> (cut(#[trigger] pieces(query, '&')[i], '=') matches Some(
            (_, value),
        ) ==> is_decodable(value))
}

/// Whether a request can be decoded: it is not for the page that the browser comes back to, or
/// every value of its query can be decoded.
pub open spec fn is_readable(request: Seq<char>) -> bool {
    is_callback(request) ==> has_decodable_values(query_of(request))
}

fn query_text(request: &str) -> (r: &str)
    ensures
        r@ == query_of(request@),
{
    let target = text::word_at(text::first_line(request), 1);
    proof {
        reveal_strlit("");
        assert(""@ =~= seq![]);
    }
    match text::split_once(target, '?') {
        Some((_, query)) => query,
        None => "",
    }
}

/// Whether a request can be decoded.
pub fn readable(request: &str) -> (r: bool)
    ensures
        r == is_readable(request@),
{
    if !is_callback_request(request) {
        return true;
    }
    let query = query_text(request);
    let pairs = text::split(query, '&');
    proof {
        assert(pairs.deep_view().len() == pairs@.len());
    }
    let mut i: usize = 0;
    while i < pairs.len()
        invariant
            i <= pairs@.len(),
            is_callback(request@),
            query@ == query_of(request@),
            pairs.deep_view() == pieces(query@, '&'),
            pairs.deep_view().len() == pairs@.len(),
            forall|j: int|
                0 <= j < i ==> (cut(#[trigger] pieces(query@, '&')[j], '=') matches Some((_, value))
                    ==> is_decodable(value)),
        decreases pairs@.len() - i,
    {
        proof {
            assert(pairs.deep_view()[i as int] == pairs@[i as int]@);
        }
        match text::split_once(pairs[i], '=') {
            Some((_, value)) => {
                if !decodable(value) {
                    proof {
                        assert(cut(pieces(query@, '&')[i as int], '=') is Some);
                    }
                    return false;
                }
            },
            None => {},
        }
        i += 1;
    }
    true
}

// ---------------------------------------------------------------------------
// What it carries
// ---------------------------------------------------------------------------

/// What the browser brings back.
#[derive(Debug)]
pub struct CallbackFields {
    pub code: Option<String>,
    pub state: Option<String>,
    pub error: Option<String>,
    pub error_description: Option<String>,
}

/// What `CallbackFields` hold.
#[verifier::ext_equal]
pub struct FieldsView {
    pub code: Option<Seq<char>>,
    pub state: Option<Seq<char>>,
    pub error: Option<Seq<char>>,
    pub error_description: Option<Seq<char>>,
}

impl View for CallbackFields {
    type V = FieldsView;

    open spec fn view(&self) -> FieldsView {
        FieldsView {
            code: self.code.deep_view(),
            state: self.state.deep_view(),
            error: self.error.deep_view(),
            error_description: self.error_description.deep_view(),
        }
    }
}

/// What a query brings back.
pub open spec fn fields_of(query: Seq<char>) -> FieldsView {
    FieldsView {
        code: query_value(query, "code"@),
        state: query_value(query, "state"@),
        error: query_value(query, "error"@),
        error_description: query_value(query, "error_description"@),
    }
}

spec fn value_so_far(query: Seq<char>, n: int, key: Seq<char>) -> Option<Seq<char>> {
    match last_value(pieces(query, '&').take(n), key) {
        Some(value) => Some(unescaped_text(value)),
        None => None,
    }
}

proof fn lemma_keys_differ()
    ensures
        "code"@ != "state"@,
        "code"@ != "error"@,
        "code"@ != "error_description"@,
        "state"@ != "error"@,
        "state"@ != "error_description"@,
        "error"@ != "error_description"@,
{
    reveal_strlit("code");
    reveal_strlit("state");
    reveal_strlit("error");
    reveal_strlit("error_description");
    assert("code"@.len() == 4 && "state"@.len() == 5 && "error"@.len() == 5
        && "error_description"@.len() == 17);
    assert("state"@[0] == 's' && "error"@[0] == 'e');
}

/// What a query brings back.
pub fn read_fields(query: &str) -> (r: CallbackFields)
    requires
        has_decodable_values(query@),
    ensures
        r@ == fields_of(query@),
{
    let pairs = text::split(query, '&');
    let mut fields = CallbackFields { code: None, state: None, error: None, error_description: None };
    proof {
        assert(pairs.deep_view().len() == pairs@.len());
    }
    let mut i: usize = 0;
    while i < pairs.len()
        invariant
            i <= pairs@.len(),
            has_decodable_values(query@),
            pairs.deep_view() == pieces(query@, '&'),
            pairs.deep_view().len() == pairs@.len(),
            fields@.code == value_so_far(query@, i as int, "code"@),
            fields@.state == value_so_far(query@, i as int, "state"@),
            fields@.error == value_so_far(query@, i as int, "error"@),
            fields@.error_description == value_so_far(query@, i as int, "error_description"@),
        decreases pairs@.len() - i,
    {
        proof {
            let all = pieces(query@, '&');
            assert(pairs.deep_view()[i as int] == pairs@[i as int]@);
            assert(all.take(i + 1).drop_last() =~= all.take(i as int));
            assert(all.take(i + 1).last() == all[i as int]);
            lemma_keys_differ();
        }
        match text::split_once(pairs[i], '=') {
            Some((key, value)) => {
                let value = urlencoding_decode(value);
                if text::same(key, "code") {
                    fields.code = Some(value);
                } else if text::same(key, "state") {
                    fields.state = Some(value);
                } else if text::same(key, "error") {
                    fields.error = Some(value);
                } else if text::same(key, "error_description") {
                    fields.error_description = Some(value);
                }
            },
            None => {},
        }
        i += 1;
    }
    proof {
        assert(pieces(query@, '&').take(pairs@.len() as int) =~= pieces(query@, '&'));
    }
    fields
}

/// What to tell the user of an error that the browser brings back: its description, or else its
/// name, without control characters and cut to 200 characters.
pub open spec fn error_message(error: Seq<char>, description: Option<Seq<char>>) -> Seq<char> {
    let detail = match description {
        Some(description) => if trimmed(description).len() == 0 {
            error
        } else {
            description
        },
        None => error,
    };
    "OpenAI authorization failed: "@ + printable_prefix(detail, 200)
}

/// The authorization code, if the browser brings one back for the expected state, or what to tell
/// the user.
pub open spec fn callback_outcome(fields: FieldsView, expected_state: Seq<char>) -> Result<
    Seq<char>,
    Seq<char>,
> {
    if fields.error is Some {
        Err(error_message(fields.error->0, fields.error_description))
    } else if fields.state is None {
        Err("ChatGPT sign-in did not include a state value."@)
    } else if fields.state->0 != expected_state {
        Err("ChatGPT sign-in state did not match."@)
    } else if fields.code is None || fields.code->0.len() == 0 {
        Err("ChatGPT sign-in did not include a code."@)
    } else {
        Ok(fields.code->0)
    }
}

/// The authorization code in a request, or what to tell the user.
pub open spec fn callback(request: Seq<char>, expected_state: Seq<char>) -> Result<
    Seq<char>,
    Seq<char>,
> {
    if is_callback(request) {
        callback_outcome(fields_of(query_of(request)), expected_state)
    } else {
        Err("Rejected an unexpected sign-in callback."@)
    }
}

/// What reading a code came to.
pub open spec fn code_result(r: Result<String, String>) -> Result<Seq<char>, Seq<char>> {
    match r {
        Ok(code) => Ok(code@),
        Err(message) => Err(message@),
    }
}

/// The authorization code, if the browser brings one back for the expected state, or what to tell
/// the user.
pub fn settle_callback(fields: &CallbackFields, expected_state: &str) -> (r: Result<String, String>)
    ensures
        code_result(r) == callback_outcome(fields@, expected_state@),
{
    match &fields.error {
        Some(error) => {
            let detail = match &fields.error_description {
                Some(description) => if text::trim(description.as_str()).is_empty() {
                    error
                } else {
                    description
                },
                None => error,
            };
            let mut message = "OpenAI authorization failed: ".to_owned();
            let printable = text::printable(detail.as_str(), 200);
            vstd::string::StringExecFns::append(&mut message, printable.as_str());
            return Err(message);
        },
        None => {},
    }
    let state = match &fields.state {
        Some(state) => state,
        None => {
            return Err("ChatGPT sign-in did not include a state value.".to_owned());
        },
    };
    proof {
        encode_utf8_decode_utf8(state@);
        encode_utf8_decode_utf8(expected_state@);
    }
    if !constant_eq(state.as_str().as_bytes(), expected_state.as_bytes()) {
        return Err("ChatGPT sign-in state did not match.".to_owned());
    }
    match &fields.code {
        Some(code) => if code.as_str().is_empty() {
            Err("ChatGPT sign-in did not include a code.".to_owned())
        } else {
            Ok(code.clone())
        },
        None => Err("ChatGPT sign-in did not include a code.".to_owned()),
    }
}

/// The authorization code in a request, or what to tell the user.
pub fn callback_code(request: &str, expected_state: &str) -> (r: Result<String, String>)
    requires
        is_readable(request@),
    ensures
        code_result(r) == callback(request@, expected_state@),
{
    if !is_callback_request(request) {
        return Err("Rejected an unexpected sign-in callback.".to_owned());
    }
    let fields = read_fields(query_text(request));
    settle_callback(&fields, expected_state)
}

// ---------------------------------------------------------------------------
// Laws
// ---------------------------------------------------------------------------

/// A request that does not bring back the expected state yields no code.
pub proof fn law_code_needs_the_state(request: Seq<char>, expected_state: Seq<char>)
    requires
        query_value(query_of(request), "state"@) != Some(expected_state),
    ensures
        callback(request, expected_state) is Err,
{
}

/// A request that brings back an error yields no code, whatever else it brings.
pub proof fn law_error_yields_no_code(request: Seq<char>, expected_state: Seq<char>)
    requires
        query_value(query_of(request), "error"@) is Some,
    ensures
        callback(request, expected_state) is Err,
{
}

/// What the user is told of an error holds no control character and keeps to a limit.
pub proof fn law_error_message_is_printable(error: Seq<char>, description: Option<Seq<char>>)
    ensures
        error_message(error, description).len() <= "OpenAI authorization failed: "@.len() + 200,
        forall|i: int|
            0 <= i < error_message(error, description).len() ==> !text::is_control(
                #[trigger] error_message(error, description)[i],
            ),
{
    let detail = match description {
        Some(description) => if trimmed(description).len() == 0 {
            error
        } else {
            description
        },
        None => error,
    };
    let head = "OpenAI authorization failed: "@;
    text::lemma_printable(detail, 200);
    reveal_strlit("OpenAI authorization failed: ");
    let message = error_message(error, description);
    assert forall|i: int| 0 <= i < message.len() implies !text::is_control(#[trigger] message[i]) by {
        if i < head.len() {
            assert(message[i] == head[i]);
        } else {
            assert(message[i] == printable_prefix(detail, 200)[i - head.len()]);
        }
    }
}

/// A byte escaped: a percent sign and its two hexadecimal digits.
pub open spec fn escaped_byte(b: u8) -> Seq<char> {
    seq!['%', hex_digit(b / 16), hex_digit(b % 16)]
}

/// Bytes, every one of them escaped.
pub open spec fn escaped(data: Seq<u8>) -> Seq<char>
    decreases data.len(),
{
    if data.len() == 0 {
        seq![]
    } else {
        escaped_byte(data[0]) + escaped(data.drop_first())
    }
}

proof fn lemma_escaped_ascii(data: Seq<u8>)
    ensures
        is_ascii_chars(escaped(data)),
        escaped(data).len() == 3 * data.len(),
        forall|i: int|
            0 <= i < escaped(data).len() ==> is_hex_digit(#[trigger] escaped(data)[i])
                || escaped(data)[i] == '%',
    decreases data.len(),
{
    if data.len() > 0 {
        lemma_escaped_ascii(data.drop_first());
    }
}

proof fn lemma_pair_of_digits(b: u8)
    ensures
        pair_value(hex_digit(b / 16) as u8, hex_digit(b % 16) as u8) == Some(b),
{
    assert(16 * (b / 16) + b % 16 == b);
}

proof fn lemma_unescaped_escaped(data: Seq<u8>, bytes: Seq<u8>)
    requires
        bytes.len() == escaped(data).len(),
        forall|i: int| 0 <= i < bytes.len() ==> #[trigger] bytes[i] == escaped(data)[i] as u8,
    ensures
        unescaped(bytes) == data,
    decreases data.len(),
{
    lemma_escaped_ascii(data);
    if data.len() > 0 {
        let rest = data.drop_first();
        lemma_escaped_ascii(rest);
        assert(bytes[0] == escaped(data)[0] as u8);
        assert(bytes[1] == escaped(data)[1] as u8);
        assert(bytes[2] == escaped(data)[2] as u8);
        lemma_pair_of_digits(data[0]);
        assert forall|i: int| 0 <= i < bytes.skip(3).len() implies #[trigger] bytes.skip(3)[i]
            == escaped(rest)[i] as u8 by {
            assert(bytes.skip(3)[i] == bytes[i + 3]);
            assert(escaped(data)[i + 3] == escaped(rest)[i]);
        }
        lemma_unescaped_escaped(rest, bytes.skip(3));
        assert(seq![data[0]] + rest =~= data);
    } else {
        assert(unescaped(bytes) =~= data);
    }
}

/// Escaped text is read back, whatever it holds.
pub proof fn law_escaped_text_is_read_back(s: Seq<char>)
    ensures
        unescaped_text(escaped(encode_utf8(s))) == s,
{
    let data = encode_utf8(s);
    let value = escaped(data);
    lemma_escaped_ascii(data);
    is_ascii_chars_encode_utf8(value);
    lemma_unescaped_escaped(data, encode_utf8(value));
    encode_utf8_valid_utf8(s);
    encode_utf8_decode_utf8(s);
}

/// The request by which a browser brings back a code and a state, both escaped already.
pub open spec fn return_request(code: Seq<char>, state: Seq<char>) -> Seq<char> {
    "GET /auth/callback?code="@ + code + "&state="@ + state + " HTTP/1.1\r\n"@
}

/// Whether a value fits into a query as it is: it holds no white space and no ampersand.
pub open spec fn is_query_value(value: Seq<char>) -> bool {
    forall|i: int| 0 <= i < value.len() ==> !text::is_space(#[trigger] value[i]) && value[i] != '&'
}

proof fn lemma_word_first(word: Seq<char>, rest: Seq<char>)
    requires
        forall|i: int| 0 <= i < word.len() ==> !text::is_space(#[trigger] word[i]),
    ensures
        text::word_len(word + seq![' '] + rest) == word.len(),
    decreases word.len(),
{
    let s = word + seq![' '] + rest;
    if word.len() > 0 {
        let tail = word.drop_first();
        assert(!text::is_space(word[0]));
        assert(s[0] == word[0]);
        assert forall|i: int| 0 <= i < tail.len() implies !text::is_space(#[trigger] tail[i]) by {
            assert(tail[i] == word[i + 1]);
        }
        lemma_word_first(tail, rest);
        assert(s.drop_first() =~= tail + seq![' '] + rest);
    } else {
        assert(s[0] == ' ');
    }
}

proof fn lemma_words(word: Seq<char>, rest: Seq<char>)
    requires
        word.len() > 0,
        forall|i: int| 0 <= i < word.len() ==> !text::is_space(#[trigger] word[i]),
    ensures
        word_seq(word + seq![' '] + rest) == seq![word] + word_seq(rest),
{
    let s = word + seq![' '] + rest;
    let n = word.len() as int;
    lemma_word_first(word, rest);
    assert(!text::is_space(word[0]));
    assert(s[0] == word[0]);
    assert(s.take(n) =~= word);
    assert(s.skip(n) =~= seq![' '] + rest);
    assert(s.skip(n)[0] == ' ');
    assert(s.skip(n).drop_first() =~= rest);
    assert(word_seq(s.skip(n)) == word_seq(rest));
}

proof fn lemma_cut(head: Seq<char>, c: char, tail: Seq<char>)
    requires
        forall|i: int| 0 <= i < head.len() ==> #[trigger] head[i] != c,
    ensures
        first_index(head + seq![c] + tail, c) == head.len(),
        cut(head + seq![c] + tail, c) == Some((head, tail)),
{
    let s = head + seq![c] + tail;
    assert forall|j: int| 0 <= j < head.len() implies s[j] != c by {
        assert(s[j] == head[j]);
    }
    assert(s[head.len() as int] == c);
    text::lemma_first_index(s, c, head.len() as int);
    assert(s.take(head.len() as int) =~= head);
    assert(s.skip(head.len() + 1int) =~= tail);
}

proof fn lemma_whole_piece(s: Seq<char>, c: char)
    requires
        forall|i: int| 0 <= i < s.len() ==> #[trigger] s[i] != c,
    ensures
        pieces(s, c) == seq![s],
{
    text::lemma_first_index(s, c, s.len() as int);
}

/// The words of the first line of such a request.
proof fn lemma_return_words(code: Seq<char>, state: Seq<char>)
    requires
        is_query_value(code),
        is_query_value(state),
    ensures
        line_word(return_request(code, state), 0) == "GET"@,
        line_word(return_request(code, state), 1) == CODEX_CALLBACK_PATH@ + seq!['?'] + (
        "code"@ + seq!['='] + code + seq!['&'] + ("state"@ + seq!['='] + state)),
{
    let request = return_request(code, state);
    let target = CODEX_CALLBACK_PATH@ + seq!['?'] + ("code"@ + seq!['='] + code + seq!['&'] + (
    "state"@ + seq!['='] + state));
    let version = "HTTP/1.1"@;
    let line = "GET"@ + seq![' '] + (target + seq![' '] + version);
    reveal_strlit("GET /auth/callback?code=");
    reveal_strlit("&state=");
    reveal_strlit(" HTTP/1.1\r\n");
    reveal_strlit("/auth/callback");
    reveal_strlit("GET");
    reveal_strlit("code");
    reveal_strlit("state");
    reveal_strlit("HTTP/1.1");
    assert forall|i: int| 0 <= i < target.len() implies !text::is_space(#[trigger] target[i]) by {
        if i < 14 {
            assert(target[i] == CODEX_CALLBACK_PATH@[i]);
        } else if i < 20 {
        } else if i < 20 + code.len() {
            assert(target[i] == code[i - 20]);
        } else if i < 27 + code.len() {
        } else {
            assert(target[i] == state[i - 27 - code.len()]);
        }
    }
    assert(request =~= line + seq!['\r', '\n']);
    assert forall|i: int| 0 <= i < line.len() implies #[trigger] line[i] != '\n' by {
        if 4 <= i < 4 + target.len() {
            assert(line[i] == target[i - 4]);
            assert(!text::is_space(target[i - 4]));
        }
    }
    assert forall|j: int| 0 <= j < line.len() + 1 implies request[j] != '\n' by {
        if j < line.len() {
            assert(request[j] == line[j]);
        }
    }
    text::lemma_first_index(request, '\n', line.len() + 1int);
    assert(request.take(line.len() as int) =~= line);
    assert(line_one(request) == line);
    lemma_words("GET"@, target + seq![' '] + version);
    lemma_words(target, version);
    let words = word_seq(line);
    assert(words == seq!["GET"@] + (seq![target] + word_seq(version)));
    assert(words[0] == "GET"@);
    assert(words[1] == target);
}

/// What a browser brings back reaches the sign-in: a code, with the state that was expected.
pub proof fn law_browser_brings_the_code(code: Seq<char>, state: Seq<char>)
    requires
        is_query_value(code),
        is_query_value(state),
        unescaped_text(code).len() > 0,
    ensures
        callback(return_request(code, state), unescaped_text(state)) == Ok::<_, Seq<char>>(
            unescaped_text(code),
        ),
        is_decodable(code) && is_decodable(state) ==> is_readable(return_request(code, state)),
{
    let request = return_request(code, state);
    let first = "code"@ + seq!['='] + code;
    let second = "state"@ + seq!['='] + state;
    let query = first + seq!['&'] + second;
    let target = CODEX_CALLBACK_PATH@ + seq!['?'] + query;
    lemma_return_words(code, state);
    lemma_keys_differ();
    reveal_strlit("/auth/callback");
    reveal_strlit("code");
    reveal_strlit("state");
    lemma_cut(CODEX_CALLBACK_PATH@, '?', query);
    assert(target.take(first_index(target, '?') as int) =~= CODEX_CALLBACK_PATH@);
    assert(is_callback(request));
    assert(query_of(request) == query);
    assert forall|i: int| 0 <= i < first.len() implies #[trigger] first[i] != '&' by {
        if i >= 5 {
            assert(first[i] == code[i - 5]);
        }
    }
    assert forall|i: int| 0 <= i < second.len() implies #[trigger] second[i] != '&' by {
        if i >= 6 {
            assert(second[i] == state[i - 6]);
        }
    }
    lemma_cut(first, '&', second);
    lemma_whole_piece(second, '&');
    assert(query.take(first_index(query, '&') as int) =~= first);
    assert(query.skip(first_index(query, '&') + 1int) =~= second);
    assert(pieces(query, '&') =~= seq![first, second]);
    lemma_cut("code"@, '=', code);
    lemma_cut("state"@, '=', state);
    let both = seq![first, second];
    assert(both.drop_last() =~= seq![first]);
    assert(seq![first].drop_last() =~= Seq::<Seq<char>>::empty());
    reveal_with_fuel(last_value, 3);
    assert(last_value(both, "state"@) == Some(state));
    assert(last_value(both, "code"@) == Some(code));
    assert(last_value(both, "error"@) is None);
}

proof fn lemma_ascii_decodable(value: Seq<char>)
    requires
        is_ascii_chars(value),
    ensures
        is_decodable(value),
{
    let bytes = encode_utf8(value);
    is_ascii_chars_encode_utf8(value);
    encode_utf8_valid_utf8(value);
    is_char_boundary_start_end_of_seq(bytes);
    assert forall|i: int| 0 <= i && i + 2 < bytes.len() && #[trigger] bytes[i] == 37 implies
        is_char_boundary(bytes, i + 3) by {
        if i + 3 < bytes.len() {
            assert(value[i + 3] as u8 == bytes[i + 3]);
            is_char_boundary_iff_not_is_continuation_byte(bytes, i + 3);
        }
    }
}

/// Whatever code and state a sign-in is made with, a browser that brings them back escaped is
/// understood.
pub proof fn law_escaped_callback_is_understood(code: Seq<char>, state: Seq<char>)
    requires
        code.len() > 0,
    ensures
        is_readable(return_request(escaped(encode_utf8(code)), escaped(encode_utf8(state)))),
        callback(
            return_request(escaped(encode_utf8(code)), escaped(encode_utf8(state))),
            state,
        ) == Ok::<_, Seq<char>>(code),
{
    lemma_escaped_ascii(encode_utf8(code));
    lemma_escaped_ascii(encode_utf8(state));
    law_escaped_text_is_read_back(code);
    law_escaped_text_is_read_back(state);
    lemma_ascii_decodable(escaped(encode_utf8(code)));
    lemma_ascii_decodable(escaped(encode_utf8(state)));
    law_browser_brings_the_code(escaped(encode_utf8(code)), escaped(encode_utf8(state)));
}

} // verus!
