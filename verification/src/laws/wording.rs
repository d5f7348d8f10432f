//! Laws of text: what is cut out of it, what is put into it, and what it stands for.

use vstd::prelude::*;
use vstd::utf8::{encode_utf8, decode_utf8_encode_utf8, encode_utf8_valid_utf8, valid_utf8_split};
use crate::callback::{callback, digit_value, is_callback, last_value, line_word, query_of, query_value, unescaped, unescaped_text};
use crate::digest::{hex, hmac, is_hex_digit, sha256};
use crate::redact::{is_cuttable, masked_all, redacted};
use crate::system::{is_local, is_openable};
use crate::text::{cut, first_index, is_control, is_space, lemma_first_index, lemma_index_found, lemma_index_within, lemma_none_before_index, lemma_printable_filter, lemma_trimmed_between, line_one, lower_char, lowered, occurs_in, pieces, precedes, printable_prefix, replaced, trimmed, without_trailing, word_len, word_seq};

verus! {

/// Whether `c` does not stand in `s`.
pub open spec fn is_free_of(s: Seq<char>, c: char) -> bool {
    forall|i: int| 0 <= i < s.len() ==> #[trigger] s[i] != c
}

/// Whether every character is white space.
pub open spec fn is_blank(s: Seq<char>) -> bool {
    forall|i: int| 0 <= i < s.len() ==> is_space(#[trigger] s[i])
}

/// Whether a text is one word: it has characters, and none of them is white space.
pub open spec fn is_word(s: Seq<char>) -> bool {
    s.len() > 0 && forall|i: int| 0 <= i < s.len() ==> !is_space(#[trigger] s[i])
}

// ---------------------------------------------------------------------------
// Cutting
// ---------------------------------------------------------------------------

/// Trimming takes away the white space at both ends, all of it and nothing else.
pub proof fn law_trimming_leaves_the_core(before: Seq<char>, core: Seq<char>, after: Seq<char>)
    requires
        is_blank(before),
        is_blank(after),
        core.len() > 0 ==> !is_space(core[0]) && !is_space(core.last()),
    ensures
        trimmed(before + core + after) == core,
{
    lemma_trimmed_between(before, core, after);
}

/// A run of a character at the end goes, all of it and nothing else.
pub proof fn law_trailing_run_goes(core: Seq<char>, run: Seq<char>, c: char)
    requires
        core.len() > 0 ==> core.last() != c,
        forall|i: int| 0 <= i < run.len() ==> #[trigger] run[i] == c,
    ensures
        without_trailing(core + run, c) == core,
    decreases run.len(),
{
    let s = core + run;
    if run.len() > 0 {
        assert(run[run.len() - 1] == c);
        assert(s.last() == run.last());
        assert(s.drop_last() =~= core + run.drop_last());
        law_trailing_run_goes(core, run.drop_last(), c);
    } else {
        assert(s =~= core);
    }
}

/// A text is cut at the first of a character: what stands before it and what stands after it. A
/// text without that character is not cut.
pub proof fn law_cut_at_the_first(head: Seq<char>, c: char, tail: Seq<char>)
    requires
        is_free_of(head, c),
    ensures
        cut(head + seq![c] + tail, c) == Some((head, tail)),
        cut(head, c) is None,
{
    let s = head + seq![c] + tail;
    assert forall|j: int| 0 <= j < head.len() implies s[j] != c by {
        assert(s[j] == head[j]);
    }
    assert(s[head.len() as int] == c);
    lemma_first_index(s, c, head.len() as int);
    lemma_first_index(head, c, head.len() as int);
    assert(s.take(head.len() as int) =~= head);
    assert(s.skip(head.len() + 1int) =~= tail);
}

/// A text splits into what stands before the first of a character and the pieces of what stands
/// after it; a text without that character is one piece.
pub proof fn law_pieces_between(head: Seq<char>, c: char, tail: Seq<char>)
    requires
        is_free_of(head, c),
    ensures
        pieces(head + seq![c] + tail, c) == seq![head] + pieces(tail, c),
        pieces(head, c) == seq![head],
{
    let s = head + seq![c] + tail;
    law_cut_at_the_first(head, c, tail);
    lemma_first_index(head, c, head.len() as int);
    assert forall|j: int| 0 <= j < head.len() implies s[j] != c by {
        assert(s[j] == head[j]);
    }
    assert(s[head.len() as int] == c);
    lemma_first_index(s, c, head.len() as int);
    assert(s.take(head.len() as int) =~= head);
    assert(s.skip(head.len() + 1int) =~= tail);
}

proof fn lemma_word_then(word: Seq<char>, rest: Seq<char>)
    requires
        forall|i: int| 0 <= i < word.len() ==> !is_space(#[trigger] word[i]),
        rest.len() > 0 ==> is_space(rest[0]),
    ensures
        word_len(word + rest) == word.len(),
    decreases word.len(),
{
    let s = word + rest;
    if word.len() > 0 {
        assert(!is_space(word[0]));
        assert(s[0] == word[0]);
        assert(s.drop_first() =~= word.drop_first() + rest);
        lemma_word_then(word.drop_first(), rest);
    } else {
        assert(s =~= rest);
    }
}

/// White space between words does not count; a word ends at white space or at the end.
pub proof fn law_words_of_a_line(space: char, word: Seq<char>, rest: Seq<char>)
    requires
        is_space(space),
        is_word(word),
        rest.len() > 0 ==> is_space(rest[0]),
    ensures
        word_seq(Seq::<char>::empty()).len() == 0,
        word_seq(seq![space] + rest) == word_seq(rest),
        word_seq(word + rest) == seq![word] + word_seq(rest),
{
    let spaced = seq![space] + rest;
    assert(spaced[0] == space);
    assert(spaced.drop_first() =~= rest);
    let s = word + rest;
    let n = word.len() as int;
    lemma_word_then(word, rest);
    assert(!is_space(word[0]));
    assert(s[0] == word[0]);
    assert(s.take(n) =~= word);
    assert(s.skip(n) =~= rest);
}

/// The first line ends at a line feed, or at a carriage return right before one, or with the text.
pub proof fn law_first_line_ends(line: Seq<char>, rest: Seq<char>)
    requires
        is_free_of(line, '\n'),
    ensures
        line_one(line) == line,
        line_one(line + seq!['\r', '\n'] + rest) == line,
        line.len() == 0 || line.last() != '\r' ==> line_one(line + seq!['\n'] + rest) == line,
{
    lemma_first_index(line, '\n', line.len() as int);
    assert(line.take(line.len() as int) =~= line);
    let long = line + seq!['\r', '\n'] + rest;
    assert forall|j: int| 0 <= j < line.len() + 1 implies long[j] != '\n' by {
        if j < line.len() {
            assert(long[j] == line[j]);
        }
    }
    assert(long[line.len() + 1int] == '\n');
    lemma_first_index(long, '\n', line.len() + 1int);
    assert(long.take(line.len() as int) =~= line);
    let short = line + seq!['\n'] + rest;
    assert forall|j: int| 0 <= j < line.len() implies short[j] != '\n' by {
        assert(short[j] == line[j]);
    }
    assert(short[line.len() as int] == '\n');
    lemma_first_index(short, '\n', line.len() as int);
    assert(short.take(line.len() as int) =~= line);
}

/// Lowering maps `A` to `Z` to the letters 32 further on and keeps every other character.
pub proof fn law_lowering_keeps_the_rest(s: Seq<char>, i: int)
    requires
        0 <= i < s.len(),
    ensures
        lowered(s).len() == s.len(),
        65 <= s[i] as u32 <= 90 ==> lowered(s)[i] as u32 == s[i] as u32 + 32,
        !(65 <= s[i] as u32 <= 90) ==> lowered(s)[i] == s[i],
{
}

/// One text comes before another if it is a start of it, or has the lesser character where they
/// first differ.
pub proof fn law_order_of_texts(shared: Seq<char>, a: Seq<char>, b: Seq<char>)
    requires
        a.len() > 0 && b.len() > 0 ==> a[0] != b[0],
    ensures
        precedes(shared + a, shared + b) <==> b.len() > 0 && (a.len() == 0 || a[0] < b[0]),
    decreases shared.len(),
{
    if shared.len() > 0 {
        assert((shared + a).drop_first() =~= shared.drop_first() + a);
        assert((shared + b).drop_first() =~= shared.drop_first() + b);
        law_order_of_texts(shared.drop_first(), a, b);
    } else {
        assert(shared + a =~= a);
        assert(shared + b =~= b);
    }
}

/// What may be shown of a text are its characters that are no control characters, in their order,
/// up to a limit.
pub proof fn law_printable_is_a_filter(s: Seq<char>, limit: nat)
    ensures
        ({
            let plain = s.filter(|c: char| !is_control(c));
            &&& plain.len() <= limit ==> printable_prefix(s, limit) == plain
            &&& plain.len() > limit ==> printable_prefix(s, limit) == plain.take(limit as int)
        }),
{
    lemma_printable_filter(s, limit);
}

// ---------------------------------------------------------------------------
// Replacing and redacting
// ---------------------------------------------------------------------------

/// Whether the first occurrence of `part` in `s` stands at `at`.
pub open spec fn first_occurs_at(part: Seq<char>, s: Seq<char>, at: int) -> bool {
    &&& 0 <= at <= s.len() - part.len()
    &&& s.subrange(at, at + part.len()) == part
    &&& forall|i: int|
        0 <= i < at && i + part.len() <= s.len() ==> #[trigger] s.subrange(i, i + part.len()) != part
}

/// Replacing puts the new text at the first occurrence, keeps what stands before it, and goes on
/// behind it; a text without an occurrence stays as it is.
pub proof fn law_replacing_goes_from_the_left(
    s: Seq<char>,
    pattern: Seq<char>,
    put: Seq<char>,
    at: int,
)
    requires
        pattern.len() > 0,
    ensures
        first_occurs_at(pattern, s, at) ==> replaced(s, pattern, put) == s.take(at) + put + replaced(
            s.skip(at + pattern.len()),
            pattern,
            put,
        ),
        !occurs_in(pattern, s) ==> replaced(s, pattern, put) == s,
    decreases s.len(),
{
    let n = pattern.len() as int;
    if s.len() > 0 {
        let tail = s.drop_first();
        if first_occurs_at(pattern, s, at) {
            if at == 0 {
                assert(pattern.is_prefix_of(s));
                assert(s.take(0) + put =~= put);
            } else {
                assert(s.subrange(0, 0 + n) != pattern);
                assert(!pattern.is_prefix_of(s));
                assert(tail.subrange(at - 1, at - 1 + n) =~= s.subrange(at, at + n));
                assert forall|i: int| 0 <= i < at - 1 && i + n <= tail.len() implies #[trigger] tail.subrange(
                    i,
                    i + n,
                ) != pattern by {
                    assert(tail.subrange(i, i + n) =~= s.subrange(i + 1, i + 1 + n));
                }
                law_replacing_goes_from_the_left(tail, pattern, put, at - 1);
                assert(tail.skip(at - 1 + n) =~= s.skip(at + n));
                let rest = replaced(s.skip(at + n), pattern, put);
                assert(seq![s[0]] + (tail.take(at - 1) + put + rest) =~= s.take(at) + put + rest);
            }
        }
        if !occurs_in(pattern, s) {
            if pattern.is_prefix_of(s) {
                assert(s.subrange(0, 0 + n) =~= pattern);
            }
            if occurs_in(pattern, tail) {
                let j = choose|j: int|
                    0 <= j <= tail.len() - pattern.len() && #[trigger] tail.subrange(
                        j,
                        j + pattern.len(),
                    ) == pattern;
                assert(s.subrange(j + 1, j + 1 + n) =~= tail.subrange(j, j + n));
            }
            law_replacing_goes_from_the_left(tail, pattern, put, at);
            assert(seq![s[0]] + tail =~= s);
        }
    }
}

/// Each secret is masked in what masking the ones before it left: every occurrence of it, trimmed,
/// by `[redacted]`, if it takes 8 bytes or more, and not at all if it takes less. Without secrets
/// nothing is masked.
pub proof fn law_secrets_are_masked_in_turn(s: Seq<char>, secrets: Seq<Seq<char>>, secret: Seq<char>)
    ensures
        masked_all(s, Seq::<Seq<char>>::empty()) == s,
        encode_utf8(trimmed(secret)).len() >= 8 ==> masked_all(s, secrets.push(secret)) == replaced(
            masked_all(s, secrets),
            trimmed(secret),
            "[redacted]"@,
        ),
        encode_utf8(trimmed(secret)).len() < 8 ==> masked_all(s, secrets.push(secret)) == masked_all(
            s,
            secrets,
        ),
{
    assert(secrets.push(secret).drop_last() =~= secrets);
}

/// Redacted text is the masked text, or the start of it that takes 500 bytes, if it takes more.
pub proof fn law_redacted_text_is_a_start(s: Seq<char>, secrets: Seq<Seq<char>>)
    requires
        is_cuttable(masked_all(s, secrets)),
    ensures
        ({
            let bytes = encode_utf8(masked_all(s, secrets));
            if bytes.len() > 500 {
                encode_utf8(redacted(s, secrets)) == bytes.take(500)
            } else {
                redacted(s, secrets) == masked_all(s, secrets)
            }
        }),
{
    let masked = masked_all(s, secrets);
    let bytes = encode_utf8(masked);
    if bytes.len() > 500 {
        encode_utf8_valid_utf8(masked);
        valid_utf8_split(bytes, 500);
        decode_utf8_encode_utf8(bytes.subrange(0, 500));
        assert(bytes.subrange(0, 500) =~= bytes.take(500));
    }
}

// ---------------------------------------------------------------------------
// The page that the browser comes back to
// ---------------------------------------------------------------------------

/// A request is for the page exactly if it is a `GET`, in any case, of its path, alone or with a
/// query, whatever follows.
pub proof fn law_page_is_known_by_its_path(
    method: Seq<char>,
    target: Seq<char>,
    rest: Seq<char>,
    query: Seq<char>,
)
    requires
        is_word(method),
        is_word(target),
        is_free_of(rest, '\n'),
    ensures
        ({
            let request = method + seq![' '] + target + (seq![' '] + rest);
            &&& is_callback(request) <==> lowered(method) == lowered("GET"@) && (target
                == "/auth/callback"@ || exists|query: Seq<char>|
                target == "/auth/callback?"@ + query)
            &&& target == "/auth/callback?"@ + query ==> query_of(request) == query
            &&& is_free_of(target, '?') ==> query_of(request) == Seq::<char>::empty()
        }),
{
    let request = method + seq![' '] + target + (seq![' '] + rest);
    let after = seq![' '] + rest;
    reveal_strlit("/auth/callback");
    reveal_strlit("/auth/callback?");
    let path = "/auth/callback"@;
    let open = "/auth/callback?"@;
    assert(open =~= path + seq!['?']);
    assert forall|i: int| 0 <= i < request.len() implies #[trigger] request[i] != '\n' by {
        if i < method.len() {
            assert(request[i] == method[i]);
            assert(!is_space(method[i]));
        } else if i == method.len() {
        } else if i < method.len() + 1 + target.len() {
            assert(request[i] == target[i - method.len() - 1]);
            assert(!is_space(target[i - method.len() - 1]));
        } else if i > method.len() + 1 + target.len() {
            assert(request[i] == rest[i - method.len() - 2 - target.len()]);
        }
    }
    law_first_line_ends(request, Seq::<char>::empty());
    let tail = seq![' '] + (target + after);
    assert(request =~= method + tail);
    law_words_of_a_line(' ', method, tail);
    law_words_of_a_line(' ', target, after);
    assert(word_seq(tail) == word_seq(target + after)) by {
        assert(tail[0] == ' ');
        assert(tail.drop_first() =~= target + after);
    }
    let words = word_seq(request);
    assert(words == seq![method] + (seq![target] + word_seq(after)));
    assert(words[0] == method && words[1] == target);
    assert(line_word(request, 0) == method && line_word(request, 1) == target);
    lemma_index_within(target, '?');
    lemma_index_found(target, '?');
    lemma_none_before_index(target, '?');
    let i = first_index(target, '?') as int;
    let found = target.take(i);
    if target == path {
        lemma_first_index(target, '?', target.len() as int);
        assert(found =~= path);
    }
    if exists|query: Seq<char>| target == open + query {
        let q = choose|query: Seq<char>| target == open + query;
        assert(open + q =~= path + seq!['?'] + q);
        law_cut_at_the_first(path, '?', q);
        lemma_first_index(target, '?', 14);
        assert(found =~= path);
    }
    if found == path {
        if i < target.len() {
            let q = target.skip(i + 1);
            assert(target =~= open + q);
        } else {
            assert(found =~= target);
        }
    }
    if target == open + query {
        assert(open + query =~= path + seq!['?'] + query);
        law_cut_at_the_first(path, '?', query);
    }
    if is_free_of(target, '?') {
        law_cut_at_the_first(target, '?', Seq::<char>::empty());
    }
}

proof fn lemma_pieces_snoc(query: Seq<char>, pair: Seq<char>, c: char)
    requires
        is_free_of(pair, c),
    ensures
        pieces(query + seq![c] + pair, c) == pieces(query, c).push(pair),
    decreases query.len(),
{
    lemma_index_within(query, c);
    lemma_index_found(query, c);
    lemma_none_before_index(query, c);
    let i = first_index(query, c) as int;
    let head = query.take(i);
    assert(is_free_of(head, c));
    if i < query.len() {
        let tail = query.skip(i + 1);
        assert(query =~= head + seq![c] + tail);
        assert(query + seq![c] + pair =~= head + seq![c] + (tail + seq![c] + pair));
        law_pieces_between(head, c, tail + seq![c] + pair);
        law_pieces_between(head, c, tail);
        lemma_pieces_snoc(tail, pair, c);
        assert(seq![head] + pieces(tail, c).push(pair) =~= (seq![head] + pieces(tail, c)).push(pair));
    } else {
        assert(head =~= query);
        law_pieces_between(query, c, pair);
        law_pieces_between(pair, c, Seq::<char>::empty());
        assert(seq![query] + seq![pair] =~= seq![query].push(pair));
    }
}

/// The last pair of a query counts: it gives its key the value that its escapes stand for, and
/// leaves the other keys what the pairs before it give them. What is no pair counts for nothing.
pub proof fn law_last_pair_counts(query: Seq<char>, key: Seq<char>, value: Seq<char>, other: Seq<char>)
    requires
        is_free_of(key, '='),
        is_free_of(key, '&'),
        is_free_of(value, '&'),
        other != key,
    ensures
        query_value(query + seq!['&'] + (key + seq!['='] + value), key) == Some(unescaped_text(value)),
        query_value(query + seq!['&'] + (key + seq!['='] + value), other) == query_value(query, other),
        query_value(key + seq!['='] + value, key) == Some(unescaped_text(value)),
        query_value(key + seq!['='] + value, other) is None,
        query_value(query + seq!['&'] + key, other) == query_value(query, other),
        query_value(query + seq!['&'] + key, key) == query_value(query, key),
        query_value(key, key) is None,
{
    let pair = key + seq!['='] + value;
    assert(is_free_of(pair, '&')) by {
        assert forall|i: int| 0 <= i < pair.len() implies #[trigger] pair[i] != '&' by {
            if i < key.len() {
                assert(pair[i] == key[i]);
            } else if i > key.len() {
                assert(pair[i] == value[i - key.len() - 1]);
            }
        }
    }
    lemma_pieces_snoc(query, pair, '&');
    lemma_pieces_snoc(query, key, '&');
    law_cut_at_the_first(key, '=', value);
    law_pieces_between(pair, '&', Seq::<char>::empty());
    law_pieces_between(key, '&', Seq::<char>::empty());
    let before = pieces(query, '&');
    assert(before.push(pair).drop_last() =~= before);
    assert(before.push(key).drop_last() =~= before);
    assert(seq![pair].drop_last() =~= Seq::<Seq<char>>::empty());
    assert(seq![key].drop_last() =~= Seq::<Seq<char>>::empty());
    reveal_with_fuel(last_value, 2);
}

/// Escapes are undone from the left: a plus sign stands for a space, a percent sign and two
/// characters for the byte that these spell in hexadecimal, any other byte for itself. A percent
/// sign before two characters that spell no byte is dropped; one that fewer follow stays.
pub proof fn law_escapes_are_undone(first: u8, rest: Seq<u8>)
    ensures
        unescaped(Seq::<u8>::empty()).len() == 0,
        first != 37 && first != 43 ==> unescaped(seq![first] + rest) == seq![first] + unescaped(rest),
        unescaped(seq![43u8] + rest) == seq![32u8] + unescaped(rest),
        rest.len() < 2 ==> unescaped(seq![37u8] + rest) == seq![37u8] + unescaped(rest),
        rest.len() >= 2 ==> (match (digit_value(rest[0]), digit_value(rest[1])) {
            (Some(high), Some(low)) => unescaped(seq![37u8] + rest) == seq![(16 * high + low) as u8]
                + unescaped(rest.skip(2)),
            (None, Some(low)) => unescaped(seq![37u8] + rest) == (if rest[0] == 43 {
                seq![low] + unescaped(rest.skip(2))
            } else {
                unescaped(rest)
            }),
            (_, None) => unescaped(seq![37u8] + rest) == unescaped(rest),
        }),
{
    let plain = seq![first] + rest;
    let plus = seq![43u8] + rest;
    let escape = seq![37u8] + rest;
    assert(plain.drop_first() =~= rest);
    assert(plus.drop_first() =~= rest);
    assert(escape.drop_first() =~= rest);
    assert(plain[0] == first && plus[0] == 43 && escape[0] == 37);
    if rest.len() >= 2 {
        assert(escape[1] == rest[0] && escape[2] == rest[1]);
        assert(escape.skip(3) =~= rest.skip(2));
    }
}

/// What the user is told of the browser's return, and when a code comes of it: only for the page,
/// without an error, with the expected state and with a code that is not empty.
pub proof fn law_return_is_judged(request: Seq<char>, expected: Seq<char>)
    ensures
        ({
            let query = query_of(request);
            let code = query_value(query, "code"@);
            let state = query_value(query, "state"@);
            let error = query_value(query, "error"@);
            let words = query_value(query, "error_description"@);
            let outcome = callback(request, expected);
            if !is_callback(request) {
                outcome == Err::<Seq<char>, _>("Rejected an unexpected sign-in callback."@)
            } else if error is Some {
                let told = if words is Some && trimmed(words->0).len() > 0 {
                    words->0
                } else {
                    error->0
                };
                let plain = told.filter(|c: char| !is_control(c));
                outcome == Err::<Seq<char>, _>(
                    "OpenAI authorization failed: "@ + if plain.len() > 200 {
                        plain.take(200)
                    } else {
                        plain
                    },
                )
            } else if state is None {
                outcome == Err::<Seq<char>, _>("ChatGPT sign-in did not include a state value."@)
            } else if state != Some(expected) {
                outcome == Err::<Seq<char>, _>("ChatGPT sign-in state did not match."@)
            } else if code is None || code == Some(Seq::<char>::empty()) {
                outcome == Err::<Seq<char>, _>("ChatGPT sign-in did not include a code."@)
            } else {
                outcome == Ok::<_, Seq<char>>(code->0)
            }
        }),
{
    let query = query_of(request);
    let code = query_value(query, "code"@);
    let error = query_value(query, "error"@);
    let words = query_value(query, "error_description"@);
    if code is Some {
        assert((code->0).len() == 0 ==> code->0 =~= Seq::<char>::empty());
    }
    if error is Some {
        lemma_printable_filter(error->0, 200);
        if words is Some {
            lemma_printable_filter(words->0, 200);
        }
    }
}

// ---------------------------------------------------------------------------
// Addresses
// ---------------------------------------------------------------------------

/// An address is handed to the system exactly if, trimmed, it is one word without control
/// characters that starts with `http:`, `https:` or `mailto:`, in any case.
pub proof fn law_addresses_that_open(url: Seq<char>)
    ensures
        is_openable(url) <==> {
            let u = trimmed(url);
            &&& forall|i: int| 0 <= i < u.len() ==> !is_space(#[trigger] u[i]) && !is_control(u[i])
            &&& exists|scheme: Seq<char>, rest: Seq<char>|
                u == #[trigger] (scheme + seq![':'] + rest) && (lowered(scheme) == "http"@ || lowered(
                    scheme,
                ) == "https"@ || lowered(scheme) == "mailto"@)
        },
{
    let u = trimmed(url);
    reveal_strlit("http");
    reveal_strlit("https");
    reveal_strlit("mailto");
    assert(lowered("http"@) =~= "http"@);
    assert(lowered("https"@) =~= "https"@);
    assert(lowered("mailto"@) =~= "mailto"@);
    if is_openable(url) {
        let i = first_index(u, ':') as int;
        lemma_index_found(u, ':');
        let scheme = u.take(i);
        let rest = u.skip(i + 1);
        assert(u =~= scheme + seq![':'] + rest);
    }
    if exists|scheme: Seq<char>, rest: Seq<char>|
        u == #[trigger] (scheme + seq![':'] + rest) && (lowered(scheme) == "http"@ || lowered(scheme)
            == "https"@ || lowered(scheme) == "mailto"@) {
        let (scheme, rest) = choose|scheme: Seq<char>, rest: Seq<char>|
            u == #[trigger] (scheme + seq![':'] + rest) && (lowered(scheme) == "http"@ || lowered(
                scheme,
            ) == "https"@ || lowered(scheme) == "mailto"@);
        assert(is_free_of(scheme, ':')) by {
            assert forall|i: int| 0 <= i < scheme.len() implies #[trigger] scheme[i] != ':' by {
                assert(lowered(scheme)[i] == lower_char(scheme[i]));
            }
        }
        law_cut_at_the_first(scheme, ':', rest);
        assert(u.len() > 0);
    }
}

/// An address stays in the window exactly if, trimmed, it is empty, starts with `about:`, or is
/// the origin of the application, without slashes at its end, alone or with a path, a query or a
/// fragment behind it.
pub proof fn law_addresses_that_stay(origin: Seq<char>, slashes: Seq<char>, url: Seq<char>)
    requires
        origin.len() > 0 ==> origin.last() != '/',
        forall|i: int| 0 <= i < slashes.len() ==> #[trigger] slashes[i] == '/',
    ensures
        is_local(origin + slashes, url) <==> {
            let u = trimmed(url);
            ||| u == Seq::<char>::empty()
            ||| u == origin
            ||| exists|rest: Seq<char>| u == #[trigger] ("about:"@ + rest)
            ||| exists|rest: Seq<char>|
                u == #[trigger] (origin + rest) && rest.len() > 0 && (rest[0] == '/' || rest[0] == '?'
                    || rest[0] == '#')
        },
{
    let u = trimmed(url);
    let about = "about:"@;
    law_trailing_run_goes(origin, slashes, '/');
    assert(u.len() == 0 ==> u =~= Seq::<char>::empty());
    if about.is_prefix_of(u) {
        let rest = u.skip(about.len() as int);
        assert(u =~= about + rest);
    }
    if exists|rest: Seq<char>| u == #[trigger] (about + rest) {
        let rest = choose|rest: Seq<char>| u == #[trigger] (about + rest);
        assert((about + rest).subrange(0, about.len() as int) =~= about);
    }
    if origin.is_prefix_of(u) {
        let rest = u.skip(origin.len() as int);
        assert(u =~= origin + rest);
        assert(rest.len() == 0 ==> origin + rest =~= origin);
    }
    if u == origin {
        assert(u.subrange(0, origin.len() as int) =~= origin);
        assert(u.skip(origin.len() as int).len() == 0);
    }
    if exists|rest: Seq<char>|
        u == #[trigger] (origin + rest) && rest.len() > 0 && (rest[0] == '/' || rest[0] == '?'
            || rest[0] == '#') {
        let rest = choose|rest: Seq<char>|
            u == #[trigger] (origin + rest) && rest.len() > 0 && (rest[0] == '/' || rest[0] == '?'
                || rest[0] == '#');
        assert((origin + rest).subrange(0, origin.len() as int) =~= origin);
        assert((origin + rest).skip(origin.len() as int) =~= rest);
    }
}

// ---------------------------------------------------------------------------
// Digests
// ---------------------------------------------------------------------------

/// A hexadecimal text is that of the bytes one after the other, and the two digits of a byte, both
/// lower-case, spell it.
pub proof fn law_hex_spells_its_bytes(a: Seq<u8>, b: Seq<u8>, byte: u8)
    ensures
        hex(a + b) == hex(a) + hex(b),
        hex(seq![byte]).len() == 2,
        is_hex_digit(hex(seq![byte])[0]) && is_hex_digit(hex(seq![byte])[1]),
        (match (digit_value(hex(seq![byte])[0] as u8), digit_value(hex(seq![byte])[1] as u8)) {
            (Some(high), Some(low)) => 16 * high + low == byte,
            _ => false,
        }),
    decreases b.len(),
{
    assert(seq![byte].drop_last() =~= Seq::<u8>::empty());
    assert(hex(Seq::<u8>::empty()) =~= Seq::<char>::empty());
    reveal_with_fuel(hex, 2);
    assert(byte / 16 < 16 && byte % 16 < 16 && 16 * (byte / 16) + byte % 16 == byte);
    assert(hex(seq![byte]) =~= seq![
        crate::digest::hex_digit(byte / 16),
        crate::digest::hex_digit(byte % 16),
    ]);
    if b.len() == 0 {
        assert(a + b =~= a);
        assert(hex(a) + hex(b) =~= hex(a));
    } else {
        assert((a + b).drop_last() =~= a + b.drop_last());
        law_hex_spells_its_bytes(a, b.drop_last(), byte);
        assert(hex(a + b) =~= hex(a) + hex(b));
    }
}

/// The keyed digest is the digest of two blocks and the message, the inner one first: each block
/// has 64 bytes, those of the key and then zeros, combined with a fixed byte. A key longer than a
/// block counts as its digest.
pub proof fn law_keyed_digest_has_two_rounds(
    key: Seq<u8>,
    message: Seq<u8>,
    inner: Seq<u8>,
    outer: Seq<u8>,
)
    requires
        inner.len() == 64,
        outer.len() == 64,
        forall|i: int|
            #![trigger inner[i]]
            0 <= i < 64 ==> inner[i] == (if i < key.len() {
                0x36u8 ^ key[i]
            } else {
                0x36u8 ^ 0u8
            }),
        forall|i: int|
            #![trigger outer[i]]
            0 <= i < 64 ==> outer[i] == (if i < key.len() {
                0x5cu8 ^ key[i]
            } else {
                0x5cu8 ^ 0u8
            }),
    ensures
        key.len() <= 64 ==> hmac(key, message) == sha256(outer + sha256(inner + message)),
        key.len() > 64 && sha256(key).len() <= 64 ==> hmac(key, message) == hmac(sha256(key), message),
{
    if key.len() <= 64 {
        let block = crate::digest::key_block(key);
        assert(crate::digest::masked(block, 0x36) =~= inner);
        assert(crate::digest::masked(block, 0x5c) =~= outer);
    } else if sha256(key).len() <= 64 {
        assert(crate::digest::key_block(key) =~= crate::digest::key_block(sha256(key)));
    }
}

} // verus!
