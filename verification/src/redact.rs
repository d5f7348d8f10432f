//! Taking secrets out of text that is shown or logged.

use vstd::prelude::*;
use vstd::utf8::{decode_utf8, decode_utf8_split, encode_utf8, encode_utf8_decode_utf8, encode_utf8_valid_utf8, is_char_boundary, valid_utf8_split, decode_utf8_encode_utf8};
use crate::text;
use crate::text::{occurs_in, replaced, trimmed};

verus! {

/// What stands in place of a secret.
pub const MARK: &'static str = "[redacted]";

/// The most bytes that redacted text takes.
pub const REDACTED_BYTES: usize = 500;

// ---------------------------------------------------------------------------
// Masking
// ---------------------------------------------------------------------------

/// Whether a secret is long enough to be looked for: at least 8 bytes, trimmed.
pub open spec fn is_maskable(secret: Seq<char>) -> bool {
    encode_utf8(trimmed(secret)).len() >= 8
}

/// `s` with one secret masked.
pub open spec fn masked_one(s: Seq<char>, secret: Seq<char>) -> Seq<char> {
    if is_maskable(secret) {
        replaced(s, trimmed(secret), MARK@)
    } else {
        s
    }
}

/// `s` with the secrets masked one after the other.
pub open spec fn masked_all(s: Seq<char>, secrets: Seq<Seq<char>>) -> Seq<char>
    decreases secrets.len(),
{
    if secrets.len() == 0 {
        s
    } else {
        masked_one(masked_all(s, secrets.drop_last()), secrets.last())
    }
}

/// `text` with the secrets masked one after the other.
pub fn mask_secrets(text: &str, secrets: &[&str]) -> (r: String)
    ensures
        r@ == masked_all(text@, secrets.deep_view()),
{
    let mut out = text.to_owned();
    let mut i: usize = 0;
    while i < secrets.len()
        invariant
            i <= secrets@.len(),
            out@ == masked_all(text@, secrets.deep_view().take(i as int)),
        decreases secrets@.len() - i,
    {
        let secret = text::trim(secrets[i]);
        let bytes: usize = secret.as_bytes().len();
        proof {
            let all = secrets.deep_view();
            assert(all.len() == secrets@.len());
            assert(all[i as int] == secrets@[i as int]@);
            assert(all.take(i + 1).drop_last() =~= all.take(i as int));
            assert(all.take(i + 1).last() == all[i as int]);
        }
        if bytes >= 8 {
            proof {
                if secret@.len() == 0 {
                    assert(encode_utf8(secret@).len() == 0);
                }
            }
            out = text::replace(out.as_str(), secret, MARK);
        }
        i += 1;
    }
    proof {
        assert(secrets.deep_view().take(secrets@.len() as int) =~= secrets.deep_view());
    }
    out
}

// ---------------------------------------------------------------------------
// Cutting
// ---------------------------------------------------------------------------

/// Whether text can be cut where redacted text ends: it is no longer, or a character ends there.
pub open spec fn is_cuttable(s: Seq<char>) -> bool {
    encode_utf8(s).len() <= REDACTED_BYTES || is_char_boundary(
        encode_utf8(s),
        REDACTED_BYTES as int,
    )
}

/// Whether masked text can be cut where redacted text ends.
pub fn cuttable(s: &str) -> (r: bool)
    ensures
        r == is_cuttable(s@),
{
    s.as_bytes().len() <= REDACTED_BYTES || s.is_char_boundary(REDACTED_BYTES)
}

/// The start of `s` that takes as many bytes as redacted text may, or `s` where it takes no more.
pub open spec fn shortened(s: Seq<char>) -> Seq<char> {
    if encode_utf8(s).len() > REDACTED_BYTES {
        decode_utf8(encode_utf8(s).subrange(0, REDACTED_BYTES as int))
    } else {
        s
    }
}

/// `s` with the secrets masked, cut to what redacted text may take.
pub open spec fn redacted(s: Seq<char>, secrets: Seq<Seq<char>>) -> Seq<char> {
    shortened(masked_all(s, secrets))
}

/// `text` with the secrets masked, cut to what redacted text may take. The masked text must be
/// one that can be cut there.
pub fn redact(text: &str, secrets: &[&str]) -> (r: String)
    requires
        is_cuttable(masked_all(text@, secrets.deep_view())),
    ensures
        r@ == redacted(text@, secrets.deep_view()),
{
    let out = mask_secrets(text, secrets);
    if out.as_str().as_bytes().len() > REDACTED_BYTES {
        let (head, _) = out.as_str().split_at(REDACTED_BYTES);
        proof {
            encode_utf8_decode_utf8(head@);
        }
        return head.to_owned();
    }
    out
}

// ---------------------------------------------------------------------------
// Laws
// ---------------------------------------------------------------------------

/// Whether `a`, laid over `b` with its start at position `at` of `b`, agrees with it wherever
/// both have a character.
pub open spec fn agrees(a: Seq<char>, b: Seq<char>, at: int) -> bool {
    forall|k: int| 0 <= k < a.len() && 0 <= k + at < b.len() ==> #[trigger] a[k] == b[k + at]
}

/// Whether `a` can share characters with an occurrence of `b`.
pub open spec fn can_overlap(a: Seq<char>, b: Seq<char>) -> bool {
    exists|at: int| -a.len() < at < b.len() && #[trigger] agrees(a, b, at)
}

/// Where the start of a text with replacements spells the rest of `part`, so does the start of
/// the text itself.
proof fn lemma_prefix_kept(
    part: Seq<char>,
    k: int,
    s: Seq<char>,
    pattern: Seq<char>,
    put: Seq<char>,
)
    requires
        pattern.len() > 0,
        put.len() > 0,
        0 <= k <= part.len(),
        !can_overlap(part, put),
        part.skip(k).is_prefix_of(replaced(s, pattern, put)),
    ensures
        part.skip(k).is_prefix_of(s),
    decreases s.len(),
{
    let rest = part.skip(k);
    let out = replaced(s, pattern, put);
    if s.len() == 0 || rest.len() == 0 {
    } else if pattern.is_prefix_of(s) {
        assert(agrees(part, put, -k)) by {
            assert forall|j: int| 0 <= j < part.len() && 0 <= j - k < put.len() implies
                #[trigger] part[j] == put[j - k] by {
                assert(rest[j - k] == part[j]);
                assert(out[j - k] == put[j - k]);
                assert(rest[j - k] == out[j - k]);
            }
        }
        assert(false);
    } else {
        let tail = s.drop_first();
        let next = part.skip(k + 1);
        assert(out == seq![s[0]] + replaced(tail, pattern, put));
        assert(rest[0] == out[0]);
        assert forall|j: int| 0 <= j < next.len() implies next[j] == replaced(
            tail,
            pattern,
            put,
        )[j] by {
            assert(next[j] == rest[j + 1]);
            assert(rest[j + 1] == out[j + 1]);
        }
        assert(next.is_prefix_of(replaced(tail, pattern, put)));
        lemma_prefix_kept(part, k + 1, tail, pattern, put);
        assert forall|j: int| 0 <= j < rest.len() implies rest[j] == s[j] by {
            if j > 0 {
                assert(rest[j] == next[j - 1]);
                assert(next[j - 1] == tail[j - 1]);
            }
        }
    }
}

/// Replacing adds no occurrence of a text that cannot overlap what is put in, and leaves none of
/// the text that is replaced.
proof fn lemma_replaced_clean(
    part: Seq<char>,
    i: int,
    s: Seq<char>,
    pattern: Seq<char>,
    put: Seq<char>,
)
    requires
        pattern.len() > 0,
        put.len() > 0,
        part.len() > 0,
        !can_overlap(part, put),
        0 <= i <= replaced(s, pattern, put).len() - part.len(),
        replaced(s, pattern, put).subrange(i, i + part.len()) == part,
    ensures
        part != pattern,
        occurs_in(part, s),
    decreases s.len(),
{
    let out = replaced(s, pattern, put);
    if s.len() == 0 {
    } else if pattern.is_prefix_of(s) {
        let rest = s.skip(pattern.len() as int);
        let more = replaced(rest, pattern, put);
        if i < put.len() {
            assert forall|k: int| 0 <= k < part.len() && 0 <= k + i < put.len() implies
                #[trigger] part[k] == put[k + i] by {
                assert(out.subrange(i, i + part.len())[k] == out[k + i]);
            }
            assert(agrees(part, put, i));
            assert(false);
        }
        let at = i - put.len();
        assert(more.subrange(at, at + part.len()) =~= out.subrange(i, i + part.len()));
        lemma_replaced_clean(part, at, rest, pattern, put);
        let found = choose|j: int|
            0 <= j <= rest.len() - part.len() && #[trigger] rest.subrange(j, j + part.len()) == part;
        let there = found + pattern.len();
        assert(s.subrange(there, there + part.len()) =~= rest.subrange(found, found + part.len()));
    } else {
        let tail = s.drop_first();
        let more = replaced(tail, pattern, put);
        if i == 0 {
            assert(part.skip(0) =~= part);
            assert(part.is_prefix_of(out)) by {
                assert(out.subrange(0, part.len() as int) == part);
            }
            lemma_prefix_kept(part, 0, s, pattern, put);
            assert(s.subrange(0, 0int + part.len()) =~= part);
        } else {
            assert(more.subrange(i - 1, i - 1 + part.len()) =~= out.subrange(i, i + part.len()));
            lemma_replaced_clean(part, i - 1, tail, pattern, put);
            let found = choose|j: int|
                0 <= j <= tail.len() - part.len() && #[trigger] tail.subrange(j, j + part.len())
                    == part;
            assert(s.subrange(found + 1, found + 1 + part.len()) =~= tail.subrange(
                found,
                found + part.len(),
            ));
        }
    }
}

proof fn lemma_maskable_has_text(secret: Seq<char>)
    requires
        is_maskable(secret),
    ensures
        trimmed(secret).len() > 0,
{
    if trimmed(secret).len() == 0 {
        assert(encode_utf8(trimmed(secret)).len() == 0);
    }
}

proof fn lemma_masked_clean(s: Seq<char>, secrets: Seq<Seq<char>>, i: int)
    requires
        0 <= i < secrets.len(),
        is_maskable(secrets[i]),
        !can_overlap(trimmed(secrets[i]), MARK@),
    ensures
        !occurs_in(trimmed(secrets[i]), masked_all(s, secrets)),
    decreases secrets.len(),
{
    let part = trimmed(secrets[i]);
    let before = masked_all(s, secrets.drop_last());
    let out = masked_all(s, secrets);
    reveal_strlit("[redacted]");
    assert(MARK@.len() == 10);
    lemma_maskable_has_text(secrets[i]);
    if i < secrets.len() - 1 {
        lemma_masked_clean(s, secrets.drop_last(), i);
    }
    if occurs_in(part, out) {
        if is_maskable(secrets.last()) {
            lemma_maskable_has_text(secrets.last());
            let at = choose|j: int|
                0 <= j <= out.len() - part.len() && #[trigger] out.subrange(j, j + part.len())
                    == part;
            lemma_replaced_clean(part, at, before, trimmed(secrets.last()), MARK@);
        }
    }
}

proof fn lemma_shortened(s: Seq<char>)
    requires
        is_cuttable(s),
    ensures
        shortened(s).is_prefix_of(s),
        encode_utf8(shortened(s)).len() <= REDACTED_BYTES,
{
    let bytes = encode_utf8(s);
    if bytes.len() > REDACTED_BYTES {
        encode_utf8_valid_utf8(s);
        encode_utf8_decode_utf8(s);
        let head = bytes.subrange(0, REDACTED_BYTES as int);
        valid_utf8_split(bytes, REDACTED_BYTES as int);
        decode_utf8_split(bytes, REDACTED_BYTES as int);
        decode_utf8_encode_utf8(head);
    }
}

/// A secret that was to be masked does not occur in what comes out, unless it is one that can
/// share characters with the mark itself.
pub proof fn law_secrets_do_not_show(s: Seq<char>, secrets: Seq<Seq<char>>, i: int)
    requires
        is_cuttable(masked_all(s, secrets)),
        0 <= i < secrets.len(),
        is_maskable(secrets[i]),
        !can_overlap(trimmed(secrets[i]), MARK@),
    ensures
        !occurs_in(trimmed(secrets[i]), redacted(s, secrets)),
{
    let part = trimmed(secrets[i]);
    let whole = masked_all(s, secrets);
    let out = redacted(s, secrets);
    lemma_masked_clean(s, secrets, i);
    lemma_shortened(whole);
    if occurs_in(part, out) {
        let at = choose|j: int|
            0 <= j <= out.len() - part.len() && #[trigger] out.subrange(j, j + part.len()) == part;
        assert(whole.subrange(at, at + part.len()) =~= out.subrange(at, at + part.len()));
    }
}

/// What comes out takes no more bytes than redacted text may.
pub proof fn law_redacted_is_short(s: Seq<char>, secrets: Seq<Seq<char>>)
    requires
        is_cuttable(masked_all(s, secrets)),
    ensures
        encode_utf8(redacted(s, secrets)).len() <= REDACTED_BYTES,
{
    lemma_shortened(masked_all(s, secrets));
}

proof fn lemma_nothing_to_replace(s: Seq<char>, pattern: Seq<char>, put: Seq<char>)
    requires
        !occurs_in(pattern, s),
    ensures
        replaced(s, pattern, put) == s,
    decreases s.len(),
{
    if s.len() > 0 && pattern.len() > 0 {
        let tail = s.drop_first();
        if pattern.is_prefix_of(s) {
            assert(s.subrange(0, 0int + pattern.len()) =~= pattern);
        }
        if occurs_in(pattern, tail) {
            let at = choose|j: int|
                0 <= j <= tail.len() - pattern.len() && #[trigger] tail.subrange(
                    j,
                    j + pattern.len(),
                ) == pattern;
            assert(s.subrange(at + 1, at + 1 + pattern.len()) =~= tail.subrange(
                at,
                at + pattern.len(),
            ));
        }
        lemma_nothing_to_replace(tail, pattern, put);
        assert(seq![s[0]] + tail =~= s);
    }
}

proof fn lemma_nothing_to_mask(s: Seq<char>, secrets: Seq<Seq<char>>)
    requires
        forall|i: int|
            0 <= i < secrets.len() && is_maskable(secrets[i]) ==> !occurs_in(
                trimmed(#[trigger] secrets[i]),
                s,
            ),
    ensures
        masked_all(s, secrets) == s,
    decreases secrets.len(),
{
    if secrets.len() > 0 {
        let fewer = secrets.drop_last();
        assert forall|i: int| 0 <= i < fewer.len() && is_maskable(fewer[i]) implies !occurs_in(
            trimmed(#[trigger] fewer[i]),
            s,
        ) by {
            assert(fewer[i] == secrets[i]);
        }
        lemma_nothing_to_mask(s, fewer);
        if is_maskable(secrets.last()) {
            assert(secrets[secrets.len() - 1] == secrets.last());
            lemma_nothing_to_replace(s, trimmed(secrets.last()), MARK@);
        }
    }
}

/// Text in which no secret occurs is left as it is, if it is short enough.
pub proof fn law_other_text_is_kept(s: Seq<char>, secrets: Seq<Seq<char>>)
    requires
        encode_utf8(s).len() <= REDACTED_BYTES,
        forall|i: int|
            0 <= i < secrets.len() && is_maskable(secrets[i]) ==> !occurs_in(
                trimmed(#[trigger] secrets[i]),
                s,
            ),
    ensures
        redacted(s, secrets) == s,
{
    lemma_nothing_to_mask(s, secrets);
}

} // verus!
