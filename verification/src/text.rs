//! Text as sequences of Unicode scalar values: trimming, splitting, searching
//! and filtering, each with the sequence it produces.

use vstd::prelude::*;
use vstd::string::StrSliceExecFns;

verus! {

/// `String::push`: appends one character at the end.
pub assume_specification [std::string::String::push](buffer: &mut String, c: char)
    ensures
        final(buffer)@ == old(buffer)@.push(c),
;

// ---------------------------------------------------------------------------
// What the functions below compute
// ---------------------------------------------------------------------------

/// The characters with the Unicode property `White_Space`.
pub open spec fn is_space(c: char) -> bool {
    ||| 0x9 <= c as u32 <= 0xd
    ||| c as u32 == 0x20
    ||| c as u32 == 0x85
    ||| c as u32 == 0xa0
    ||| c as u32 == 0x1680
    ||| 0x2000 <= c as u32 <= 0x200a
    ||| c as u32 == 0x2028
    ||| c as u32 == 0x2029
    ||| c as u32 == 0x202f
    ||| c as u32 == 0x205f
    ||| c as u32 == 0x3000
}

/// The characters of the general category `Cc`.
pub open spec fn is_control(c: char) -> bool {
    c as u32 <= 0x1f || 0x7f <= c as u32 <= 0x9f
}

/// `s` without the white space at its start.
pub open spec fn trimmed_start(s: Seq<char>) -> Seq<char>
    decreases s.len(),
{
    if s.len() > 0 && is_space(s[0]) {
        trimmed_start(s.drop_first())
    } else {
        s
    }
}

/// `s` without the white space at its end.
pub open spec fn trimmed_end(s: Seq<char>) -> Seq<char>
    decreases s.len(),
{
    if s.len() > 0 && is_space(s.last()) {
        trimmed_end(s.drop_last())
    } else {
        s
    }
}

/// `s` without the white space at either end.
pub open spec fn trimmed(s: Seq<char>) -> Seq<char> {
    trimmed_end(trimmed_start(s))
}

/// `s` without the run of `c` at its end.
pub open spec fn without_trailing(s: Seq<char>, c: char) -> Seq<char>
    decreases s.len(),
{
    if s.len() > 0 && s.last() == c {
        without_trailing(s.drop_last(), c)
    } else {
        s
    }
}

/// What follows `prefix` in `s`, if `s` starts with it.
pub open spec fn after_prefix(s: Seq<char>, prefix: Seq<char>) -> Option<Seq<char>> {
    if prefix.is_prefix_of(s) {
        Some(s.skip(prefix.len() as int))
    } else {
        None
    }
}

/// The position of the first `c` in `s`, or the length of `s` if there is none.
pub open spec fn first_index(s: Seq<char>, c: char) -> nat
    decreases s.len(),
{
    if s.len() == 0 || s[0] == c {
        0
    } else {
        1 + first_index(s.drop_first(), c)
    }
}

/// What stands before and after the first `c` in `s`.
pub open spec fn cut(s: Seq<char>, c: char) -> Option<(Seq<char>, Seq<char>)> {
    let i = first_index(s, c) as int;
    if i < s.len() {
        Some((s.take(i), s.skip(i + 1)))
    } else {
        None
    }
}

/// The pieces of `s` between the occurrences of `c`: one more than there are occurrences.
pub open spec fn pieces(s: Seq<char>, c: char) -> Seq<Seq<char>>
    decreases s.len(),
{
    let i = first_index(s, c) as int;
    if i < s.len() {
        seq![s.take(i)] + pieces(s.skip(i + 1), c)
    } else {
        seq![s]
    }
}

/// The length of the run of characters at the start of `s` that are not white space.
pub open spec fn word_len(s: Seq<char>) -> nat
    decreases s.len(),
{
    if s.len() == 0 || is_space(s[0]) {
        0
    } else {
        1 + word_len(s.drop_first())
    }
}

/// The maximal runs of characters in `s` that are not white space.
pub open spec fn word_seq(s: Seq<char>) -> Seq<Seq<char>>
    decreases s.len(),
{
    if s.len() == 0 {
        seq![]
    } else if is_space(s[0]) {
        word_seq(s.drop_first())
    } else {
        proof {
            lemma_word_len(s);
        }
        seq![s.take(word_len(s) as int)] + word_seq(s.skip(word_len(s) as int))
    }
}

/// The first line of `s`: what stands before the first line feed, without the
/// carriage return right before that line feed.
pub open spec fn line_one(s: Seq<char>) -> Seq<char> {
    let i = first_index(s, '\n') as int;
    if 0 < i < s.len() && s[i - 1] == '\r' {
        s.take(i - 1)
    } else {
        s.take(i)
    }
}

/// `c`, with `A` to `Z` mapped to `a` to `z`.
pub open spec fn lower_char(c: char) -> char {
    if 'A' <= c <= 'Z' {
        (c as u8 + 32) as char
    } else {
        c
    }
}

/// `s`, with `A` to `Z` mapped to `a` to `z`.
pub open spec fn lowered(s: Seq<char>) -> Seq<char> {
    s.map_values(|c: char| lower_char(c))
}

/// The first `limit` characters of `s` that are not control characters.
pub open spec fn printable_prefix(s: Seq<char>, limit: nat) -> Seq<char>
    decreases s.len(),
{
    if s.len() == 0 || limit == 0 {
        seq![]
    } else if is_control(s[0]) {
        printable_prefix(s.drop_first(), limit)
    } else {
        seq![s[0]] + printable_prefix(s.drop_first(), (limit - 1) as nat)
    }
}

/// `s` with every occurrence of `pattern` replaced by `put`. Occurrences are taken
/// from the left and do not overlap.
pub open spec fn replaced(s: Seq<char>, pattern: Seq<char>, put: Seq<char>) -> Seq<char>
    recommends
        pattern.len() > 0,
    decreases s.len(),
{
    if s.len() == 0 || pattern.len() == 0 {
        s
    } else if pattern.is_prefix_of(s) {
        put + replaced(s.skip(pattern.len() as int), pattern, put)
    } else {
        seq![s[0]] + replaced(s.drop_first(), pattern, put)
    }
}

/// Whether `a` comes before `b` in the lexicographic order of scalar values, which is
/// also the order of the UTF-8 encodings.
pub open spec fn precedes(a: Seq<char>, b: Seq<char>) -> bool
    decreases a.len(),
{
    if b.len() == 0 {
        false
    } else if a.len() == 0 {
        true
    } else if a[0] != b[0] {
        a[0] < b[0]
    } else {
        precedes(a.drop_first(), b.drop_first())
    }
}

/// The decimal digits of `n`, without leading zeros.
pub open spec fn decimal(n: nat) -> Seq<char>
    decreases n,
{
    if n < 10 {
        seq![(n + 48) as char]
    } else {
        decimal(n / 10).push((n % 10 + 48) as char)
    }
}

/// Whether `part` occurs in `s`.
pub open spec fn occurs_in(part: Seq<char>, s: Seq<char>) -> bool {
    exists|i: int| 0 <= i <= s.len() - part.len() && #[trigger] s.subrange(i, i + part.len()) == part
}

/// A word is no longer than the text, and a text that starts with a word has one.
pub proof fn lemma_word_len(s: Seq<char>)
    ensures
        word_len(s) <= s.len(),
        s.len() > 0 && !is_space(s[0]) ==> word_len(s) > 0,
    decreases s.len(),
{
    if s.len() > 0 && !is_space(s[0]) {
        lemma_word_len(s.drop_first());
    }
}

/// The first position of a character is no further than the end of the text.
pub proof fn lemma_index_within(s: Seq<char>, c: char)
    ensures
        first_index(s, c) <= s.len(),
    decreases s.len(),
{
    if s.len() > 0 && s[0] != c {
        lemma_index_within(s.drop_first(), c);
    }
}

/// Where the first position of a character is within the text, the character stands there.
pub proof fn lemma_index_found(s: Seq<char>, c: char)
    ensures
        first_index(s, c) < s.len() ==> s[first_index(s, c) as int] == c,
    decreases s.len(),
{
    if s.len() > 0 && s[0] != c {
        lemma_index_found(s.drop_first(), c);
    }
}

/// Before the first position of a character there is none.
pub proof fn lemma_none_before_index(s: Seq<char>, c: char)
    ensures
        forall|i: int| 0 <= i < first_index(s, c) && i < s.len() ==> #[trigger] s[i] != c,
    decreases s.len(),
{
    if s.len() > 0 && s[0] != c {
        let rest = s.drop_first();
        lemma_none_before_index(rest, c);
        assert forall|i: int| 0 <= i < first_index(s, c) && i < s.len() implies #[trigger] s[i] != c by {
            if i > 0 {
                assert(rest[i - 1] == s[i]);
            }
        }
    }
}

/// A position before which there is no `c`, and at which there is one or the text ends, is the
/// first position of `c`.
pub proof fn lemma_first_index(s: Seq<char>, c: char, i: int)
    requires
        0 <= i <= s.len(),
        forall|j: int| 0 <= j < i ==> s[j] != c,
        i == s.len() || s[i] == c,
    ensures
        first_index(s, c) == i,
    decreases s.len(),
{
    if s.len() > 0 && s[0] != c {
        lemma_first_index(s.drop_first(), c, i - 1);
    }
}

/// No two texts come before each other.
pub proof fn lemma_precedes_asymmetric(a: Seq<char>, b: Seq<char>)
    ensures
        !(precedes(a, b) && precedes(b, a)),
    decreases a.len(),
{
    if a.len() > 0 && b.len() > 0 && a[0] == b[0] {
        lemma_precedes_asymmetric(a.drop_first(), b.drop_first());
    }
}

/// Where `a` comes before `c`, any text comes after `a` or before `c`.
pub proof fn lemma_precedes_between(a: Seq<char>, b: Seq<char>, c: Seq<char>)
    requires
        precedes(a, c),
    ensures
        precedes(a, b) || precedes(b, c),
    decreases a.len(),
{
    if a.len() > 0 && b.len() > 0 && a[0] == b[0] && b[0] == c[0] {
        lemma_precedes_between(a.drop_first(), b.drop_first(), c.drop_first());
    }
}

/// Of two different texts, one comes before the other.
pub proof fn lemma_precedes_total(a: Seq<char>, b: Seq<char>)
    ensures
        a == b || precedes(a, b) || precedes(b, a),
    decreases a.len(),
{
    if a.len() == 0 {
        assert(b.len() == 0 ==> a =~= b);
    } else if b.len() > 0 && a[0] == b[0] {
        lemma_precedes_total(a.drop_first(), b.drop_first());
        if a.drop_first() == b.drop_first() {
            assert(a =~= seq![a[0]] + a.drop_first());
            assert(b =~= seq![b[0]] + b.drop_first());
        }
    }
}

/// Trimming makes no text longer.
pub proof fn lemma_trimmed_short(s: Seq<char>)
    ensures
        trimmed_start(s).len() <= s.len(),
        trimmed(s).len() <= s.len(),
{
    lemma_start_short(s);
    lemma_end_short(trimmed_start(s));
}

proof fn lemma_start_short(s: Seq<char>)
    ensures
        trimmed_start(s).len() <= s.len(),
    decreases s.len(),
{
    if s.len() > 0 && is_space(s[0]) {
        lemma_start_short(s.drop_first());
    }
}

proof fn lemma_end_short(s: Seq<char>)
    ensures
        trimmed_end(s).len() <= s.len(),
    decreases s.len(),
{
    if s.len() > 0 && is_space(s.last()) {
        lemma_end_short(s.drop_last());
    }
}

/// Trimmed text is trimmed already.
pub proof fn lemma_trimmed_twice(s: Seq<char>)
    ensures
        trimmed(trimmed(s)) == trimmed(s),
{
    lemma_start_done(s);
    lemma_end_done(trimmed_start(s));
    let t = trimmed(s);
    assert(trimmed_start(t) == t);
    assert(trimmed_end(t) == t);
}

proof fn lemma_start_done(s: Seq<char>)
    ensures
        trimmed_start(s).len() > 0 ==> !is_space(trimmed_start(s)[0]),
    decreases s.len(),
{
    if s.len() > 0 && is_space(s[0]) {
        lemma_start_done(s.drop_first());
    }
}

proof fn lemma_end_done(s: Seq<char>)
    ensures
        trimmed_end(s).len() > 0 ==> !is_space(trimmed_end(s).last()) && trimmed_end(s)[0] == s[0],
    decreases s.len(),
{
    if s.len() > 0 && is_space(s.last()) {
        lemma_end_done(s.drop_last());
    }
}

/// A text without control characters passes whole if it is within the limit.
pub proof fn lemma_printable_whole(s: Seq<char>, limit: nat)
    requires
        s.len() <= limit,
        forall|i: int| 0 <= i < s.len() ==> !is_control(#[trigger] s[i]),
    ensures
        printable_prefix(s, limit) == s,
    decreases s.len(),
{
    if s.len() > 0 {
        let rest = s.drop_first();
        assert forall|i: int| 0 <= i < rest.len() implies !is_control(#[trigger] rest[i]) by {
            assert(rest[i] == s[i + 1]);
        }
        assert(!is_control(s[0]));
        lemma_printable_whole(rest, (limit - 1) as nat);
        assert(seq![s[0]] + rest =~= s);
    } else {
        assert(printable_prefix(s, limit) =~= s);
    }
}

/// What passes holds no control character and keeps to the limit.
pub proof fn lemma_printable(s: Seq<char>, limit: nat)
    ensures
        printable_prefix(s, limit).len() <= limit,
        forall|i: int|
            0 <= i < printable_prefix(s, limit).len() ==> !is_control(
                #[trigger] printable_prefix(s, limit)[i],
            ),
    decreases s.len(),
{
    if s.len() > 0 && limit > 0 {
        if is_control(s[0]) {
            lemma_printable(s.drop_first(), limit);
        } else {
            lemma_printable(s.drop_first(), (limit - 1) as nat);
        }
    }
}

/// What passes are the characters that are no control characters, up to the limit.
pub proof fn lemma_printable_filter(s: Seq<char>, limit: nat)
    ensures
        printable_prefix(s, limit) == ({
            let plain = s.filter(|c: char| !is_control(c));
            if plain.len() > limit {
                plain.take(limit as int)
            } else {
                plain
            }
        }),
    decreases s.len(),
{
    let keep = |c: char| !is_control(c);
    let plain = s.filter(keep);
    if s.len() == 0 {
        reveal(Seq::filter);
    } else {
        let rest = s.drop_first();
        assert(s =~= seq![s[0]] + rest);
        Seq::filter_distributes_over_add(seq![s[0]], rest, keep);
        assert(seq![s[0]].filter(keep) =~= if keep(s[0]) {
            seq![s[0]]
        } else {
            seq![]
        }) by {
            reveal_with_fuel(Seq::<char>::filter, 3);
            let one = seq![s[0]];
            assert(one.drop_last() =~= Seq::<char>::empty());
            assert(one.drop_last().filter(keep) =~= Seq::<char>::empty());
            assert(one.last() == s[0]);
        }
        if limit > 0 {
            if is_control(s[0]) {
                lemma_printable_filter(rest, limit);
                assert(plain =~= rest.filter(keep));
            } else {
                lemma_printable_filter(rest, (limit - 1) as nat);
                assert(plain =~= seq![s[0]] + rest.filter(keep));
                assert(printable_prefix(s, limit) =~= if plain.len() > limit {
                    plain.take(limit as int)
                } else {
                    plain
                });
            }
        } else {
            assert(plain.len() > 0 ==> plain.take(0) =~= Seq::<char>::empty());
            assert(printable_prefix(s, limit) =~= Seq::<char>::empty());
            assert(plain.len() == 0 ==> plain =~= Seq::<char>::empty());
        }
    }
}

/// What stands between white space is what trimming leaves.
pub proof fn lemma_trimmed_between(before: Seq<char>, core: Seq<char>, after: Seq<char>)
    requires
        forall|i: int| 0 <= i < before.len() ==> is_space(#[trigger] before[i]),
        forall|i: int| 0 <= i < after.len() ==> is_space(#[trigger] after[i]),
        core.len() > 0 ==> !is_space(core[0]) && !is_space(core.last()),
    ensures
        trimmed(before + core + after) == core,
    decreases before.len() + after.len(),
{
    let s = before + core + after;
    if before.len() > 0 {
        assert(is_space(before[0]));
        assert(s[0] == before[0]);
        assert(s.drop_first() =~= before.drop_first() + core + after);
        lemma_trimmed_between(before.drop_first(), core, after);
    } else if core.len() == 0 {
        if after.len() > 0 {
            assert(is_space(after[0]));
            assert(s[0] == after[0]);
            assert(s.drop_first() =~= before + core + after.drop_first());
            lemma_trimmed_between(before, core, after.drop_first());
        } else {
            assert(s =~= core);
        }
    } else {
        assert(s[0] == core[0]);
        assert(trimmed_start(s) == s);
        lemma_end_between(core, after);
        assert(s =~= core + after);
    }
}

proof fn lemma_end_between(core: Seq<char>, after: Seq<char>)
    requires
        forall|i: int| 0 <= i < after.len() ==> is_space(#[trigger] after[i]),
        core.len() > 0,
        !is_space(core.last()),
    ensures
        trimmed_end(core + after) == core,
    decreases after.len(),
{
    let s = core + after;
    if after.len() > 0 {
        assert(is_space(after[after.len() - 1]));
        assert(s.last() == after.last());
        assert(s.drop_last() =~= core + after.drop_last());
        lemma_end_between(core, after.drop_last());
    } else {
        assert(s =~= core);
    }
}

/// What is left without a run at the end is a start of the text.
pub proof fn lemma_trailing_prefix(s: Seq<char>, c: char)
    ensures
        without_trailing(s, c).is_prefix_of(s),
    decreases s.len(),
{
    if s.len() > 0 && s.last() == c {
        lemma_trailing_prefix(s.drop_last(), c);
        let left = without_trailing(s, c);
        assert(left =~= s.take(left.len() as int));
    } else {
        assert(s =~= s.take(s.len() as int));
    }
}

// ---------------------------------------------------------------------------
// The functions
// ---------------------------------------------------------------------------

/// The characters of `s`.
pub fn chars_of(s: &str) -> (chars: Vec<char>)
    ensures
        chars@ == s@,
{
    let mut chars: Vec<char> = Vec::new();
    for c in it: s.chars()
        invariant
            it.seq() == s@,
            chars@ == s@.take(it.index() as int),
    {
        chars.push(c);
        proof {
            assert(s@.take(it.index() + 1) == s@.take(it.index() as int).push(c));
        }
    }
    proof {
        assert(s@.take(s@.len() as int) == s@);
    }
    chars
}

/// Whether two texts are the same.
pub fn same(a: &str, b: &str) -> (equal: bool)
    ensures
        equal == (a@ == b@),
{
    a.to_owned() == b.to_owned()
}

/// Whether `c` is white space.
pub fn white_space(c: char) -> (yes: bool)
    ensures
        yes == is_space(c),
{
    let n: u32 = c as u32;
    (0x9 <= n && n <= 0xd) || n == 0x20 || n == 0x85 || n == 0xa0 || n == 0x1680 || (0x2000 <= n && n
        <= 0x200a) || n == 0x2028 || n == 0x2029 || n == 0x202f || n == 0x205f || n == 0x3000
}

/// Whether `c` is a control character.
pub fn control(c: char) -> (yes: bool)
    ensures
        yes == is_control(c),
{
    let n: u32 = c as u32;
    n <= 0x1f || (0x7f <= n && n <= 0x9f)
}

/// `s` without the white space at either end.
pub fn trim(s: &str) -> (r: &str)
    ensures
        r@ == trimmed(s@),
{
    let chars = chars_of(s);
    let mut start: usize = 0;
    proof {
        assert(s@.skip(0) == s@);
    }
    while start < chars.len() && white_space(chars[start])
        invariant
            start <= chars@.len(),
            chars@ == s@,
            trimmed_start(s@) == trimmed_start(s@.skip(start as int)),
        decreases chars@.len() - start,
    {
        proof {
            assert(s@.skip(start as int).drop_first() == s@.skip(start + 1));
        }
        start += 1;
    }
    let mut end: usize = chars.len();
    proof {
        assert(trimmed_start(s@) == s@.skip(start as int));
        assert(s@.subrange(start as int, end as int) == s@.skip(start as int));
    }
    while start < end && white_space(chars[end - 1])
        invariant
            start <= end <= chars@.len(),
            chars@ == s@,
            trimmed(s@) == trimmed_end(s@.subrange(start as int, end as int)),
        decreases end,
    {
        proof {
            assert(s@.subrange(start as int, end as int).drop_last() == s@.subrange(
                start as int,
                end - 1,
            ));
        }
        end -= 1;
    }
    s.substring_char(start, end)
}

/// `s` without the run of `c` at its end.
pub fn trim_trailing(s: &str, c: char) -> (r: &str)
    ensures
        r@ == without_trailing(s@, c),
{
    let chars = chars_of(s);
    let mut end: usize = chars.len();
    proof {
        assert(s@.take(end as int) == s@);
    }
    while 0 < end && chars[end - 1] == c
        invariant
            end <= chars@.len(),
            chars@ == s@,
            without_trailing(s@, c) == without_trailing(s@.take(end as int), c),
        decreases end,
    {
        proof {
            assert(s@.take(end as int).drop_last() == s@.take(end - 1));
        }
        end -= 1;
    }
    proof {
        assert(s@.subrange(0, end as int) == s@.take(end as int));
    }
    s.substring_char(0, end)
}

/// Whether the characters from `at` on start with `part`.
fn matches_at(chars: &[char], at: usize, part: &[char]) -> (yes: bool)
    requires
        at <= chars@.len(),
    ensures
        yes == part@.is_prefix_of(chars@.skip(at as int)),
{
    if part.len() > chars.len() - at {
        return false;
    }
    let mut i: usize = 0;
    while i < part.len()
        invariant
            i <= part@.len(),
            at + part@.len() <= chars.len(),
            forall|j: int| 0 <= j < i ==> part@[j] == chars@[at + j],
        decreases part@.len() - i,
    {
        if chars[at + i] != part[i] {
            proof {
                assert(chars@.skip(at as int)[i as int] == chars@[at + i]);
            }
            return false;
        }
        i += 1;
    }
    proof {
        assert(chars@.skip(at as int).take(part@.len() as int) == part@);
    }
    true
}

/// What follows `prefix` in `s`, if `s` starts with it.
pub fn strip_prefix<'a>(s: &'a str, prefix: &str) -> (r: Option<&'a str>)
    ensures
        r is Some <==> after_prefix(s@, prefix@) is Some,
        r is Some ==> r->0@ == after_prefix(s@, prefix@)->0,
{
    let chars = chars_of(s);
    let part = chars_of(prefix);
    proof {
        assert(s@.skip(0) == s@);
    }
    if matches_at(&chars, 0, &part) {
        proof {
            assert(s@.subrange(part@.len() as int, s@.len() as int) == s@.skip(part@.len() as int));
        }
        Some(s.substring_char(part.len(), chars.len()))
    } else {
        None
    }
}

/// Whether `s` starts with `prefix`.
pub fn starts_with(s: &str, prefix: &str) -> (yes: bool)
    ensures
        yes == prefix@.is_prefix_of(s@),
{
    strip_prefix(s, prefix).is_some()
}

/// The position of the first `c` among `chars`, or their number if there is none.
fn position(chars: &[char], c: char) -> (i: usize)
    ensures
        i == first_index(chars@, c),
        i <= chars@.len(),
{
    let mut i: usize = 0;
    while i < chars.len() && chars[i] != c
        invariant
            i <= chars@.len(),
            forall|j: int| 0 <= j < i ==> chars@[j] != c,
        decreases chars@.len() - i,
    {
        i += 1;
    }
    proof {
        lemma_first_index(chars@, c, i as int);
    }
    i
}

/// What stands before and after the first `c` in `s`.
pub fn split_once(s: &str, c: char) -> (r: Option<(&str, &str)>)
    ensures
        r is Some <==> cut(s@, c) is Some,
        r matches Some((head, tail)) ==> cut(s@, c) == Some((head@, tail@)),
{
    let chars = chars_of(s);
    let i: usize = position(&chars, c);
    if i < chars.len() {
        proof {
            assert(s@.subrange(0, i as int) == s@.take(i as int));
            assert(s@.subrange(i + 1, s@.len() as int) == s@.skip(i + 1));
        }
        Some((s.substring_char(0, i), s.substring_char(i + 1, chars.len())))
    } else {
        None
    }
}

/// The pieces of `s` between the occurrences of `c`.
pub fn split(s: &str, c: char) -> (r: Vec<&str>)
    ensures
        r.deep_view() == pieces(s@, c),
{
    let mut out: Vec<&str> = Vec::new();
    let mut rest: &str = s;
    loop
        invariant
            out.deep_view() + pieces(rest@, c) == pieces(s@, c),
        decreases rest@.len(),
    {
        match split_once(rest, c) {
            Some((head, tail)) => {
                let ghost before = out.deep_view();
                let ghost all = rest@;
                out.push(head);
                rest = tail;
                proof {
                    assert(out.deep_view() == before.push(head@));
                    assert(pieces(all, c) == seq![head@] + pieces(tail@, c));
                    assert(before.push(head@) + pieces(tail@, c) == before + (seq![head@] + pieces(
                        tail@,
                        c,
                    )));
                }
            },
            None => {
                let ghost before = out.deep_view();
                out.push(rest);
                proof {
                    assert(out.deep_view() == before + seq![rest@]);
                }
                return out;
            },
        }
    }
}

/// The maximal runs of characters in `s` that are not white space.
pub fn words(s: &str) -> (r: Vec<&str>)
    ensures
        r.deep_view() == word_seq(s@),
{
    let chars = chars_of(s);
    let mut out: Vec<&str> = Vec::new();
    let mut at: usize = 0;
    proof {
        assert(s@.skip(0) == s@);
        assert(out.deep_view() + word_seq(s@) == word_seq(s@));
    }
    while at < chars.len()
        invariant
            chars@ == s@,
            at <= chars@.len(),
            out.deep_view() + word_seq(s@.skip(at as int)) == word_seq(s@),
        decreases chars@.len() - at,
    {
        let ghost rest = s@.skip(at as int);
        if white_space(chars[at]) {
            proof {
                assert(rest.drop_first() == s@.skip(at + 1));
            }
            at += 1;
        } else {
            let mut end: usize = at;
            while end < chars.len() && !white_space(chars[end])
                invariant
                    chars@ == s@,
                    at <= end <= chars@.len(),
                    rest == s@.skip(at as int),
                    word_len(rest) == end - at + word_len(s@.skip(end as int)),
                decreases chars@.len() - end,
            {
                proof {
                    assert(s@.skip(end as int).drop_first() == s@.skip(end + 1));
                }
                end += 1;
            }
            let ghost before = out.deep_view();
            let word = s.substring_char(at, end);
            out.push(word);
            proof {
                lemma_word_len(rest);
                assert(word@ == rest.take(end - at));
                assert(rest.skip(end - at) == s@.skip(end as int));
                assert(out.deep_view() == before.push(word@));
                assert(before.push(word@) + word_seq(s@.skip(end as int)) == before + (seq![word@]
                    + word_seq(s@.skip(end as int))));
            }
            at = end;
        }
    }
    proof {
        assert(out.deep_view() + word_seq(s@.skip(at as int)) == out.deep_view());
    }
    out
}

/// The word number `n` of `s`, counted from zero, or nothing.
pub fn word_at(s: &str, n: usize) -> (r: &str)
    ensures
        r@ == (if n < word_seq(s@).len() {
            word_seq(s@)[n as int]
        } else {
            seq![]
        }),
{
    let all = words(s);
    proof {
        reveal_strlit("");
        assert(all.deep_view().len() == all@.len());
    }
    if n < all.len() {
        proof {
            assert(all.deep_view()[n as int] == all@[n as int]@);
        }
        all[n]
    } else {
        ""
    }
}

/// The first line of `s`, without its line ending.
pub fn first_line(s: &str) -> (r: &str)
    ensures
        r@ == line_one(s@),
{
    let chars = chars_of(s);
    let i: usize = position(&chars, '\n');
    let end: usize = if 0 < i && i < chars.len() && chars[i - 1] == '\r' {
        i - 1
    } else {
        i
    };
    proof {
        assert(s@.subrange(0, end as int) == s@.take(end as int));
    }
    s.substring_char(0, end)
}

/// `c`, with `A` to `Z` mapped to `a` to `z`.
pub fn lower_ascii(c: char) -> (r: char)
    ensures
        r == lower_char(c),
{
    if 'A' <= c && c <= 'Z' {
        (c as u8 + 32) as char
    } else {
        c
    }
}

/// `s`, with `A` to `Z` mapped to `a` to `z`.
pub fn to_lower(s: &str) -> (r: String)
    ensures
        r@ == lowered(s@),
{
    let chars = chars_of(s);
    let mut out = String::new();
    let mut i: usize = 0;
    while i < chars.len()
        invariant
            chars@ == s@,
            i <= chars@.len(),
            out@ == lowered(s@.take(i as int)),
        decreases chars@.len() - i,
    {
        out.push(lower_ascii(chars[i]));
        proof {
            assert(lowered(s@.take(i + 1)) == lowered(s@.take(i as int)).push(
                lower_char(s@[i as int]),
            ));
        }
        i += 1;
    }
    proof {
        assert(s@.take(s@.len() as int) == s@);
    }
    out
}

/// Whether two texts are the same up to the case of `A` to `Z`.
pub fn same_ignoring_case(a: &str, b: &str) -> (equal: bool)
    ensures
        equal == (lowered(a@) == lowered(b@)),
{
    to_lower(a) == to_lower(b)
}

/// The first `limit` characters of `s` that are not control characters.
pub fn printable(s: &str, limit: usize) -> (r: String)
    ensures
        r@ == printable_prefix(s@, limit as nat),
{
    let chars = chars_of(s);
    let mut out = String::new();
    let mut left: usize = limit;
    let mut i: usize = 0;
    proof {
        assert(s@.skip(0) == s@);
        assert(out@ + printable_prefix(s@, limit as nat) == printable_prefix(s@, limit as nat));
    }
    while i < chars.len() && left > 0
        invariant
            chars@ == s@,
            i <= chars@.len(),
            out@ + printable_prefix(s@.skip(i as int), left as nat) == printable_prefix(
                s@,
                limit as nat,
            ),
        decreases chars@.len() - i,
    {
        let c = chars[i];
        let ghost before = out@;
        let ghost rest = s@.skip(i as int);
        proof {
            assert(rest.drop_first() == s@.skip(i + 1));
        }
        if !control(c) {
            out.push(c);
            left -= 1;
            proof {
                assert(before.push(c) + printable_prefix(rest.drop_first(), left as nat) == before
                    + (seq![c] + printable_prefix(rest.drop_first(), left as nat)));
            }
        }
        i += 1;
    }
    proof {
        assert(out@ + printable_prefix(s@.skip(i as int), left as nat) == out@);
    }
    out
}

/// `s` with every occurrence of `pattern` replaced by `put`.
pub fn replace(s: &str, pattern: &str, put: &str) -> (r: String)
    requires
        pattern@.len() > 0,
    ensures
        r@ == replaced(s@, pattern@, put@),
{
    let chars = chars_of(s);
    let part = chars_of(pattern);
    let mut out = String::new();
    let mut i: usize = 0;
    proof {
        assert(s@.skip(0) == s@);
        assert(out@ + replaced(s@, pattern@, put@) == replaced(s@, pattern@, put@));
    }
    while i < chars.len()
        invariant
            chars@ == s@,
            part@ == pattern@,
            pattern@.len() > 0,
            i <= chars@.len(),
            out@ + replaced(s@.skip(i as int), pattern@, put@) == replaced(s@, pattern@, put@),
        decreases chars@.len() - i,
    {
        let ghost before = out@;
        let ghost rest = s@.skip(i as int);
        if matches_at(&chars, i, &part) {
            vstd::string::StringExecFns::append(&mut out, put);
            proof {
                assert(rest.skip(part@.len() as int) == s@.skip(i + part@.len()));
                assert((before + put@) + replaced(rest.skip(part@.len() as int), pattern@, put@)
                    == before + (put@ + replaced(rest.skip(part@.len() as int), pattern@, put@)));
            }
            i += part.len();
        } else {
            out.push(chars[i]);
            proof {
                assert(rest.drop_first() == s@.skip(i + 1));
                assert(before.push(rest[0]) + replaced(rest.drop_first(), pattern@, put@) == before
                    + (seq![rest[0]] + replaced(rest.drop_first(), pattern@, put@)));
            }
            i += 1;
        }
    }
    proof {
        assert(out@ + replaced(s@.skip(i as int), pattern@, put@) == out@);
    }
    out
}

/// Whether `a` comes before `b` in the order of scalar values.
pub fn before(a: &str, b: &str) -> (yes: bool)
    ensures
        yes == precedes(a@, b@),
{
    let left = chars_of(a);
    let right = chars_of(b);
    let mut i: usize = 0;
    proof {
        assert(a@.skip(0) == a@);
        assert(b@.skip(0) == b@);
    }
    while i < left.len() && i < right.len()
        invariant
            left@ == a@,
            right@ == b@,
            i <= left@.len(),
            i <= right@.len(),
            precedes(a@, b@) == precedes(a@.skip(i as int), b@.skip(i as int)),
        decreases left@.len() - i,
    {
        if left[i] != right[i] {
            return left[i] < right[i];
        }
        proof {
            assert(a@.skip(i as int).drop_first() == a@.skip(i + 1));
            assert(b@.skip(i as int).drop_first() == b@.skip(i + 1));
        }
        i += 1;
    }
    i < right.len()
}

/// The decimal digits of `n`.
pub fn decimal_text(n: u64) -> (r: String)
    ensures
        r@ == decimal(n as nat),
    decreases n,
{
    let digit: char = ((n % 10) as u8 + 48) as char;
    let mut out = if n < 10 {
        String::new()
    } else {
        decimal_text(n / 10)
    };
    out.push(digit);
    out
}

} // verus!
