//! JSON objects member by member: every member counts, in the order in which it is written.

use vstd::prelude::*;
use vstd::slice::slice_subrange;
use vstd::utf8::encode_utf8;
use crate::json::{entry_views, json_parse_bytes, opt_view, to_value, Json, JsonView, Numeral};

verus! {

// ---------------------------------------------------------------------------
// Outside functions
// ---------------------------------------------------------------------------

/// Where the value ends that bytes start with, as `serde_json` skips it, or nothing where they
/// start with none.
pub uninterp spec fn json_value_end(source: Seq<u8>) -> Option<nat>;

/// The compact text that `serde_json` writes for an object whose members are given one by one.
pub uninterp spec fn members_text(members: Seq<(Seq<char>, JsonView)>) -> Seq<char>;

/// `next` of the stream of `serde::de::IgnoredAny` that `serde_json::Deserializer::from_slice`
/// gives, then its `byte_offset`: the first value is skipped, and where it ends is named
/// `json_value_end`. A value takes at least a byte and ends within the bytes.
#[verifier::external_body]
fn skip_value(source: &[u8]) -> (r: Option<usize>)
    ensures
        r is Some <==> json_value_end(source@) is Some,
        r is Some ==> r->0 == json_value_end(source@)->0,
        r is Some ==> 0 < r->0 <= source@.len(),
{
    let mut values = serde_json::Deserializer::from_slice(source).into_iter();
    let _: serde::de::IgnoredAny = values.next()?.ok()?;
    Some(values.byte_offset())
}

/// `serde::Serializer::collect_map` on a `serde_json::Serializer`, which writes the members in
/// the order given: the result is named `members_text`. It stands between braces, and where
/// every value is a scalar, the members are read back one by one, each value by
/// `serde_json::from_slice`.
#[verifier::external_body]
fn write_members(members: &Vec<(String, Json)>) -> (r: String)
    ensures
        r@ == members_text(entry_views(members@)),
        r@.len() >= 2 && r@[0] == '{' && r@.last() == '}',
        (forall|i: int| 0 <= i < members@.len() ==> is_scalar((#[trigger] members@[i]).1.view()))
            ==> object_members(encode_utf8(r@)) == Some(all_read(entry_views(members@))),
{
    let mut out: Vec<u8> = Vec::new();
    let mut writer = serde_json::Serializer::new(&mut out);
    let members = members.iter().map(|(key, value)| (key, to_value(value)));
    let _ = serde::Serializer::collect_map(&mut writer, members);
    String::from_utf8(out).unwrap_or_default()
}

// ---------------------------------------------------------------------------
// Reading
// ---------------------------------------------------------------------------

/// A text, a truth value or a whole number from zero up.
pub open spec fn is_scalar(value: JsonView) -> bool {
    match value {
        JsonView::Text(_) => true,
        JsonView::Bool(_) => true,
        JsonView::Number(Numeral::Unsigned(_)) => true,
        _ => false,
    }
}

/// Members with values that could be read.
pub open spec fn all_read(members: Seq<(Seq<char>, JsonView)>) -> Seq<
    (Seq<char>, Option<JsonView>),
> {
    members.map_values(|entry: (Seq<char>, JsonView)| (entry.0, Some(entry.1)))
}

/// Whether a byte is white space between the parts of a JSON text.
pub open spec fn is_json_space(b: u8) -> bool {
    b == 32 || b == 9 || b == 10 || b == 13
}

/// What follows the white space at the start of bytes.
pub open spec fn past_space(source: Seq<u8>) -> Seq<u8>
    decreases source.len(),
{
    if source.len() > 0 && is_json_space(source[0]) {
        past_space(source.drop_first())
    } else {
        source
    }
}

/// Whether bytes start with `b`.
pub open spec fn leads(source: Seq<u8>, b: u8) -> bool {
    source.len() > 0 && source[0] == b
}

/// The value that bytes start with, unread, and what follows it.
pub open spec fn first_value(source: Seq<u8>) -> Option<(Seq<u8>, Seq<u8>)> {
    match json_value_end(source) {
        Some(end) => if 0 < end <= source.len() {
            Some((source.take(end as int), source.skip(end as int)))
        } else {
            None
        },
        None => None,
    }
}

/// The member that bytes start with, and what follows it: a key that can be read as text, a colon
/// and a value. A value that can be skipped but not read comes as nothing.
pub open spec fn first_member(source: Seq<u8>) -> Option<
    ((Seq<char>, Option<JsonView>), Seq<u8>),
> {
    if !leads(source, 34) {
        None
    } else {
        match first_value(source) {
            Some((key, after)) => match json_parse_bytes(key) {
                Some(JsonView::Text(name)) => if !leads(past_space(after), 58) {
                    None
                } else {
                    match first_value(past_space(past_space(after).drop_first())) {
                        Some((value, rest)) => Some(((name, json_parse_bytes(value)), rest)),
                        None => None,
                    }
                },
                _ => None,
            },
            None => None,
        }
    }
}

/// The members in what follows the opening brace of an object, or a comma in it, up to the closing
/// brace, which only white space follows. An object may be empty, but no comma stands before its
/// closing brace.
pub open spec fn members_from(source: Seq<u8>, opened: bool) -> Option<
    Seq<(Seq<char>, Option<JsonView>)>,
>
    decreases source.len(),
{
    let start = past_space(source);
    if opened && leads(start, 125) {
        if past_space(start.drop_first()).len() == 0 {
            Some(seq![])
        } else {
            None
        }
    } else {
        match first_member(start) {
            Some((member, after)) => {
                let next = past_space(after);
                if leads(next, 125) {
                    if past_space(next.drop_first()).len() == 0 {
                        Some(seq![member])
                    } else {
                        None
                    }
                } else if leads(next, 44) {
                    proof {
                        lemma_space_short(source);
                        lemma_member_short(start);
                        lemma_space_short(after);
                    }
                    match members_from(next.drop_first(), false) {
                        Some(more) => Some(seq![member] + more),
                        None => None,
                    }
                } else {
                    None
                }
            },
            None => None,
        }
    }
}

/// The members of the object that bytes spell, in the order in which they are written, repeated
/// ones included; nothing where they spell no object.
pub open spec fn object_members(source: Seq<u8>) -> Option<Seq<(Seq<char>, Option<JsonView>)>> {
    if leads(past_space(source), 123) {
        members_from(past_space(source).drop_first(), true)
    } else {
        None
    }
}

pub proof fn lemma_space_short(source: Seq<u8>)
    ensures
        past_space(source).len() <= source.len(),
    decreases source.len(),
{
    if source.len() > 0 && is_json_space(source[0]) {
        lemma_space_short(source.drop_first());
    }
}

pub proof fn lemma_member_short(source: Seq<u8>)
    ensures
        first_member(source) matches Some((_, rest)) ==> rest.len() < source.len(),
{
    match first_value(source) {
        Some((_, after)) => {
            lemma_space_short(after);
            lemma_space_short(past_space(after).drop_first());
        },
        None => {},
    }
}

/// What members hold.
pub open spec fn member_views(members: Seq<(String, Option<Json>)>) -> Seq<
    (Seq<char>, Option<JsonView>),
> {
    members.map_values(|member: (String, Option<Json>)| (member.0@, opt_view(member.1)))
}

/// What follows the white space at the start of bytes.
pub fn skip_space(source: &[u8]) -> (r: &[u8])
    ensures
        r@ == past_space(source@),
{
    let mut i: usize = 0;
    proof {
        assert(source@.skip(0) =~= source@);
    }
    while i < source.len() && (source[i] == 32 || source[i] == 9 || source[i] == 10 || source[i]
        == 13)
        invariant
            i <= source@.len(),
            past_space(source@) == past_space(source@.skip(i as int)),
        decreases source@.len() - i,
    {
        proof {
            assert(source@.skip(i as int).drop_first() =~= source@.skip(i + 1));
        }
        i += 1;
    }
    proof {
        assert(source@.subrange(i as int, source@.len() as int) =~= source@.skip(i as int));
    }
    slice_subrange(source, i, source.len())
}

/// Whether bytes start with `b`.
pub fn starts(source: &[u8], b: u8) -> (r: bool)
    ensures
        r == leads(source@, b),
{
    source.len() > 0 && source[0] == b
}

fn rest_of(source: &[u8]) -> (r: &[u8])
    requires
        source@.len() > 0,
    ensures
        r@ == source@.drop_first(),
{
    slice_subrange(source, 1, source.len())
}

fn split_value(source: &[u8]) -> (r: Option<(&[u8], &[u8])>)
    ensures
        r is Some <==> first_value(source@) is Some,
        r matches Some((value, rest)) ==> first_value(source@) == Some((value@, rest@)),
{
    match skip_value(source) {
        Some(end) => {
            let value = slice_subrange(source, 0, end);
            let rest = slice_subrange(source, end, source.len());
            proof {
                assert(value@ =~= source@.take(end as int));
                assert(rest@ =~= source@.skip(end as int));
            }
            Some((value, rest))
        },
        None => None,
    }
}

fn read_member(source: &[u8]) -> (r: Option<((String, Option<Json>), &[u8])>)
    ensures
        r is Some <==> first_member(source@) is Some,
        r matches Some((member, rest)) ==> first_member(source@) == Some(
            ((member.0@, opt_view(member.1)), rest@),
        ),
{
    if !starts(source, 34) {
        return None;
    }
    let (key, after) = match split_value(source) {
        Some(parts) => parts,
        None => {
            return None;
        },
    };
    let name = match Json::parse_bytes(key) {
        Some(Json::Text(name)) => name,
        _ => {
            return None;
        },
    };
    let colon = skip_space(after);
    if !starts(colon, 58) {
        return None;
    }
    match split_value(skip_space(rest_of(colon))) {
        Some((value, rest)) => Some(((name, Json::parse_bytes(value)), rest)),
        None => None,
    }
}

/// The members of the object that bytes spell, in the order in which they are written, repeated
/// ones included; nothing where they spell no object. A value that `serde_json` can skip but not
/// read, such as a number that no type holds, comes as nothing.
pub fn read_object(source: &[u8]) -> (r: Option<Vec<(String, Option<Json>)>>)
    ensures
        r is Some <==> object_members(source@) is Some,
        r is Some ==> object_members(source@) == Some(member_views(r->0@)),
{
    let start = skip_space(source);
    if !starts(start, 123) {
        return None;
    }
    let mut rest = rest_of(start);
    let mut opened = true;
    let mut out: Vec<(String, Option<Json>)> = Vec::new();
    let ghost all = members_from(rest@, true);
    proof {
        assert(member_views(out@) =~= seq![]);
        if all is Some {
            assert(member_views(out@) + all->0 =~= all->0);
        }
    }
    loop
        invariant
            object_members(source@) == all,
            all is Some <==> members_from(rest@, opened) is Some,
            all is Some ==> all->0 == member_views(out@) + members_from(rest@, opened)->0,
            opened ==> out@.len() == 0,
        decreases rest@.len(),
    {
        let ghost source_here = rest@;
        let here = skip_space(rest);
        if opened && starts(here, 125) {
            if skip_space(rest_of(here)).len() == 0 {
                proof {
                    assert(member_views(out@) + seq![] =~= member_views(out@));
                }
                return Some(out);
            }
            return None;
        }
        let (member, after) = match read_member(here) {
            Some(parts) => parts,
            None => {
                return None;
            },
        };
        let ghost before = member_views(out@);
        let ghost added = (member.0@, opt_view(member.1));
        out.push(member);
        proof {
            assert(member_views(out@) =~= before.push(added));
        }
        let next = skip_space(after);
        if starts(next, 125) {
            if skip_space(rest_of(next)).len() == 0 {
                proof {
                    assert(before.push(added) =~= before + seq![added]);
                }
                return Some(out);
            }
            return None;
        }
        if !starts(next, 44) {
            return None;
        }
        rest = rest_of(next);
        opened = false;
        proof {
            lemma_space_short(source_here);
            lemma_member_short(here@);
            lemma_space_short(after@);
            if members_from(rest@, false) is Some {
                let more = members_from(rest@, false)->0;
                assert(before.push(added) + more =~= before + (seq![added] + more));
            }
        }
    }
}

/// The compact text of an object, its members in the order given. The members of an object of
/// scalars are read back as they were written.
pub fn object_text(members: &Vec<(String, Json)>) -> (r: String)
    ensures
        r@ == members_text(entry_views(members@)),
        r@.len() >= 2 && r@[0] == '{' && r@.last() == '}',
        (forall|i: int| 0 <= i < members@.len() ==> is_scalar((#[trigger] members@[i]).1.view()))
            ==> object_members(encode_utf8(r@)) == Some(all_read(entry_views(members@))),
{
    write_members(members)
}

} // verus!
