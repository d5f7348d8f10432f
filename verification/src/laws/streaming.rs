//! Laws of the stream that chat-completion chunks are made of.

use vstd::prelude::*;
use vstd::utf8::encode_utf8;
use crate::json::{as_items, as_text, as_unsigned, json_parse, json_text, member, member_of, text_at, JsonView};
use crate::laws::conversion::has_only;
use crate::stream::{after_event, after_line, after_lines, call_has_id, call_index, chunk, event_chunks, event_kind, is_call_number, line_frames, line_view, provider_message, LineView, StreamState};
use crate::text::{is_control, is_space, lemma_printable_filter, lemma_trimmed_between, trimmed};

verus! {

// ---------------------------------------------------------------------------
// Reading what goes in and what comes out
// ---------------------------------------------------------------------------

/// Whether an event is of a kind: it says so itself, or it says nothing and the last `event:` line
/// did.
pub open spec fn is_of_kind(state: StreamState, value: JsonView, kind: Seq<char>) -> bool {
    text_at(value, "type"@) == Some(kind) || (text_at(value, "type"@) is None && state.event == kind)
}

/// What a chat-completion chunk with one choice changes, as its receiver reads it.
pub open spec fn delta_of(chunk: JsonView) -> Option<JsonView> {
    match as_items(member(chunk, "choices"@)) {
        Some(choices) => if choices.len() == 1 && as_unsigned(member(choices[0], "index"@)) == Some(
            0u64,
        ) && has_only(choices[0], set!["index"@, "delta"@]) && has_only(chunk, set!["choices"@]) {
            member(choices[0], "delta"@)
        } else {
            None
        },
        None => None,
    }
}

/// The text that a chunk adds under `key`, as its receiver reads it.
pub open spec fn added_text(chunk: JsonView, key: Seq<char>) -> Option<Seq<char>> {
    as_text(member_of(delta_of(chunk), key))
}

/// The one tool call that a chunk speaks of, as its receiver reads it.
pub open spec fn call_of(chunk: JsonView) -> Option<JsonView> {
    match as_items(member_of(delta_of(chunk), "tool_calls"@)) {
        Some(calls) => if calls.len() == 1 && has_only(delta_of(chunk)->0, set!["tool_calls"@]) {
            Some(calls[0])
        } else {
            None
        },
        None => None,
    }
}

proof fn lemma_kinds()
    ensures
        "response.failed"@.len() == 15,
        "error"@.len() == 5,
        "response.output_text.delta"@.len() == 26,
        "response.output_item.added"@.len() == 26,
        "response.output_text.delta"@ != "response.output_item.added"@,
        "response.reasoning_summary_text.delta"@.len() == 37,
        "response.reasoning_text.delta"@.len() == 29,
        "response.function_call_arguments.delta"@.len() == 38,
{
    reveal_strlit("response.failed");
    reveal_strlit("error");
    reveal_strlit("response.output_text.delta");
    reveal_strlit("response.output_item.added");
    reveal_strlit("response.reasoning_summary_text.delta");
    reveal_strlit("response.reasoning_text.delta");
    reveal_strlit("response.function_call_arguments.delta");
    assert("response.output_text.delta"@[16] != "response.output_item.added"@[16]);
}

proof fn lemma_chunk_keys()
    ensures
        "choices"@.len() == 7,
        "content"@.len() == 7,
        "choices"@ != "content"@,
        "index"@.len() == 5,
        "delta"@.len() == 5,
        "index"@ != "delta"@,
        "tool_calls"@.len() == 10,
        "reasoning_content"@.len() == 17,
        "id"@.len() == 2,
        "type"@.len() == 4,
        "name"@.len() == 4,
        "type"@ != "name"@,
        "function"@.len() == 8,
        "arguments"@.len() == 9,
        ""@ == Seq::<char>::empty(),
{
    reveal_strlit("choices");
    reveal_strlit("content");
    reveal_strlit("index");
    reveal_strlit("delta");
    reveal_strlit("tool_calls");
    reveal_strlit("reasoning_content");
    reveal_strlit("id");
    reveal_strlit("type");
    reveal_strlit("name");
    reveal_strlit("function");
    reveal_strlit("arguments");
    reveal_strlit("");
    assert("choices"@[1] == 'h' && "content"@[1] == 'o');
    assert("index"@[0] == 'i' && "delta"@[0] == 'd');
    assert("type"@[0] == 't' && "name"@[0] == 'n');
    assert(""@ =~= Seq::<char>::empty());
}

proof fn lemma_delta(delta: JsonView)
    ensures
        delta_of(chunk(delta)) == Some(delta),
{
    lemma_chunk_keys();
    let choices = as_items(member(chunk(delta), "choices"@))->0;
    assert(choices.len() == 1);
    assert(has_only(choices[0], set!["index"@, "delta"@]));
    assert(has_only(chunk(delta), set!["choices"@]));
}

proof fn lemma_text_delta(key: Seq<char>, said: Seq<char>)
    ensures
        added_text(chunk(JsonView::Object(map![key => JsonView::Text(said)])), key) == Some(said),
        has_only(JsonView::Object(map![key => JsonView::Text(said)]), set![key]),
        forall|other: Seq<char>|
            other != key ==> added_text(
                chunk(JsonView::Object(map![key => JsonView::Text(said)])),
                other,
            ) is None,
{
    lemma_delta(JsonView::Object(map![key => JsonView::Text(said)]));
}

// ---------------------------------------------------------------------------
// Text and reasoning
// ---------------------------------------------------------------------------

/// A piece of text becomes one chunk that adds exactly that piece, character for character, white
/// space included; a piece of reasoning does so under the key for reasoning. An empty or missing
/// piece becomes nothing. The state stays as it was.
pub proof fn law_pieces_pass_unchanged(state: StreamState, value: JsonView, reasoning: bool)
    requires
        reasoning ==> is_of_kind(state, value, "response.reasoning_summary_text.delta"@) || is_of_kind(
            state,
            value,
            "response.reasoning_text.delta"@,
        ),
        !reasoning ==> is_of_kind(state, value, "response.output_text.delta"@),
    ensures
        ({
            let key = if reasoning {
                "reasoning_content"@
            } else {
                "content"@
            };
            let chunks = event_chunks(state, value);
            &&& chunks is Ok
            &&& match text_at(value, "delta"@) {
                Some(piece) => if piece.len() > 0 {
                    &&& chunks->Ok_0.len() == 1
                    &&& added_text(chunks->Ok_0[0], key) == Some(piece)
                    &&& delta_of(chunks->Ok_0[0]) is Some
                    &&& has_only(delta_of(chunks->Ok_0[0])->0, set![key])
                } else {
                    chunks->Ok_0.len() == 0
                },
                None => chunks->Ok_0.len() == 0,
            }
            &&& after_event(state, value) == state
        }),
{
    lemma_kinds();
    let key = if reasoning {
        "reasoning_content"@
    } else {
        "content"@
    };
    match text_at(value, "delta"@) {
        Some(piece) => {
            lemma_text_delta(key, piece);
            lemma_delta(JsonView::Object(map![key => JsonView::Text(piece)]));
        },
        None => {},
    }
}

/// The event that a line carries.
pub open spec fn event_of(line: Seq<char>) -> Option<JsonView> {
    match line_view(line) {
        LineView::Data(data) => json_parse(data),
        _ => None,
    }
}

/// The chunks that a line gives.
pub open spec fn chunks_of(state: StreamState, line: Seq<char>) -> Seq<JsonView> {
    match event_of(line) {
        Some(value) => match event_chunks(state, value) {
            Ok(chunks) => chunks,
            Err(_) => seq![],
        },
        None => seq![],
    }
}

/// What chunks add under `key`, one after the other.
pub open spec fn joined_text(chunks: Seq<JsonView>, key: Seq<char>) -> Seq<char>
    decreases chunks.len(),
{
    if chunks.len() == 0 {
        seq![]
    } else {
        joined_text(chunks.drop_last(), key) + match added_text(chunks.last(), key) {
            Some(text) => text,
            None => seq![],
        }
    }
}

/// What the chunks of lines add under `key`, one after the other.
pub open spec fn received(state: StreamState, lines: Seq<Seq<char>>, key: Seq<char>) -> Seq<char>
    decreases lines.len(),
{
    if lines.len() == 0 {
        seq![]
    } else {
        received(state, lines.drop_last(), key) + joined_text(
            chunks_of(after_lines(state, lines.drop_last()), lines.last()),
            key,
        )
    }
}

/// The piece that a line sends, if it sends one of these kinds.
pub open spec fn piece_of(
    state: StreamState,
    line: Seq<char>,
    kind: Seq<char>,
    other: Seq<char>,
) -> Seq<char> {
    match event_of(line) {
        Some(value) => if is_of_kind(state, value, kind) || is_of_kind(state, value, other) {
            match text_at(value, "delta"@) {
                Some(piece) => piece,
                None => seq![],
            }
        } else {
            seq![]
        },
        None => seq![],
    }
}

/// The pieces that lines send, of these kinds, one after the other.
pub open spec fn sent(
    state: StreamState,
    lines: Seq<Seq<char>>,
    kind: Seq<char>,
    other: Seq<char>,
) -> Seq<char>
    decreases lines.len(),
{
    if lines.len() == 0 {
        seq![]
    } else {
        sent(state, lines.drop_last(), kind, other) + piece_of(
            after_lines(state, lines.drop_last()),
            lines.last(),
            kind,
            other,
        )
    }
}

proof fn lemma_line_text(state: StreamState, line: Seq<char>)
    ensures
        joined_text(chunks_of(state, line), "content"@) == piece_of(
            state,
            line,
            "response.output_text.delta"@,
            "response.output_text.delta"@,
        ),
        joined_text(chunks_of(state, line), "reasoning_content"@) == piece_of(
            state,
            line,
            "response.reasoning_summary_text.delta"@,
            "response.reasoning_text.delta"@,
        ),
{
    lemma_kinds();
    lemma_chunk_keys();
    let content = "content"@;
    let reasoning = "reasoning_content"@;
    assert(joined_text(Seq::<JsonView>::empty(), content) =~= Seq::<char>::empty());
    assert(joined_text(Seq::<JsonView>::empty(), reasoning) =~= Seq::<char>::empty());
    match event_of(line) {
        Some(value) => {
            let kind = event_kind(state, value);
            match event_chunks(state, value) {
                Ok(chunks) => {
                    if kind == "response.output_text.delta"@ || kind
                        == "response.reasoning_summary_text.delta"@ || kind
                        == "response.reasoning_text.delta"@ {
                        let key = if kind == "response.output_text.delta"@ {
                            content
                        } else {
                            reasoning
                        };
                        match text_at(value, "delta"@) {
                            Some(piece) => {
                                lemma_text_delta(key, piece);
                                if piece.len() > 0 {
                                    let one = chunk(
                                        JsonView::Object(map![key => JsonView::Text(piece)]),
                                    );
                                    assert(chunks == seq![one]);
                                    assert(chunks.drop_last() =~= Seq::<JsonView>::empty());
                                    assert(joined_text(chunks, key) =~= piece);
                                    let away = if key == content {
                                        reasoning
                                    } else {
                                        content
                                    };
                                    assert(added_text(one, away) is None);
                                    assert(joined_text(chunks, away) =~= Seq::<char>::empty());
                                } else {
                                    assert(piece =~= Seq::<char>::empty());
                                    assert(chunks =~= Seq::<JsonView>::empty());
                                }
                            },
                            None => {
                                assert(chunks =~= Seq::<JsonView>::empty());
                            },
                        }
                    } else if chunks.len() == 0 {
                        assert(chunks =~= Seq::<JsonView>::empty());
                    } else {
                        lemma_call_chunk(state, value);
                        assert(chunks.drop_last() =~= Seq::<JsonView>::empty());
                        assert(joined_text(chunks, content) =~= Seq::<char>::empty());
                        assert(joined_text(chunks, reasoning) =~= Seq::<char>::empty());
                    }
                },
                Err(_) => {},
            }
        },
        None => {},
    }
}

/// A chunk that speaks of a call adds no text.
proof fn lemma_call_chunk(state: StreamState, value: JsonView)
    requires
        event_chunks(state, value) is Ok,
        event_chunks(state, value)->Ok_0.len() > 0,
        event_kind(state, value) == "response.output_item.added"@ || event_kind(state, value)
            == "response.function_call_arguments.delta"@,
    ensures
        event_chunks(state, value)->Ok_0.len() == 1,
        added_text(event_chunks(state, value)->Ok_0[0], "content"@) is None,
        added_text(event_chunks(state, value)->Ok_0[0], "reasoning_content"@) is None,
{
    lemma_kinds();
    lemma_chunk_keys();
    lemma_tool_chunks();
}

proof fn lemma_tool_chunks()
    ensures
        forall|call: JsonView|
            {
                &&& call_of(#[trigger] chunk(crate::stream::tool_delta(call))) == Some(call)
                &&& added_text(chunk(crate::stream::tool_delta(call)), "content"@) is None
                &&& added_text(chunk(crate::stream::tool_delta(call)), "reasoning_content"@) is None
            },
{
    lemma_chunk_keys();
    assert forall|call: JsonView|
        {
            &&& call_of(#[trigger] chunk(crate::stream::tool_delta(call))) == Some(call)
            &&& added_text(chunk(crate::stream::tool_delta(call)), "content"@) is None
            &&& added_text(chunk(crate::stream::tool_delta(call)), "reasoning_content"@) is None
        } by {
        let delta = crate::stream::tool_delta(call);
        lemma_delta(delta);
        assert(has_only(delta, set!["tool_calls"@]));
    }
}

/// Over any run of lines, the text that the chunks add is the text that the service sent, and the
/// reasoning that they add is the reasoning that it sent: nothing is lost, added, changed or moved.
pub proof fn law_text_arrives_whole(state: StreamState, lines: Seq<Seq<char>>)
    ensures
        received(state, lines, "content"@) == sent(
            state,
            lines,
            "response.output_text.delta"@,
            "response.output_text.delta"@,
        ),
        received(state, lines, "reasoning_content"@) == sent(
            state,
            lines,
            "response.reasoning_summary_text.delta"@,
            "response.reasoning_text.delta"@,
        ),
    decreases lines.len(),
{
    if lines.len() > 0 {
        law_text_arrives_whole(state, lines.drop_last());
        lemma_line_text(after_lines(state, lines.drop_last()), lines.last());
    }
}

// ---------------------------------------------------------------------------
// Calls
// ---------------------------------------------------------------------------

/// A function call is opened by one chunk that gives it the next free number, the id by which it
/// is answered (that of the call, or else that of the item) and its name, with no arguments yet,
/// and is known from then on by both ids.
pub proof fn law_calls_are_opened(state: StreamState, value: JsonView, item: JsonView)
    requires
        is_of_kind(state, value, "response.output_item.added"@),
        member(value, "item"@) == Some(item),
        state.tools.len() < u32::MAX,
    ensures
        ({
            let chunks = event_chunks(state, value);
            let given = text_at(item, "id"@);
            let named = text_at(item, "call_id"@);
            let item_id = if given is Some {
                given->0
            } else {
                Seq::<char>::empty()
            };
            let id = if named is Some {
                named->0
            } else {
                item_id
            };
            &&& chunks is Ok
            &&& text_at(item, "type"@) == Some("function_call"@) ==> {
                let call = call_of(chunks->Ok_0[0]);
                let function = member_of(call, "function"@);
                let name = text_at(item, "name"@);
                &&& chunks->Ok_0.len() == 1
                &&& call is Some
                &&& as_unsigned(member(call->0, "index"@)) == Some(state.tools.len() as u64)
                &&& text_at(call->0, "id"@) == Some(id)
                &&& text_at(call->0, "type"@) == Some("function"@)
                &&& function is Some
                &&& name is Some ==> text_at(function->0, "name"@) == name
                &&& name is None ==> text_at(function->0, "name"@) == Some(Seq::<char>::empty())
                &&& text_at(function->0, "arguments"@) == Some(Seq::<char>::empty())
                &&& has_only(call->0, set!["index"@, "id"@, "type"@, "function"@])
                &&& has_only(function->0, set!["name"@, "arguments"@])
                &&& after_event(state, value).tools == state.tools.push((item_id, id))
                &&& after_event(state, value).event == state.event
            }
            &&& text_at(item, "type"@) != Some("function_call"@) ==> {
                &&& chunks->Ok_0.len() == 0
                &&& after_event(state, value) == state
            }
        }),
{
    lemma_kinds();
    lemma_chunk_keys();
    lemma_tool_chunks();
}

/// A piece of arguments becomes one chunk that adds exactly that piece, character for character,
/// to one call: the first of those known by the id that the event names, or else the last, or
/// number zero where none is known. The event names a call by `item_id`, or else by `call_id`. An
/// empty or missing piece becomes nothing. The state stays as it was.
pub proof fn law_arguments_pass_unchanged(state: StreamState, value: JsonView, id: Seq<char>)
    requires
        is_of_kind(state, value, "response.function_call_arguments.delta"@),
        state.tools.len() < u32::MAX,
        as_text(
            if member(value, "item_id"@) is Some {
                member(value, "item_id"@)
            } else {
                member(value, "call_id"@)
            },
        ) == Some(id) || (id.len() == 0 && as_text(
            if member(value, "item_id"@) is Some {
                member(value, "item_id"@)
            } else {
                member(value, "call_id"@)
            },
        ) is None),
    ensures
        ({
            let chunks = event_chunks(state, value);
            &&& chunks is Ok
            &&& match text_at(value, "delta"@) {
                Some(piece) => if piece.len() > 0 {
                    let call = call_of(chunks->Ok_0[0]);
                    let number = as_unsigned(member_of(call, "index"@));
                    let function = member_of(call, "function"@);
                    &&& chunks->Ok_0.len() == 1
                    &&& call is Some
                    &&& number is Some
                    &&& is_call_number(state.tools, id, number->0 as nat)
                    &&& function is Some
                    &&& text_at(function->0, "arguments"@) == Some(piece)
                    &&& has_only(call->0, set!["index"@, "function"@])
                    &&& has_only(function->0, set!["arguments"@])
                } else {
                    chunks->Ok_0.len() == 0
                },
                None => chunks->Ok_0.len() == 0,
            }
            &&& after_event(state, value) == state
        }),
{
    lemma_kinds();
    lemma_chunk_keys();
    lemma_tool_chunks();
    assert(id.len() == 0 ==> id =~= Seq::<char>::empty());
    assert(crate::stream::named_call(value) == id);
    if exists|j: int| 0 <= j < state.tools.len() && call_has_id(#[trigger] state.tools[j], id) {
        let k = choose|j: int| 0 <= j < state.tools.len() && call_has_id(#[trigger] state.tools[j], id);
        crate::stream::lemma_first_call_least(state.tools, id, k);
    }
    assert(is_call_number(state.tools, id, call_index(state.tools, id)));
}

/// A call goes by its item id and by its call id, and by no other; an empty id is none.
pub proof fn law_calls_go_by_two_ids(call: (Seq<char>, Seq<char>), id: Seq<char>)
    ensures
        call_has_id(call, id) <==> (id == call.0 || id == call.1) && id != Seq::<char>::empty(),
{
    assert(id.len() == 0 ==> id =~= Seq::<char>::empty());
}

// ---------------------------------------------------------------------------
// Failures and everything else
// ---------------------------------------------------------------------------

/// A failure is told with the provider's own words: those under `response.error.message`, or else
/// under `error.message`, or else under `message`, trimmed, without control characters and cut
/// to 400 characters; or with a fixed sentence where there are none. No chunk comes of it.
pub proof fn law_failures_are_told(state: StreamState, value: JsonView)
    requires
        is_of_kind(state, value, "response.failed"@) || is_of_kind(state, value, "error"@),
    ensures
        ({
            let nested = member_of(member_of(member(value, "response"@), "error"@), "message"@);
            let inner = member_of(member(value, "error"@), "message"@);
            let words = if nested is Some {
                nested
            } else if inner is Some {
                inner
            } else {
                member(value, "message"@)
            };
            let told = match as_text(words) {
                Some(text) => if trimmed(text).len() > 0 {
                    trimmed(text)
                } else {
                    "The model service reported an error."@
                },
                None => "The model service reported an error."@,
            };
            let plain = told.filter(|c: char| !is_control(c));
            event_chunks(state, value) == Err::<Seq<JsonView>, _>(
                "The model service reported an error: "@ + if plain.len() > 400 {
                    plain.take(400)
                } else {
                    plain
                },
            )
        }),
        after_event(state, value) == state,
{
    lemma_kinds();
    reveal_strlit("");
    let message = match as_text(provider_message(value)) {
        Some(text) => if trimmed(text).len() > 0 {
            trimmed(text)
        } else {
            "The model service reported an error."@
        },
        None => "The model service reported an error."@,
    };
    lemma_printable_filter(message, 400);
}

/// Events of any other kind give nothing and change nothing.
pub proof fn law_other_events_are_silent(state: StreamState, value: JsonView)
    requires
        !is_of_kind(state, value, "response.failed"@),
        !is_of_kind(state, value, "error"@),
        !is_of_kind(state, value, "response.output_text.delta"@),
        !is_of_kind(state, value, "response.reasoning_summary_text.delta"@),
        !is_of_kind(state, value, "response.reasoning_text.delta"@),
        !is_of_kind(state, value, "response.output_item.added"@),
        !is_of_kind(state, value, "response.function_call_arguments.delta"@),
    ensures
        event_chunks(state, value) == Ok::<_, Seq<char>>(Seq::<JsonView>::empty()),
        after_event(state, value) == state,
{
}

// ---------------------------------------------------------------------------
// Lines
// ---------------------------------------------------------------------------

/// Whether every character is white space.
pub open spec fn is_blank(s: Seq<char>) -> bool {
    forall|i: int| 0 <= i < s.len() ==> is_space(#[trigger] s[i])
}

/// Whether a text neither starts nor ends with white space.
pub open spec fn is_tight(s: Seq<char>) -> bool {
    s.len() > 0 ==> !is_space(s[0]) && !is_space(s.last())
}

proof fn lemma_line_start(head: Seq<char>, rest: Seq<char>)
    requires
        head == "data:"@ || head == "event:"@,
    ensures
        crate::text::without_trailing(head + rest, '\r') == head + crate::text::without_trailing(
            rest,
            '\r',
        ),
    decreases rest.len(),
{
    reveal_strlit("data:");
    reveal_strlit("event:");
    if rest.len() > 0 && rest.last() == '\r' {
        lemma_line_start(head, rest.drop_last());
        assert((head + rest).drop_last() =~= head + rest.drop_last());
        assert((head + rest).last() == '\r');
    } else if rest.len() == 0 {
        assert(head + rest =~= head);
        assert(head.last() == ':');
    } else {
        assert((head + rest).last() == rest.last());
    }
}

proof fn lemma_trailing_blank(before: Seq<char>, core: Seq<char>, after: Seq<char>)
    requires
        is_blank(before),
        is_blank(after),
        is_tight(core),
    ensures
        trimmed(crate::text::without_trailing(before + core + after, '\r')) == core,
    decreases after.len() + before.len(),
{
    let s = before + core + after;
    if s.len() > 0 && s.last() == '\r' {
        if after.len() > 0 {
            assert(s.drop_last() =~= before + core + after.drop_last());
            lemma_trailing_blank(before, core, after.drop_last());
        } else if core.len() > 0 {
            assert(s.last() == core.last());
        } else {
            assert(s.drop_last() =~= before.drop_last() + core + after);
            lemma_trailing_blank(before.drop_last(), core, after);
        }
    } else {
        lemma_trimmed_between(before, core, after);
    }
}

proof fn lemma_data_line(before: Seq<char>, data: Seq<char>, after: Seq<char>)
    requires
        is_blank(before),
        is_blank(after),
        is_tight(data),
    ensures
        line_view("data:"@ + (before + data + after)) == (if data.len() == 0 || data == "[DONE]"@ {
            LineView::Done
        } else {
            LineView::Data(data)
        }),
{
    reveal_strlit("data:");
    reveal_strlit("event:");
    let head = "data:"@;
    let rest = before + data + after;
    lemma_line_start(head, rest);
    lemma_trailing_blank(before, data, after);
    let left = crate::text::without_trailing(rest, '\r');
    let line = head + left;
    assert(line[0] == 'd' && "event:"@[0] == 'e');
    if "event:"@.is_prefix_of(line) {
        assert(line.subrange(0, 6)[0] == line[0]);
    }
    assert(line.subrange(0, 5) =~= head);
    assert(line.skip(5) =~= left);
}

/// A `data:` line carries the JSON that stands behind the colon, whatever white space surrounds
/// it: it is taken as an event, and every chunk of that event goes out, in its order, as a frame
/// of its own, `data: `, the chunk's JSON and a blank line. What is no JSON gives nothing and
/// changes nothing.
pub proof fn law_data_lines_carry_events(
    state: StreamState,
    before: Seq<char>,
    data: Seq<char>,
    after: Seq<char>,
)
    requires
        is_blank(before),
        is_blank(after),
        is_tight(data),
        data.len() > 0,
        data != "[DONE]"@,
    ensures
        ({
            let line = "data:"@ + (before + data + after);
            match json_parse(data) {
                Some(value) => {
                    &&& after_line(state, line) == after_event(state, value)
                    &&& event_of(line) == Some(value)
                    &&& match event_chunks(state, value) {
                        Ok(chunks) => line_frames(state, line) matches Ok(frames) && frames.len()
                            == chunks.len() && forall|i: int|
                            0 <= i < chunks.len() ==> #[trigger] frames[i] == encode_utf8(
                                "data: "@ + json_text(chunks[i]) + seq!['\n', '\n'],
                            ),
                        Err(message) => line_frames(state, line) == Err::<Seq<Seq<u8>>, _>(message),
                    }
                },
                None => {
                    &&& line_frames(state, line) == Ok::<_, Seq<char>>(Seq::<Seq<u8>>::empty())
                    &&& after_line(state, line) == state
                },
            }
        }),
{
    lemma_data_line(before, data, after);
    reveal_strlit("\n\n");
    assert("\n\n"@ =~= seq!['\n', '\n']);
}

/// A `data:` line with nothing or `[DONE]` behind the colon ends the stream, and so the receiver
/// is told; an `event:` line names the event that follows, without the white space around the
/// name, and gives nothing.
pub proof fn law_ends_and_names(state: StreamState, before: Seq<char>, name: Seq<char>, after: Seq<char>)
    requires
        is_blank(before),
        is_blank(after),
        is_tight(name),
    ensures
        name.len() == 0 || name == "[DONE]"@ ==> {
            let line = "data:"@ + (before + name + after);
            &&& line_frames(state, line) == Ok::<_, Seq<char>>(
                seq![encode_utf8("data: "@ + "[DONE]"@ + seq!['\n', '\n'])],
            )
            &&& after_line(state, line) == state
        },
        ({
            let line = "event:"@ + (before + name + after);
            &&& line_frames(state, line) == Ok::<_, Seq<char>>(Seq::<Seq<u8>>::empty())
            &&& after_line(state, line).event == name
            &&& after_line(state, line).tools == state.tools
        }),
{
    lemma_data_line(before, name, after);
    reveal_strlit("\n\n");
    assert("\n\n"@ =~= seq!['\n', '\n']);
    reveal_strlit("event:");
    let head = "event:"@;
    let rest = before + name + after;
    lemma_line_start(head, rest);
    lemma_trailing_blank(before, name, after);
    let left = crate::text::without_trailing(rest, '\r');
    assert((head + left).subrange(0, 6) =~= head);
    assert((head + left).skip(6) =~= left);
}

/// Any other line gives nothing and changes nothing.
pub proof fn law_other_lines_are_silent(state: StreamState, line: Seq<char>)
    requires
        !"data:"@.is_prefix_of(line),
        !"event:"@.is_prefix_of(line),
    ensures
        line_frames(state, line) == Ok::<_, Seq<char>>(Seq::<Seq<u8>>::empty()),
        after_line(state, line) == state,
{
    crate::text::lemma_trailing_prefix(line, '\r');
    let left = crate::text::without_trailing(line, '\r');
    if "data:"@.is_prefix_of(left) {
        assert(line.subrange(0, "data:"@.len() as int) =~= left.subrange(0, "data:"@.len() as int));
    }
    if "event:"@.is_prefix_of(left) {
        assert(line.subrange(0, "event:"@.len() as int) =~= left.subrange(0, "event:"@.len() as int));
    }
}

} // verus!
