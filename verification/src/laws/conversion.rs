//! Laws of the conversion of chat-completions bodies and of the text of a reply.

use vstd::prelude::*;
use crate::json::{as_items, as_text, as_truth, member, member_of, text_at, JsonView};
use crate::responses::{assistant_items, call_item, content_chars, input_items, instruction_chars, is_instruction, joined_items, joined_parts, law_input_grows, message_items, messages_of, reply_chars, request_instructions, request_members, tool_views, user_part, user_parts};
use crate::text::trimmed;

verus! {

// ---------------------------------------------------------------------------
// Reading what comes out
// ---------------------------------------------------------------------------

/// The Responses request that a payload is converted to.
pub open spec fn request_of(payload: JsonView, codex: bool) -> JsonView {
    JsonView::Object(request_members(payload, codex))
}

/// The items that a request has as its input.
pub open spec fn input_of(request: JsonView) -> Seq<JsonView> {
    match as_items(member(request, "input"@)) {
        Some(items) => items,
        None => seq![],
    }
}

/// The tools that a request offers.
pub open spec fn tools_of(request: JsonView) -> Seq<JsonView> {
    match as_items(member(request, "tools"@)) {
        Some(tools) => tools,
        None => seq![],
    }
}

/// The instructions that a request gives; no text where it gives none.
pub open spec fn instructions_of(request: JsonView) -> Seq<char> {
    match text_at(request, "instructions"@) {
        Some(text) => text,
        None => seq![],
    }
}

/// Whether a payload holds these messages.
pub open spec fn has_messages(payload: JsonView, messages: Seq<JsonView>) -> bool {
    member(payload, "messages"@) == Some(JsonView::Array(messages))
}

/// Whether a value is an object with no members but those under `keys`.
pub open spec fn has_only(value: JsonView, keys: Set<Seq<char>>) -> bool {
    value is Object && forall|key: Seq<char>|
        (#[trigger] member(value, key)) is Some ==> keys.contains(key)
}

// ---------------------------------------------------------------------------
// Keys
// ---------------------------------------------------------------------------

proof fn lemma_body_keys()
    ensures
        "model"@.len() == 5 && "input"@.len() == 5 && "tools"@.len() == 5 && "store"@.len() == 5,
        "model"@ != "store"@ && "input"@ != "store"@ && "tools"@ != "store"@,
        "model"@ != "tools"@ && "input"@ != "tools"@ && "model"@ != "input"@,
        "stream"@.len() == 6,
        "reasoning"@.len() == 9,
        "tool_choice"@.len() == 11,
        "instructions"@.len() == 12,
        "max_output_tokens"@.len() == 17,
        "parallel_tool_calls"@.len() == 19,
{
    reveal_strlit("model");
    reveal_strlit("input");
    reveal_strlit("tools");
    reveal_strlit("store");
    reveal_strlit("stream");
    reveal_strlit("reasoning");
    reveal_strlit("tool_choice");
    reveal_strlit("instructions");
    reveal_strlit("max_output_tokens");
    reveal_strlit("parallel_tool_calls");
    assert("model"@[0] == 'm' && "input"@[0] == 'i' && "tools"@[0] == 't' && "store"@[0] == 's');
}

proof fn lemma_item_keys()
    ensures
        "type"@.len() == 4 && "name"@.len() == 4 && "role"@.len() == 4 && "text"@.len() == 4,
        "type"@ != "name"@ && "type"@ != "text"@ && "type"@ != "role"@,
        "call_id"@.len() == 7 && "content"@.len() == 7 && "call_id"@ != "content"@,
        "output"@.len() == 6,
        "arguments"@.len() == 9 && "image_url"@.len() == 9,
        "description"@.len() == 11,
        "parameters"@.len() == 10,
        "properties"@.len() == 10,
        "function"@.len() == 8,
{
    reveal_strlit("type");
    reveal_strlit("name");
    reveal_strlit("role");
    reveal_strlit("text");
    reveal_strlit("call_id");
    reveal_strlit("content");
    reveal_strlit("output");
    reveal_strlit("arguments");
    reveal_strlit("image_url");
    reveal_strlit("description");
    reveal_strlit("parameters");
    reveal_strlit("properties");
    reveal_strlit("function");
    assert("type"@[0] == 't' && "name"@[0] == 'n' && "role"@[0] == 'r' && "text"@[1] == 'e'
        && "type"@[1] == 'y');
    assert("call_id"@[1] == 'a' && "content"@[1] == 'o');
}

proof fn lemma_roles()
    ensures
        "tool"@ != "system"@ && "tool"@ != "developer"@ && "assistant"@ != "system"@ && "assistant"@
            != "developer"@ && "assistant"@ != "tool"@,
        "user"@ != "system"@ && "user"@ != "developer"@ && "user"@ != "tool"@ && "user"@
            != "assistant"@,
{
    reveal_strlit("tool");
    reveal_strlit("user");
    reveal_strlit("system");
    reveal_strlit("assistant");
    reveal_strlit("developer");
    assert("tool"@.len() == 4 && "user"@.len() == 4 && "system"@.len() == 6 && "assistant"@.len() == 9
        && "developer"@.len() == 9);
    assert("tool"@[0] == 't' && "user"@[0] == 'u' && "assistant"@[0] == 'a' && "developer"@[0] == 'd');
}

proof fn lemma_empty()
    ensures
        ""@ == Seq::<char>::empty(),
{
    reveal_strlit("");
    assert(""@ =~= Seq::<char>::empty());
}

proof fn lemma_input(payload: JsonView, messages: Seq<JsonView>, codex: bool)
    requires
        has_messages(payload, messages),
    ensures
        input_of(request_of(payload, codex)) == input_items(messages),
{
    lemma_body_keys();
}

proof fn lemma_single(message: JsonView)
    ensures
        input_items(seq![message]) == message_items(message),
{
    assert(seq![message].drop_last() =~= Seq::<JsonView>::empty());
    assert(input_items(Seq::<JsonView>::empty()) =~= Seq::<JsonView>::empty());
    assert(input_items(seq![message]) =~= message_items(message));
}

/// The texts of parts, one after the other.
pub open spec fn texts_of(parts: Seq<JsonView>) -> Seq<Seq<char>> {
    Seq::new(
        parts.len(),
        |i: int|
            match text_at(parts[i], "text"@) {
                Some(text) => text,
                None => seq![],
            },
    )
}

proof fn lemma_joined(parts: Seq<JsonView>)
    ensures
        joined_parts(parts) == texts_of(parts).flatten(),
    decreases parts.len(),
{
    let texts = texts_of(parts);
    texts.lemma_flatten_and_flatten_alt_are_equivalent();
    if parts.len() > 0 {
        lemma_joined(parts.drop_last());
        let fewer = texts_of(parts.drop_last());
        fewer.lemma_flatten_and_flatten_alt_are_equivalent();
        assert(texts.drop_last() =~= fewer);
        assert(texts.last() == texts[parts.len() - 1]);
    }
}

/// Whether a message says `said`: it stands there as it is, or in the texts of parts, one after
/// the other; a message without either says nothing.
pub open spec fn says(message: JsonView, said: Seq<char>) -> bool {
    match member(message, "content"@) {
        Some(JsonView::Text(text)) => said == text,
        Some(JsonView::Array(parts)) => said == texts_of(parts).flatten(),
        _ => said.len() == 0,
    }
}

proof fn lemma_says(message: JsonView, said: Seq<char>)
    requires
        says(message, said),
    ensures
        content_chars(member(message, "content"@)) == said,
{
    match member(message, "content"@) {
        Some(JsonView::Text(text)) => {},
        Some(JsonView::Array(parts)) => {
            lemma_joined(parts);
        },
        _ => {
            assert(said =~= Seq::<char>::empty());
        },
    }
}

// ---------------------------------------------------------------------------
// The body as a whole
// ---------------------------------------------------------------------------

/// The model is named as the caller names it, letter for letter; the reply is streamed unless the
/// caller says `false`; and a request has no members but the ones that a Responses backend knows.
pub proof fn law_model_and_stream_pass(payload: JsonView, codex: bool)
    ensures
        text_at(payload, "model"@) is Some ==> text_at(request_of(payload, codex), "model"@) == text_at(
            payload,
            "model"@,
        ),
        text_at(payload, "model"@) is None ==> text_at(request_of(payload, codex), "model"@) == Some(
            Seq::<char>::empty(),
        ),
        as_truth(member(request_of(payload, codex), "stream"@)) == Some(
            member(payload, "stream"@) != Some(JsonView::Bool(false)),
        ),
        has_only(
            request_of(payload, codex),
            set![
                "model"@,
                "input"@,
                "stream"@,
                "instructions"@,
                "tools"@,
                "tool_choice"@,
                "parallel_tool_calls"@,
                "max_output_tokens"@,
                "reasoning"@,
                "store"@,
            ],
        ),
{
    lemma_body_keys();
    lemma_empty();
}

/// Only the Codex backend is told `store: false`, and only other backends get the caller's cap on
/// the output: its `max_tokens`, or else its `max_output_tokens`, as it stands.
pub proof fn law_cap_and_store(payload: JsonView)
    ensures
        member(request_of(payload, true), "store"@) == Some(JsonView::Bool(false)),
        member(request_of(payload, false), "store"@) is None,
        member(request_of(payload, true), "max_output_tokens"@) is None,
        member(payload, "max_tokens"@) is Some ==> member(
            request_of(payload, false),
            "max_output_tokens"@,
        ) == member(payload, "max_tokens"@),
        member(payload, "max_tokens"@) is None ==> member(
            request_of(payload, false),
            "max_output_tokens"@,
        ) == member(payload, "max_output_tokens"@),
{
    lemma_body_keys();
}

// ---------------------------------------------------------------------------
// The input
// ---------------------------------------------------------------------------

/// A conversation of two stretches has the input of the first and then that of the second, for
/// any backend.
pub proof fn law_input_of_stretches(
    whole: JsonView,
    head: JsonView,
    tail: JsonView,
    first: Seq<JsonView>,
    second: Seq<JsonView>,
    codex: bool,
    other: bool,
)
    requires
        has_messages(whole, first + second),
        has_messages(head, first),
        has_messages(tail, second),
    ensures
        input_of(request_of(whole, codex)) == input_of(request_of(head, other)) + input_of(
            request_of(tail, other),
        ),
{
    lemma_input(whole, first + second, codex);
    lemma_input(head, first, other);
    lemma_input(tail, second, other);
    law_input_grows(first, second);
}

/// A payload without messages, or with something else in their place, has an empty input.
pub proof fn law_no_messages_no_input(payload: JsonView, codex: bool)
    requires
        !(member(payload, "messages"@) matches Some(JsonView::Array(messages)) && messages.len() > 0),
    ensures
        as_items(member(request_of(payload, codex), "input"@)) == Some(Seq::<JsonView>::empty()),
        instructions_of(request_of(payload, false)) == Seq::<char>::empty(),
{
    lemma_body_keys();
    let none = messages_of(payload);
    assert(none =~= Seq::<JsonView>::empty());
    assert(input_items(none) =~= Seq::<JsonView>::empty());
}

/// The output of a tool goes back as one item that names the call which it answers, by the id
/// that the caller gave, with the tool's text as it stands.
pub proof fn law_output_names_its_call(
    payload: JsonView,
    message: JsonView,
    id: Seq<char>,
    output: Seq<char>,
    codex: bool,
)
    requires
        has_messages(payload, seq![message]),
        text_at(message, "role"@) == Some("tool"@),
        text_at(message, "tool_call_id"@) == Some(id) || (id.len() == 0 && text_at(
            message,
            "tool_call_id"@,
        ) is None),
        says(message, output),
    ensures
        ({
            let input = input_of(request_of(payload, codex));
            &&& input.len() == 1
            &&& text_at(input[0], "type"@) == Some("function_call_output"@)
            &&& text_at(input[0], "call_id"@) == Some(id)
            &&& text_at(input[0], "output"@) == Some(output)
            &&& has_only(input[0], set!["type"@, "call_id"@, "output"@])
        }),
{
    lemma_item_keys();
    lemma_roles();
    lemma_empty();
    lemma_says(message, output);
    assert(id.len() == 0 ==> id =~= Seq::<char>::empty());
    lemma_input(payload, seq![message], codex);
    lemma_single(message);
}

/// Every call of an assistant message becomes one item, in the order of the calls, with the
/// caller's id, name and arguments as they stand; arguments that are missing are an empty object.
/// The text of the message follows as an item of its own, if there is any.
pub proof fn law_calls_carry_over(
    payload: JsonView,
    message: JsonView,
    calls: Seq<JsonView>,
    said: Seq<char>,
    codex: bool,
)
    requires
        has_messages(payload, seq![message]),
        text_at(message, "role"@) == Some("assistant"@),
        as_items(member(message, "tool_calls"@)) == Some(calls) || (calls.len() == 0 && as_items(
            member(message, "tool_calls"@),
        ) is None),
        says(message, said),
    ensures
        ({
            let input = input_of(request_of(payload, codex));
            &&& input.len() == calls.len() + if said.len() == 0 {
                0int
            } else {
                1
            }
            &&& forall|i: int|
                0 <= i < calls.len() ==> {
                    let call = #[trigger] calls[i];
                    let function = member(call, "function"@);
                    let id = text_at(call, "id"@);
                    let name = as_text(member_of(function, "name"@));
                    let arguments = as_text(member_of(function, "arguments"@));
                    &&& text_at(input[i], "type"@) == Some("function_call"@)
                    &&& id is Some ==> text_at(input[i], "call_id"@) == id
                    &&& id is None ==> text_at(input[i], "call_id"@) == Some(Seq::<char>::empty())
                    &&& name is Some ==> text_at(input[i], "name"@) == name
                    &&& name is None ==> text_at(input[i], "name"@) == Some(Seq::<char>::empty())
                    &&& arguments is Some ==> text_at(input[i], "arguments"@) == arguments
                    &&& arguments is None ==> text_at(input[i], "arguments"@) == Some("{}"@)
                    &&& has_only(input[i], set!["type"@, "call_id"@, "name"@, "arguments"@])
                }
            &&& said.len() > 0 ==> {
                &&& text_at(input.last(), "role"@) == Some("assistant"@)
                &&& text_at(input.last(), "content"@) == Some(said)
                &&& has_only(input.last(), set!["role"@, "content"@])
            }
        }),
{
    lemma_item_keys();
    lemma_roles();
    lemma_empty();
    lemma_input(payload, seq![message], codex);
    lemma_single(message);
    let input = input_of(request_of(payload, codex));
    lemma_says(message, said);
    let items = calls.map_values(|call: JsonView| call_item(call));
    assert(as_items(member(message, "tool_calls"@)) is None ==> items =~= Seq::<JsonView>::empty());
    assert forall|i: int| 0 <= i < calls.len() implies input[i] == call_item(#[trigger] calls[i]) by {
        assert(items[i] == call_item(calls[i]));
    }
}

/// Wherever in a conversation a call and its answer stand, the input holds an item for the call
/// and, if the answer comes later, behind it an item for the answer, and both carry the same id.
pub proof fn law_answers_meet_their_calls(
    payload: JsonView,
    messages: Seq<JsonView>,
    i: int,
    c: int,
    j: int,
    calls: Seq<JsonView>,
    id: Seq<char>,
    codex: bool,
)
    requires
        has_messages(payload, messages),
        0 <= i < j < messages.len(),
        text_at(messages[i], "role"@) == Some("assistant"@),
        as_items(member(messages[i], "tool_calls"@)) == Some(calls),
        0 <= c < calls.len(),
        text_at(calls[c], "id"@) == Some(id),
        text_at(messages[j], "role"@) == Some("tool"@),
        text_at(messages[j], "tool_call_id"@) == Some(id),
    ensures
        exists|a: int, b: int|
            #![trigger input_of(request_of(payload, codex))[a], input_of(
                request_of(payload, codex),
            )[b]]
            {
                let input = input_of(request_of(payload, codex));
                &&& 0 <= a < b < input.len()
                &&& text_at(input[a], "type"@) == Some("function_call"@)
                &&& text_at(input[b], "type"@) == Some("function_call_output"@)
                &&& text_at(input[a], "call_id"@) == Some(id)
                &&& text_at(input[b], "call_id"@) == Some(id)
            },
{
    lemma_item_keys();
    lemma_roles();
    lemma_input(payload, messages, codex);
    let input = input_of(request_of(payload, codex));
    let first = messages.take(i);
    let middle = messages.subrange(i + 1, j);
    let rest = messages.skip(j + 1);
    assert(messages =~= first + (seq![messages[i]] + (middle + (seq![messages[j]] + rest))));
    law_input_grows(first, seq![messages[i]] + (middle + (seq![messages[j]] + rest)));
    law_input_grows(seq![messages[i]], middle + (seq![messages[j]] + rest));
    law_input_grows(middle, seq![messages[j]] + rest);
    law_input_grows(seq![messages[j]], rest);
    lemma_single(messages[i]);
    lemma_single(messages[j]);
    let a = input_items(first).len() + c;
    let b = input_items(first).len() + message_items(messages[i]).len() + input_items(middle).len();
    let items = calls.map_values(|call: JsonView| call_item(call));
    assert(items[c] == call_item(calls[c]));
    assert(message_items(messages[i]) == assistant_items(messages[i]));
    assert(message_items(messages[i])[c] == call_item(calls[c]));
    assert(input[a] == call_item(calls[c]));
    assert(input[b as int] == message_items(messages[j])[0]);
}

/// What the user says goes in as one item with the user's text as it stands; a message of a role
/// that is not known counts as the user's.
pub proof fn law_user_text_carries_over(
    payload: JsonView,
    message: JsonView,
    said: Seq<char>,
    codex: bool,
)
    requires
        has_messages(payload, seq![message]),
        as_items(member(message, "content"@)) is None,
        says(message, said),
        !(text_at(message, "role"@) matches Some(role) && (role == "system"@ || role == "developer"@
            || role == "tool"@ || role == "assistant"@)),
    ensures
        ({
            let input = input_of(request_of(payload, codex));
            &&& input.len() == 1
            &&& text_at(input[0], "role"@) == Some("user"@)
            &&& text_at(input[0], "content"@) == Some(said)
            &&& has_only(input[0], set!["role"@, "content"@])
        }),
{
    lemma_item_keys();
    lemma_empty();
    lemma_says(message, said);
    reveal_strlit("system");
    reveal_strlit("developer");
    reveal_strlit("tool");
    reveal_strlit("assistant");
    assert("system"@.len() == 6 && "developer"@.len() == 9 && "tool"@.len() == 4 && "assistant"@.len()
        == 9);
    lemma_input(payload, seq![message], codex);
    lemma_single(message);
}

/// The parts that a request has for the one user message of a payload.
pub open spec fn user_parts_of(payload: JsonView, codex: bool) -> Option<Seq<JsonView>> {
    as_items(member(input_of(request_of(payload, codex))[0], "content"@))
}

/// Whether a payload holds one message, the user's, made of these parts.
pub open spec fn has_user_parts(payload: JsonView, message: JsonView, parts: Seq<JsonView>) -> bool {
    has_messages(payload, seq![message]) && text_at(message, "role"@) == Some("user"@) && as_items(
        member(message, "content"@),
    ) == Some(parts)
}

proof fn lemma_user_parts(payload: JsonView, message: JsonView, parts: Seq<JsonView>, codex: bool)
    requires
        has_user_parts(payload, message, parts),
    ensures
        input_of(request_of(payload, codex)).len() == 1,
        text_at(input_of(request_of(payload, codex))[0], "role"@) == Some("user"@),
        user_parts_of(payload, codex) == Some(user_parts(parts)),
{
    lemma_item_keys();
    lemma_roles();
    lemma_input(payload, seq![message], codex);
    lemma_single(message);
}

proof fn lemma_user_parts_join(a: Seq<JsonView>, b: Seq<JsonView>)
    ensures
        user_parts(a + b) == user_parts(a) + user_parts(b),
    decreases b.len(),
{
    if b.len() == 0 {
        assert(a + b =~= a);
        assert(user_parts(a) + user_parts(b) =~= user_parts(a));
    } else {
        assert((a + b).drop_last() =~= a + b.drop_last());
        lemma_user_parts_join(a, b.drop_last());
        assert(user_parts(a + b) =~= user_parts(a) + user_parts(b));
    }
}

/// The parts of a user message carry over one by one, in their order: a message of two stretches
/// of parts has those of the first and then those of the second.
pub proof fn law_user_parts_in_order(
    whole: JsonView,
    said: JsonView,
    head: JsonView,
    before: JsonView,
    tail: JsonView,
    after: JsonView,
    first: Seq<JsonView>,
    second: Seq<JsonView>,
    codex: bool,
)
    requires
        has_user_parts(whole, said, first + second),
        has_user_parts(head, before, first),
        has_user_parts(tail, after, second),
    ensures
        user_parts_of(head, codex) is Some && user_parts_of(tail, codex) is Some,
        user_parts_of(whole, codex) == Some(
            user_parts_of(head, codex)->0 + user_parts_of(tail, codex)->0,
        ),
        input_of(request_of(whole, codex)).len() == 1,
        text_at(input_of(request_of(whole, codex))[0], "role"@) == Some("user"@),
{
    lemma_user_parts(whole, said, first + second, codex);
    lemma_user_parts(head, before, first, codex);
    lemma_user_parts(tail, after, second, codex);
    lemma_user_parts_join(first, second);
}

/// A text part carries over with its text as it stands, whatever its type but an image; an image
/// carries over by its address; a part with neither does not carry over.
pub proof fn law_user_part_carries_over(
    payload: JsonView,
    message: JsonView,
    part: JsonView,
    codex: bool,
)
    requires
        has_user_parts(payload, message, seq![part]),
    ensures
        ({
            let out = user_parts_of(payload, codex)->0;
            let is_image = text_at(part, "type"@) == Some("image_url"@);
            let said = text_at(part, "text"@);
            let url = as_text(member_of(member(part, "image_url"@), "url"@));
            &&& user_parts_of(payload, codex) is Some
            &&& is_image && url is Some ==> {
                &&& out.len() == 1
                &&& text_at(out[0], "type"@) == Some("input_image"@)
                &&& text_at(out[0], "image_url"@) == url
                &&& has_only(out[0], set!["type"@, "image_url"@])
            }
            &&& !is_image && said is Some ==> {
                &&& out.len() == 1
                &&& text_at(out[0], "type"@) == Some("input_text"@)
                &&& text_at(out[0], "text"@) == said
                &&& has_only(out[0], set!["type"@, "text"@])
            }
            &&& is_image && url is None ==> out.len() == 0
            &&& !is_image && said is None ==> out.len() == 0
        }),
{
    lemma_item_keys();
    lemma_empty();
    reveal_strlit("image_url");
    assert("image_url"@.len() == 9);
    lemma_user_parts(payload, message, seq![part], codex);
    assert(seq![part].drop_last() =~= Seq::<JsonView>::empty());
    assert(user_parts(Seq::<JsonView>::empty()) =~= Seq::<JsonView>::empty());
    match user_part(part) {
        Some(out) => {
            assert(user_parts(seq![part]) =~= seq![out]);
        },
        None => {},
    }
}

/// Whether two messages are the same but for what stands under `content`.
pub open spec fn differ_in_content(a: JsonView, b: JsonView) -> bool {
    forall|key: Seq<char>| key != "content"@ ==> #[trigger] member(a, key) == member(b, key)
}

/// A message made of parts says what the texts of its parts say one after the other: unless it is
/// the user's, it converts as one with that text does.
pub proof fn law_parts_say_their_texts(
    payload: JsonView,
    message: JsonView,
    parts: Seq<JsonView>,
    plain: JsonView,
    spoken: JsonView,
    role: Seq<char>,
    codex: bool,
)
    requires
        has_messages(payload, seq![message]),
        has_messages(plain, seq![spoken]),
        differ_in_content(message, spoken),
        text_at(message, "role"@) == Some(role),
        role == "system"@ || role == "developer"@ || role == "tool"@ || role == "assistant"@,
        as_items(member(message, "content"@)) == Some(parts),
        text_at(spoken, "content"@) == Some(texts_of(parts).flatten()),
    ensures
        input_of(request_of(payload, codex)) == input_of(request_of(plain, codex)),
        instructions_of(request_of(payload, codex)) == instructions_of(request_of(plain, codex)),
{
    lemma_body_keys();
    lemma_item_keys();
    lemma_joined(parts);
    reveal_strlit("role");
    reveal_strlit("content");
    reveal_strlit("tool_calls");
    reveal_strlit("tool_call_id");
    assert("role"@.len() == 4 && "content"@.len() == 7 && "tool_calls"@.len() == 10
        && "tool_call_id"@.len() == 12);
    assert(member(message, "role"@) == member(spoken, "role"@));
    assert(member(message, "tool_calls"@) == member(spoken, "tool_calls"@));
    assert(member(message, "tool_call_id"@) == member(spoken, "tool_call_id"@));
    lemma_input(payload, seq![message], codex);
    lemma_input(plain, seq![spoken], codex);
    lemma_single(message);
    lemma_single(spoken);
    assert(content_chars(member(message, "content"@)) == content_chars(member(spoken, "content"@)));
    lemma_instructions_single(message);
    lemma_instructions_single(spoken);
}

proof fn lemma_instructions_single(message: JsonView)
    ensures
        instruction_chars(seq![message]) == (if is_instruction(message) {
            content_chars(member(message, "content"@))
        } else {
            seq![]
        }),
{
    assert(seq![message].drop_last() =~= Seq::<JsonView>::empty());
    assert(instruction_chars(Seq::<JsonView>::empty()) =~= Seq::<char>::empty());
    if is_instruction(message) && content_chars(member(message, "content"@)).len() == 0 {
        assert(content_chars(member(message, "content"@)) =~= Seq::<char>::empty());
    }
}

// ---------------------------------------------------------------------------
// Instructions
// ---------------------------------------------------------------------------

/// One more message adds to the instructions only if its role is `system` or `developer` and it
/// has text: that text, as it stands, behind a blank line if there were instructions before. It
/// adds nothing to the input then.
pub proof fn law_instructions_are_collected(
    before: JsonView,
    after: JsonView,
    messages: Seq<JsonView>,
    message: JsonView,
    said: Seq<char>,
)
    requires
        has_messages(before, messages),
        has_messages(after, messages.push(message)),
        says(message, said),
    ensures
        ({
            let role = text_at(message, "role"@);
            let old_text = instructions_of(request_of(before, false));
            let new_text = instructions_of(request_of(after, false));
            if (role == Some("system"@) || role == Some("developer"@)) && said.len() > 0 {
                &&& old_text.len() == 0 ==> new_text == said
                &&& old_text.len() > 0 ==> new_text == old_text + seq!['\n', '\n'] + said
                &&& input_of(request_of(after, false)) == input_of(request_of(before, false))
            } else {
                new_text == old_text
            }
        }),
{
    lemma_body_keys();
    lemma_empty();
    reveal_strlit("\n\n");
    reveal_strlit("system");
    reveal_strlit("developer");
    assert("system"@.len() == 6 && "developer"@.len() == 9);
    assert("\n\n"@ =~= seq!['\n', '\n']);
    assert(messages.push(message).drop_last() =~= messages);
    lemma_input(before, messages, false);
    lemma_input(after, messages.push(message), false);
    assert(input_items(messages) + seq![] =~= input_items(messages));
    lemma_says(message, said);
    let old_text = instruction_chars(messages);
    let new_text = instruction_chars(messages.push(message));
    assert(old_text.len() == 0 ==> old_text =~= Seq::<char>::empty());
    assert(new_text.len() == 0 ==> new_text =~= Seq::<char>::empty());
    assert(instructions_of(request_of(before, false)) == old_text);
    assert(instructions_of(request_of(after, false)) == new_text);
}

/// The Codex backend gets the instructions that any backend gets; where those are missing or
/// blank, it gets a fixed sentence, the same for every payload.
pub proof fn law_codex_instructions(payload: JsonView)
    ensures
        ({
            let own = instructions_of(request_of(payload, false));
            let sent = text_at(request_of(payload, true), "instructions"@);
            if trimmed(own).len() > 0 {
                sent == Some(own)
            } else {
                sent == Some("You are a helpful assistant."@)
            }
        }),
        text_at(request_of(payload, false), "instructions"@) matches Some(own) ==> own.len() > 0,
{
    lemma_body_keys();
    reveal_strlit("You are a helpful assistant.");
    assert("You are a helpful assistant."@.len() == 28);
    let own = instruction_chars(messages_of(payload));
    assert(own.len() == 0 ==> own =~= Seq::<char>::empty());
    assert(instructions_of(request_of(payload, false)) == own);
    crate::text::lemma_trimmed_short(own);
    assert(request_instructions(payload, false) == own);
}

// ---------------------------------------------------------------------------
// Tools and reasoning
// ---------------------------------------------------------------------------

proof fn lemma_tools(payload: JsonView, tools: Seq<JsonView>, codex: bool)
    requires
        as_items(member(payload, "tools"@)) == Some(tools),
    ensures
        tools_of(request_of(payload, codex)) == tool_views(tools),
{
    lemma_body_keys();
    assert(tool_views(tools).len() == 0 ==> tool_views(tools) =~= Seq::<JsonView>::empty());
}

proof fn lemma_tools_join(a: Seq<JsonView>, b: Seq<JsonView>)
    ensures
        tool_views(a + b) == tool_views(a) + tool_views(b),
    decreases b.len(),
{
    if b.len() == 0 {
        assert(a + b =~= a);
        assert(tool_views(a) + tool_views(b) =~= tool_views(a));
    } else {
        assert((a + b).drop_last() =~= a + b.drop_last());
        lemma_tools_join(a, b.drop_last());
        assert(tool_views(a + b) =~= tool_views(a) + tool_views(b));
    }
}

/// Tools carry over one by one, in their order: two stretches of tools give those of the first and
/// then those of the second.
pub proof fn law_tools_in_order(
    whole: JsonView,
    head: JsonView,
    tail: JsonView,
    first: Seq<JsonView>,
    second: Seq<JsonView>,
    codex: bool,
)
    requires
        as_items(member(whole, "tools"@)) == Some(first + second),
        as_items(member(head, "tools"@)) == Some(first),
        as_items(member(tail, "tools"@)) == Some(second),
    ensures
        tools_of(request_of(whole, codex)) == tools_of(request_of(head, codex)) + tools_of(
            request_of(tail, codex),
        ),
{
    lemma_tools(whole, first + second, codex);
    lemma_tools(head, first, codex);
    lemma_tools(tail, second, codex);
    lemma_tools_join(first, second);
}

/// A tool with a name carries over with the name, the description and the parameters that the
/// caller gives, as they stand; parameters that are missing are those of an object without
/// properties. A tool without a name does not carry over.
pub proof fn law_tool_carries_over(payload: JsonView, tool: JsonView, codex: bool)
    requires
        as_items(member(payload, "tools"@)) == Some(seq![tool]),
    ensures
        ({
            let out = tools_of(request_of(payload, codex));
            let function = member(tool, "function"@);
            let name = as_text(member_of(function, "name"@));
            let description = as_text(member_of(function, "description"@));
            let parameters = member_of(function, "parameters"@);
            &&& name is None ==> out.len() == 0
            &&& name is Some ==> {
                &&& out.len() == 1
                &&& text_at(out[0], "type"@) == Some("function"@)
                &&& text_at(out[0], "name"@) == name
                &&& description is Some ==> text_at(out[0], "description"@) == description
                &&& description is None ==> text_at(out[0], "description"@) == Some(
                    Seq::<char>::empty(),
                )
                &&& parameters is Some ==> member(out[0], "parameters"@) == parameters
                &&& parameters is None ==> {
                    let none = member(out[0], "parameters"@);
                    &&& none is Some
                    &&& text_at(none->0, "type"@) == Some("object"@)
                    &&& member(none->0, "properties"@) == Some(
                        JsonView::Object(Map::<Seq<char>, JsonView>::empty()),
                    )
                    &&& has_only(none->0, set!["type"@, "properties"@])
                }
                &&& has_only(out[0], set!["type"@, "name"@, "description"@, "parameters"@])
            }
        }),
{
    lemma_item_keys();
    lemma_empty();
    lemma_tools(payload, seq![tool], codex);
    assert(seq![tool].drop_last() =~= Seq::<JsonView>::empty());
    assert(tool_views(Seq::<JsonView>::empty()) =~= Seq::<JsonView>::empty());
    match crate::responses::tool_view(tool) {
        Some(out) => {
            assert(tool_views(seq![tool]) =~= seq![out]);
        },
        None => {},
    }
}

/// A request offers no empty list of tools. With tools it leaves the choice to the model and
/// allows parallel calls; without, it says nothing of either.
pub proof fn law_tools_bring_their_settings(payload: JsonView, codex: bool)
    ensures
        ({
            let request = request_of(payload, codex);
            if tools_of(request).len() > 0 {
                &&& text_at(request, "tool_choice"@) == Some("auto"@)
                &&& as_truth(member(request, "parallel_tool_calls"@)) == Some(true)
            } else {
                &&& member(request, "tools"@) is None
                &&& member(request, "tool_choice"@) is None
                &&& member(request, "parallel_tool_calls"@) is None
            }
        }),
        as_items(member(payload, "tools"@)) is None ==> member(
            request_of(payload, codex),
            "tools"@,
        ) is None,
{
    lemma_body_keys();
}

/// Reasoning settings pass whole or not at all: not if they are empty or their effort is `none` or
/// blank. A payload without settings may name an effort alone; it is sent, trimmed, as the only
/// setting, unless it is `none` or blank.
pub proof fn law_reasoning_passes(payload: JsonView, codex: bool)
    ensures
        ({
            let sent = member(request_of(payload, codex), "reasoning"@);
            match member(payload, "reasoning"@) {
                Some(JsonView::Object(settings)) => {
                    let effort = text_at(JsonView::Object(settings), "effort"@);
                    let left_out = settings == Map::<Seq<char>, JsonView>::empty() || (
                    effort matches Some(e) && (e == "none"@ || trimmed(e).len() == 0));
                    &&& left_out ==> sent is None
                    &&& !left_out ==> sent == Some(JsonView::Object(settings))
                },
                _ => match text_at(payload, "reasoning_effort"@) {
                    Some(e) => if trimmed(e).len() == 0 || trimmed(e) == "none"@ {
                        sent is None
                    } else {
                        &&& sent is Some
                        &&& text_at(sent->0, "effort"@) == Some(trimmed(e))
                        &&& has_only(sent->0, set!["effort"@])
                    },
                    None => sent is None,
                },
            }
        }),
{
    lemma_body_keys();
}

// ---------------------------------------------------------------------------
// The reply
// ---------------------------------------------------------------------------

/// The parts of an output item; none where its content is no array.
pub open spec fn parts_of(item: JsonView) -> Seq<JsonView> {
    match as_items(member(item, "content"@)) {
        Some(parts) => parts,
        None => seq![],
    }
}

proof fn lemma_items(items: Seq<JsonView>)
    ensures
        joined_items(items) == texts_of(items.map_values(|item: JsonView| parts_of(item)).flatten()).flatten(),
    decreases items.len(),
{
    let parts = items.map_values(|item: JsonView| parts_of(item));
    parts.lemma_flatten_and_flatten_alt_are_equivalent();
    if items.len() == 0 {
        assert(parts.flatten() =~= Seq::<JsonView>::empty());
        assert(texts_of(parts.flatten()) =~= Seq::<Seq<char>>::empty());
    } else {
        let fewer = items.drop_last().map_values(|item: JsonView| parts_of(item));
        lemma_items(items.drop_last());
        fewer.lemma_flatten_and_flatten_alt_are_equivalent();
        assert(parts.drop_last() =~= fewer);
        let last = parts_of(items.last());
        assert(parts.last() == last);
        assert(parts.flatten() == fewer.flatten() + last);
        lemma_joined(last);
        lemma_joined(fewer.flatten());
        lemma_joined(fewer.flatten() + last);
        lemma_parts_join(fewer.flatten(), last);
        assert(joined_parts(Seq::<JsonView>::empty()) =~= Seq::<char>::empty());
    }
}

proof fn lemma_parts_join(a: Seq<JsonView>, b: Seq<JsonView>)
    ensures
        joined_parts(a + b) == joined_parts(a) + joined_parts(b),
    decreases b.len(),
{
    if b.len() == 0 {
        assert(a + b =~= a);
        assert(joined_parts(a) + joined_parts(b) =~= joined_parts(a));
    } else {
        assert((a + b).drop_last() =~= a + b.drop_last());
        lemma_parts_join(a, b.drop_last());
        assert(joined_parts(a + b) =~= joined_parts(a) + joined_parts(b));
    }
}

/// A reply says what its `output_text` says; or else the texts of all the parts of all its output
/// items, in their order, whatever else the items and the parts hold; or else nothing.
pub proof fn law_reply_says_all_its_parts(body: JsonView)
    ensures
        text_at(body, "output_text"@) matches Some(text) ==> reply_chars(body) == text,
        text_at(body, "output_text"@) is None ==> (as_items(member(body, "output"@)) matches Some(items)
            ==> reply_chars(body) == texts_of(
            items.map_values(|item: JsonView| parts_of(item)).flatten(),
        ).flatten()),
        text_at(body, "output_text"@) is None && as_items(member(body, "output"@)) is None
            ==> reply_chars(body).len() == 0,
{
    match as_items(member(body, "output"@)) {
        Some(items) => {
            lemma_items(items);
        },
        None => {},
    }
}

/// A reply of two stretches of output says what the first says and then what the second says.
pub proof fn law_reply_of_stretches(
    whole: JsonView,
    head: JsonView,
    tail: JsonView,
    first: Seq<JsonView>,
    second: Seq<JsonView>,
)
    requires
        text_at(whole, "output_text"@) is None,
        text_at(head, "output_text"@) is None,
        text_at(tail, "output_text"@) is None,
        as_items(member(whole, "output"@)) == Some(first + second),
        as_items(member(head, "output"@)) == Some(first),
        as_items(member(tail, "output"@)) == Some(second),
    ensures
        reply_chars(whole) == reply_chars(head) + reply_chars(tail),
{
    lemma_items_join(first, second);
}

proof fn lemma_items_join(a: Seq<JsonView>, b: Seq<JsonView>)
    ensures
        joined_items(a + b) == joined_items(a) + joined_items(b),
    decreases b.len(),
{
    if b.len() == 0 {
        assert(a + b =~= a);
        assert(joined_items(a) + joined_items(b) =~= joined_items(a));
    } else {
        assert((a + b).drop_last() =~= a + b.drop_last());
        lemma_items_join(a, b.drop_last());
        assert(joined_items(a + b) =~= joined_items(a) + joined_items(b));
    }
}

/// An output item with one part says the text of that part, whatever the item and the part hold
/// besides; an item whose content is no list of parts says nothing.
pub proof fn law_output_item_says_its_text(body: JsonView, item: JsonView, part: JsonView)
    requires
        text_at(body, "output_text"@) is None,
        as_items(member(body, "output"@)) == Some(seq![item]),
    ensures
        as_items(member(item, "content"@)) == Some(seq![part]) ==> (text_at(
            part,
            "text"@,
        ) matches Some(text) ==> reply_chars(body) == text),
        as_items(member(item, "content"@)) == Some(seq![part]) && text_at(part, "text"@) is None
            ==> reply_chars(body).len() == 0,
        as_items(member(item, "content"@)) is None ==> reply_chars(body).len() == 0,
{
    assert(seq![item].drop_last() =~= Seq::<JsonView>::empty());
    assert(seq![part].drop_last() =~= Seq::<JsonView>::empty());
    reveal_with_fuel(joined_items, 2);
    reveal_with_fuel(joined_parts, 2);
    match text_at(part, "text"@) {
        Some(text) => {
            assert(joined_parts(seq![part]) =~= text);
        },
        None => {},
    }
    assert(as_items(member(item, "content"@)) == Some(seq![part]) ==> joined_items(seq![item])
        =~= joined_parts(seq![part]));
}

} // verus!
