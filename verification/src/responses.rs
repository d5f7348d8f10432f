//! Chat-completions bodies turned into Responses requests, and the text of a Responses reply.

use vstd::prelude::*;
use vstd::string::StringExecFns;
use crate::json::{array_view, as_items, as_text, as_truth, member, member_of, object_view, opt_view, or_else, put, ref_view, text_at, Json, JsonView};
use crate::text;

verus! {

/// Instructions sent to the Codex backend when the conversation has no system prompt; it
/// rejects requests without them.
pub const CODEX_DEFAULT_INSTRUCTIONS: &'static str = "You are a helpful assistant.";

// ---------------------------------------------------------------------------
// Content
// ---------------------------------------------------------------------------

/// The texts of the parts, one after the other.
pub open spec fn joined_parts(parts: Seq<JsonView>) -> Seq<char>
    decreases parts.len(),
{
    if parts.len() == 0 {
        seq![]
    } else {
        joined_parts(parts.drop_last()) + or_else(text_at(parts.last(), "text"@), seq![])
    }
}

/// The text of a message's content: itself, or that of its parts.
pub open spec fn content_chars(content: Option<JsonView>) -> Seq<char> {
    match content {
        Some(JsonView::Text(s)) => s,
        Some(JsonView::Array(parts)) => joined_parts(parts),
        _ => seq![],
    }
}

fn content_text(content: Option<&Json>) -> (r: String)
    ensures
        r@ == content_chars(ref_view(content)),
{
    match content {
        Some(Json::Text(s)) => s.clone(),
        Some(Json::Array(parts)) => {
            let ghost views = array_view(parts@);
            let mut out = String::new();
            for i in 0..parts.len()
                invariant
                    views == array_view(parts@),
                    out@ == joined_parts(views.take(i as int)),
            {
                proof {
                    assert(views.take(i + 1).drop_last() == views.take(i as int));
                }
                match parts[i].text_at("text") {
                    Some(s) => out.append(s),
                    None => {},
                }
            }
            proof {
                assert(views.take(parts@.len() as int) == views);
            }
            out
        },
        _ => String::new(),
    }
}

/// A part of a user message, if it carries over: an image by its address, a text as it is.
pub open spec fn user_part(part: JsonView) -> Option<JsonView> {
    if or_else(text_at(part, "type"@), ""@) == "image_url"@ {
        match as_text(member_of(member(part, "image_url"@), "url"@)) {
            Some(url) => Some(
                JsonView::Object(
                    map![
                        "type"@ => JsonView::Text("input_image"@),
                        "image_url"@ => JsonView::Text(url),
                    ],
                ),
            ),
            None => None,
        }
    } else {
        match text_at(part, "text"@) {
            Some(s) => Some(
                JsonView::Object(
                    map![
                        "type"@ => JsonView::Text("input_text"@),
                        "text"@ => JsonView::Text(s),
                    ],
                ),
            ),
            None => None,
        }
    }
}

fn convert_user_part(part: &Json) -> (r: Option<Json>)
    ensures
        opt_view(r) == user_part(part.view()),
{
    let kind = part.text_or("type", "");
    if text::same(kind, "image_url") {
        let url = match part.get("image_url") {
            Some(image) => image.text_at("url"),
            None => None,
        };
        match url {
            Some(url) => {
                let mut entries: Vec<(String, Json)> = Vec::new();
                put(&mut entries, "type", Json::text("input_image"));
                put(&mut entries, "image_url", Json::text(url));
                Some(Json::Object(entries))
            },
            None => None,
        }
    } else {
        match part.text_at("text") {
            Some(s) => {
                let mut entries: Vec<(String, Json)> = Vec::new();
                put(&mut entries, "type", Json::text("input_text"));
                put(&mut entries, "text", Json::text(s));
                Some(Json::Object(entries))
            },
            None => None,
        }
    }
}

/// The parts of a user message that carry over.
pub open spec fn user_parts(parts: Seq<JsonView>) -> Seq<JsonView>
    decreases parts.len(),
{
    if parts.len() == 0 {
        seq![]
    } else {
        match user_part(parts.last()) {
            Some(part) => user_parts(parts.drop_last()).push(part),
            None => user_parts(parts.drop_last()),
        }
    }
}

/// The input item of a user message.
pub open spec fn user_item(content: Option<JsonView>) -> JsonView {
    match content {
        Some(JsonView::Array(parts)) => JsonView::Object(
            map![
                "role"@ => JsonView::Text("user"@),
                "content"@ => JsonView::Array(user_parts(parts)),
            ],
        ),
        _ => JsonView::Object(
            map![
                "role"@ => JsonView::Text("user"@),
                "content"@ => JsonView::Text(content_chars(content)),
            ],
        ),
    }
}

/// An array grows by what is pushed.
pub proof fn lemma_array_push(items: Seq<Json>, item: Json)
    ensures
        array_view(items.push(item)) == array_view(items).push(item.view()),
{
    assert(array_view(items.push(item)) =~= array_view(items).push(item.view()));
}

fn user_input(content: Option<&Json>) -> (r: Json)
    ensures
        r.view() == user_item(ref_view(content)),
{
    let mut entries: Vec<(String, Json)> = Vec::new();
    put(&mut entries, "role", Json::text("user"));
    match content {
        Some(Json::Array(parts)) => {
            let ghost views = array_view(parts@);
            let mut converted: Vec<Json> = Vec::new();
            proof {
                assert(array_view(converted@) == user_parts(views.take(0)));
            }
            for i in 0..parts.len()
                invariant
                    views == array_view(parts@),
                    array_view(converted@) == user_parts(views.take(i as int)),
            {
                proof {
                    assert(views.take(i + 1).drop_last() == views.take(i as int));
                }
                match convert_user_part(&parts[i]) {
                    Some(part) => {
                        proof {
                            lemma_array_push(converted@, part);
                        }
                        converted.push(part);
                    },
                    None => {},
                }
            }
            proof {
                assert(views.take(parts@.len() as int) == views);
            }
            put(&mut entries, "content", Json::Array(converted));
        },
        _ => {
            put(&mut entries, "content", Json::Text(content_text(content)));
        },
    }
    Json::Object(entries)
}

// ---------------------------------------------------------------------------
// Messages
// ---------------------------------------------------------------------------

/// The input item of one tool call of an assistant message.
pub open spec fn call_item(call: JsonView) -> JsonView {
    let function = member(call, "function"@);
    JsonView::Object(
        map![
            "type"@ => JsonView::Text("function_call"@),
            "call_id"@ => JsonView::Text(or_else(text_at(call, "id"@), ""@)),
            "name"@ => JsonView::Text(or_else(as_text(member_of(function, "name"@)), ""@)),
            "arguments"@ => JsonView::Text(or_else(as_text(member_of(function, "arguments"@)), "{}"@)),
        ],
    )
}

fn convert_call(call: &Json) -> (r: Json)
    ensures
        r.view() == call_item(call.view()),
{
    let function = call.get("function");
    let name = match function {
        Some(function) => function.text_or("name", ""),
        None => "",
    };
    let arguments = match function {
        Some(function) => function.text_or("arguments", "{}"),
        None => "{}",
    };
    let mut entries: Vec<(String, Json)> = Vec::new();
    put(&mut entries, "type", Json::text("function_call"));
    put(&mut entries, "call_id", Json::text(call.text_or("id", "")));
    put(&mut entries, "name", Json::text(name));
    put(&mut entries, "arguments", Json::text(arguments));
    Json::Object(entries)
}

/// The input item that hands a tool's output back.
pub open spec fn tool_item(message: JsonView) -> JsonView {
    JsonView::Object(
        map![
            "type"@ => JsonView::Text("function_call_output"@),
            "call_id"@ => JsonView::Text(or_else(text_at(message, "tool_call_id"@), ""@)),
            "output"@ => JsonView::Text(content_chars(member(message, "content"@))),
        ],
    )
}

/// The input items of an assistant message: its tool calls, then its text.
pub open spec fn assistant_items(message: JsonView) -> Seq<JsonView> {
    let calls = match as_items(member(message, "tool_calls"@)) {
        Some(calls) => calls.map_values(|call: JsonView| call_item(call)),
        None => seq![],
    };
    let text = content_chars(member(message, "content"@));
    if text.len() == 0 {
        calls
    } else {
        calls.push(
            JsonView::Object(
                map![
                    "role"@ => JsonView::Text("assistant"@),
                    "content"@ => JsonView::Text(text),
                ],
            ),
        )
    }
}

/// The role of a message.
pub open spec fn role_of(message: JsonView) -> Seq<char> {
    or_else(text_at(message, "role"@), ""@)
}

/// Whether a message holds instructions rather than input.
pub open spec fn is_instruction(message: JsonView) -> bool {
    role_of(message) == "system"@ || role_of(message) == "developer"@
}

/// The input items of a message.
pub open spec fn message_items(message: JsonView) -> Seq<JsonView> {
    if is_instruction(message) {
        seq![]
    } else if role_of(message) == "tool"@ {
        seq![tool_item(message)]
    } else if role_of(message) == "assistant"@ {
        assistant_items(message)
    } else {
        seq![user_item(member(message, "content"@))]
    }
}

/// The input items of a conversation.
pub open spec fn input_items(messages: Seq<JsonView>) -> Seq<JsonView>
    decreases messages.len(),
{
    if messages.len() == 0 {
        seq![]
    } else {
        input_items(messages.drop_last()) + message_items(messages.last())
    }
}

/// The instructions of a conversation: the texts of the messages that hold them, those
/// without text left out, a blank line between one and the next.
pub open spec fn instruction_chars(messages: Seq<JsonView>) -> Seq<char>
    decreases messages.len(),
{
    if messages.len() == 0 {
        seq![]
    } else {
        let before = instruction_chars(messages.drop_last());
        let text = content_chars(member(messages.last(), "content"@));
        if !is_instruction(messages.last()) || text.len() == 0 {
            before
        } else if before.len() == 0 {
            text
        } else {
            before + "\n\n"@ + text
        }
    }
}

fn push_assistant(message: &Json, input: &mut Vec<Json>)
    ensures
        array_view(final(input)@) == array_view(old(input)@) + assistant_items(message.view()),
{
    let ghost start = array_view(input@);
    let ghost wanted = match as_items(member(message.view(), "tool_calls"@)) {
        Some(calls) => calls.map_values(|call: JsonView| call_item(call)),
        None => seq![],
    };
    match message.items_at("tool_calls") {
        Some(calls) => {
            let ghost views = array_view(calls@);
            proof {
                assert(start + wanted.take(0) == start);
            }
            for i in 0..calls.len()
                invariant
                    views == array_view(calls@),
                    wanted == views.map_values(|call: JsonView| call_item(call)),
                    array_view(input@) == start + wanted.take(i as int),
            {
                let item = convert_call(&calls[i]);
                proof {
                    lemma_array_push(input@, item);
                    assert(wanted.take(i + 1) == wanted.take(i as int).push(wanted[i as int]));
                    assert((start + wanted.take(i as int)).push(wanted[i as int]) == start
                        + wanted.take(i as int).push(wanted[i as int]));
                }
                input.push(item);
            }
            proof {
                assert(wanted.take(calls@.len() as int) == wanted);
            }
        },
        None => {
            proof {
                assert(start + wanted == start);
            }
        },
    }
    let text = content_text(message.get("content"));
    if !text.as_str().is_empty() {
        let mut entries: Vec<(String, Json)> = Vec::new();
        put(&mut entries, "role", Json::text("assistant"));
        put(&mut entries, "content", Json::Text(text));
        let item = Json::Object(entries);
        proof {
            lemma_array_push(input@, item);
            assert((start + wanted).push(item.view()) == start + wanted.push(item.view()));
        }
        input.push(item);
    }
}

/// Takes one message into the instructions and the input of a request.
fn push_message(message: &Json, instructions: &mut String, input: &mut Vec<Json>)
    ensures
        array_view(final(input)@) == array_view(old(input)@) + message_items(message.view()),
        final(instructions)@ == ({
            let text = content_chars(member(message.view(), "content"@));
            if !is_instruction(message.view()) || text.len() == 0 {
                old(instructions)@
            } else if old(instructions)@.len() == 0 {
                text
            } else {
                old(instructions)@ + "\n\n"@ + text
            }
        }),
{
    let ghost start = array_view(input@);
    let role = message.text_or("role", "");
    if text::same(role, "system") || text::same(role, "developer") {
        let text = content_text(message.get("content"));
        if !text.as_str().is_empty() {
            if !instructions.as_str().is_empty() {
                instructions.append("\n\n");
            }
            let ghost before = instructions@;
            instructions.append(text.as_str());
            proof {
                assert(before.len() == 0 ==> before + text@ == text@);
            }
        }
        proof {
            assert(start + seq![] == start);
        }
    } else if text::same(role, "tool") {
        let mut entries: Vec<(String, Json)> = Vec::new();
        put(&mut entries, "type", Json::text("function_call_output"));
        put(&mut entries, "call_id", Json::text(message.text_or("tool_call_id", "")));
        put(&mut entries, "output", Json::Text(content_text(message.get("content"))));
        let item = Json::Object(entries);
        proof {
            lemma_array_push(input@, item);
            assert(start.push(item.view()) == start + seq![item.view()]);
        }
        input.push(item);
    } else if text::same(role, "assistant") {
        push_assistant(message, input);
    } else {
        let item = user_input(message.get("content"));
        proof {
            lemma_array_push(input@, item);
            assert(start.push(item.view()) == start + seq![item.view()]);
        }
        input.push(item);
    }
}

// ---------------------------------------------------------------------------
// Tools and reasoning
// ---------------------------------------------------------------------------

/// The parameters of a tool that declares none.
pub open spec fn no_parameters() -> JsonView {
    JsonView::Object(
        map![
            "type"@ => JsonView::Text("object"@),
            "properties"@ => JsonView::Object(map![]),
        ],
    )
}

/// A tool in the Responses form; one without a function or a name does not carry over.
pub open spec fn tool_view(tool: JsonView) -> Option<JsonView> {
    match member(tool, "function"@) {
        Some(function) => match text_at(function, "name"@) {
            Some(name) => Some(
                JsonView::Object(
                    map![
                        "type"@ => JsonView::Text("function"@),
                        "name"@ => JsonView::Text(name),
                        "description"@ => JsonView::Text(or_else(text_at(function, "description"@), ""@)),
                        "parameters"@ => match member(function, "parameters"@) {
                            Some(parameters) => parameters,
                            None => no_parameters(),
                        },
                    ],
                ),
            ),
            None => None,
        },
        None => None,
    }
}

/// The tools that carry over.
pub open spec fn tool_views(tools: Seq<JsonView>) -> Seq<JsonView>
    decreases tools.len(),
{
    if tools.len() == 0 {
        seq![]
    } else {
        match tool_view(tools.last()) {
            Some(tool) => tool_views(tools.drop_last()).push(tool),
            None => tool_views(tools.drop_last()),
        }
    }
}

/// The tools of a request, if any carries over.
pub open spec fn request_tools(payload: JsonView) -> Option<Seq<JsonView>> {
    match as_items(member(payload, "tools"@)) {
        Some(tools) => if tool_views(tools).len() == 0 {
            None
        } else {
            Some(tool_views(tools))
        },
        None => None,
    }
}

fn convert_tool(tool: &Json) -> (r: Option<Json>)
    ensures
        opt_view(r) == tool_view(tool.view()),
{
    let function = match tool.get("function") {
        Some(function) => function,
        None => {
            return None;
        },
    };
    let name = match function.text_at("name") {
        Some(name) => name,
        None => {
            return None;
        },
    };
    let parameters = match function.get("parameters") {
        Some(parameters) => parameters.copy(),
        None => {
            let mut entries: Vec<(String, Json)> = Vec::new();
            put(&mut entries, "type", Json::text("object"));
            put(&mut entries, "properties", Json::Object(Vec::new()));
            Json::Object(entries)
        },
    };
    let mut entries: Vec<(String, Json)> = Vec::new();
    put(&mut entries, "type", Json::text("function"));
    put(&mut entries, "name", Json::text(name));
    put(&mut entries, "description", Json::text(function.text_or("description", "")));
    put(&mut entries, "parameters", parameters);
    Some(Json::Object(entries))
}

fn convert_tools(payload: &Json) -> (r: Option<Vec<Json>>)
    ensures
        r is Some <==> request_tools(payload.view()) is Some,
        r is Some ==> array_view(r->0@) == request_tools(payload.view())->0,
{
    let tools = match payload.items_at("tools") {
        Some(tools) => tools,
        None => {
            return None;
        },
    };
    let ghost views = array_view(tools@);
    let mut converted: Vec<Json> = Vec::new();
    proof {
        assert(array_view(converted@) == tool_views(views.take(0)));
    }
    for i in 0..tools.len()
        invariant
            views == array_view(tools@),
            array_view(converted@) == tool_views(views.take(i as int)),
    {
        proof {
            assert(views.take(i + 1).drop_last() == views.take(i as int));
        }
        match convert_tool(&tools[i]) {
            Some(tool) => {
                proof {
                    lemma_array_push(converted@, tool);
                }
                converted.push(tool);
            },
            None => {},
        }
    }
    proof {
        assert(views.take(tools@.len() as int) == views);
        assert(array_view(converted@).len() == converted@.len());
    }
    if converted.is_empty() {
        None
    } else {
        Some(converted)
    }
}

/// The reasoning settings of a request: the object that the payload holds, or one made of its
/// `reasoning_effort`. An effort of `none`, or a blank one, means to omit reasoning.
pub open spec fn request_reasoning(payload: JsonView) -> Option<JsonView> {
    match member(payload, "reasoning"@) {
        Some(JsonView::Object(settings)) => {
            let effort = text_at(JsonView::Object(settings), "effort"@);
            if effort is Some && (effort->0 == "none"@ || text::trimmed(effort->0).len() == 0) {
                None
            } else if settings == Map::<Seq<char>, JsonView>::empty() {
                None
            } else {
                Some(JsonView::Object(settings))
            }
        },
        _ => match text_at(payload, "reasoning_effort"@) {
            Some(effort) => {
                let effort = text::trimmed(effort);
                if effort.len() == 0 || effort == "none"@ {
                    None
                } else {
                    Some(JsonView::Object(map!["effort"@ => JsonView::Text(effort)]))
                }
            },
            None => None,
        },
    }
}

/// Keeps the reasoning object that the payload holds. An effort of `none` means that the caller
/// asked to omit reasoning, so summary and context go with it.
fn responses_reasoning(payload: &Json) -> (r: Option<Json>)
    ensures
        opt_view(r) == request_reasoning(payload.view()),
{
    let settings = payload.get("reasoning");
    match settings {
        Some(Json::Object(entries)) => {
            let object = settings.unwrap();
            match object.text_at("effort") {
                Some(effort) => {
                    if text::same(effort, "none") || text::trim(effort).is_empty() {
                        return None;
                    }
                },
                None => {},
            }
            if entries.is_empty() {
                return None;
            }
            proof {
                assert(object_view(entries@).contains_key(entries@.last().0@));
            }
            Some(object.copy())
        },
        _ => {
            let effort = match payload.text_at("reasoning_effort") {
                Some(effort) => text::trim(effort),
                None => {
                    return None;
                },
            };
            if effort.is_empty() || text::same(effort, "none") {
                return None;
            }
            let mut entries: Vec<(String, Json)> = Vec::new();
            put(&mut entries, "effort", Json::text(effort));
            Some(Json::Object(entries))
        },
    }
}

// ---------------------------------------------------------------------------
// The request
// ---------------------------------------------------------------------------

/// The messages of a payload.
pub open spec fn messages_of(payload: JsonView) -> Seq<JsonView> {
    match as_items(member(payload, "messages"@)) {
        Some(messages) => messages,
        None => seq![],
    }
}

/// The instructions that a request carries; empty where it carries none.
pub open spec fn request_instructions(payload: JsonView, codex: bool) -> Seq<char> {
    let instructions = instruction_chars(messages_of(payload));
    if codex && text::trimmed(instructions).len() == 0 {
        CODEX_DEFAULT_INSTRUCTIONS@
    } else {
        instructions
    }
}

/// The cap on the output that a payload asks for.
pub open spec fn output_cap(payload: JsonView) -> Option<JsonView> {
    match member(payload, "max_tokens"@) {
        Some(cap) => Some(cap),
        None => member(payload, "max_output_tokens"@),
    }
}

/// `members`, with `key` set where there is a value for it.
pub open spec fn with_member(
    members: Map<Seq<char>, JsonView>,
    key: Seq<char>,
    value: Option<JsonView>,
) -> Map<Seq<char>, JsonView> {
    match value {
        Some(v) => members.insert(key, v),
        None => members,
    }
}

/// The members of the Responses request for a chat-completions payload.
pub open spec fn request_members(payload: JsonView, codex: bool) -> Map<Seq<char>, JsonView> {
    let body = map![
        "model"@ => JsonView::Text(or_else(text_at(payload, "model"@), ""@)),
        "input"@ => JsonView::Array(input_items(messages_of(payload))),
        "stream"@ => JsonView::Bool(match as_truth(member(payload, "stream"@)) {
            Some(stream) => stream,
            None => true,
        }),
    ];
    let instructions = request_instructions(payload, codex);
    let body = with_member(
        body,
        "instructions"@,
        if instructions.len() == 0 {
            None
        } else {
            Some(JsonView::Text(instructions))
        },
    );
    let body = match request_tools(payload) {
        Some(tools) => body.insert("tools"@, JsonView::Array(tools)).insert(
            "tool_choice"@,
            JsonView::Text("auto"@),
        ).insert("parallel_tool_calls"@, JsonView::Bool(true)),
        None => body,
    };
    let body = with_member(
        body,
        "max_output_tokens"@,
        if codex {
            None
        } else {
            output_cap(payload)
        },
    );
    let body = with_member(body, "reasoning"@, request_reasoning(payload));
    if codex {
        body.insert("store"@, JsonView::Bool(false))
    } else {
        body
    }
}

/// Converts a chat-completions body into a Responses request. `codex` shapes the body for the
/// ChatGPT Codex backend: it requires `instructions` and `store: false`, and rejects
/// `max_output_tokens`.
pub fn openai_chat_to_responses(payload: &Json, codex: bool) -> (r: Json)
    ensures
        r.view() == JsonView::Object(request_members(payload.view(), codex)),
{
    let mut instructions = String::new();
    let mut input: Vec<Json> = Vec::new();
    let ghost messages = messages_of(payload.view());
    proof {
        assert(array_view(input@) == input_items(messages.take(0)));
        assert(instructions@ == instruction_chars(messages.take(0)));
    }
    match payload.items_at("messages") {
        Some(items) => {
            for i in 0..items.len()
                invariant
                    messages == array_view(items@),
                    array_view(input@) == input_items(messages.take(i as int)),
                    instructions@ == instruction_chars(messages.take(i as int)),
            {
                proof {
                    assert(messages.take(i + 1).drop_last() == messages.take(i as int));
                }
                push_message(&items[i], &mut instructions, &mut input);
            }
        },
        None => {},
    }
    proof {
        assert(messages.take(messages.len() as int) == messages);
    }
    let stream = match payload.get("stream") {
        Some(value) => match value.as_bool() {
            Some(stream) => stream,
            None => true,
        },
        None => true,
    };
    let mut body: Vec<(String, Json)> = Vec::new();
    put(&mut body, "model", Json::text(payload.text_or("model", "")));
    put(&mut body, "input", Json::Array(input));
    put(&mut body, "stream", Json::Bool(stream));
    if codex && text::trim(instructions.as_str()).is_empty() {
        instructions = CODEX_DEFAULT_INSTRUCTIONS.to_owned();
    }
    if !instructions.as_str().is_empty() {
        put(&mut body, "instructions", Json::Text(instructions));
    }
    match convert_tools(payload) {
        Some(tools) => {
            put(&mut body, "tools", Json::Array(tools));
            put(&mut body, "tool_choice", Json::text("auto"));
            put(&mut body, "parallel_tool_calls", Json::Bool(true));
        },
        None => {},
    }
    if !codex {
        let cap = match payload.get("max_tokens") {
            Some(cap) => Some(cap),
            None => payload.get("max_output_tokens"),
        };
        match cap {
            Some(cap) => {
                put(&mut body, "max_output_tokens", cap.copy());
            },
            None => {},
        }
    }
    match responses_reasoning(payload) {
        Some(reasoning) => {
            put(&mut body, "reasoning", reasoning);
        },
        None => {},
    }
    if codex {
        put(&mut body, "store", Json::Bool(false));
    }
    Json::Object(body)
}

// ---------------------------------------------------------------------------
// The reply
// ---------------------------------------------------------------------------

/// The texts in the output items, one after the other.
pub open spec fn joined_items(items: Seq<JsonView>) -> Seq<char>
    decreases items.len(),
{
    if items.len() == 0 {
        seq![]
    } else {
        joined_items(items.drop_last()) + match as_items(member(items.last(), "content"@)) {
            Some(parts) => joined_parts(parts),
            None => seq![],
        }
    }
}

/// The text of a Responses reply: its `output_text`, or the texts in its output items.
pub open spec fn reply_chars(body: JsonView) -> Seq<char> {
    match text_at(body, "output_text"@) {
        Some(text) => text,
        None => match as_items(member(body, "output"@)) {
            Some(items) => joined_items(items),
            None => seq![],
        },
    }
}

/// The text of a Responses reply.
pub fn responses_output_text(body: &Json) -> (r: String)
    ensures
        r@ == reply_chars(body.view()),
{
    match body.text_at("output_text") {
        Some(text) => {
            return text.to_owned();
        },
        None => {},
    }
    let mut out = String::new();
    let items = match body.items_at("output") {
        Some(items) => items,
        None => {
            return out;
        },
    };
    let ghost views = array_view(items@);
    for i in 0..items.len()
        invariant
            views == array_view(items@),
            out@ == joined_items(views.take(i as int)),
    {
        proof {
            assert(views.take(i + 1).drop_last() == views.take(i as int));
        }
        match items[i].get("content") {
            Some(content) => match content {
                Json::Array(_) => {
                    out.append(content_text(Some(content)).as_str());
                },
                _ => {},
            },
            None => {},
        }
    }
    proof {
        assert(views.take(items@.len() as int) == views);
    }
    out
}

// ---------------------------------------------------------------------------
// Laws
// ---------------------------------------------------------------------------

/// The keys of a request are different from each other.
proof fn lemma_request_keys()
    ensures
        "model"@ != "store"@,
        "input"@ != "store"@,
        "tools"@ != "store"@,
        "model"@.len() == 5 && "input"@.len() == 5 && "tools"@.len() == 5 && "store"@.len() == 5,
        "model"@ != "tools"@ && "input"@ != "tools"@ && "model"@ != "input"@,
        "stream"@.len() == 6,
        "reasoning"@.len() == 9,
        "tool_choice"@.len() == 11,
        "instructions"@.len() == 12,
        "max_output_tokens"@.len() == 17,
        "parallel_tool_calls"@.len() == 19,
{
    reveal_strlit("model");
    reveal_strlit("input");
    reveal_strlit("tools");
    reveal_strlit("store");
    reveal_strlit("stream");
    reveal_strlit("reasoning");
    reveal_strlit("tool_choice");
    reveal_strlit("instructions");
    reveal_strlit("max_output_tokens");
    reveal_strlit("parallel_tool_calls");
    assert("model"@[0] == 'm' && "input"@[0] == 'i' && "tools"@[0] == 't' && "store"@[0] == 's');
}

/// The instructions that stand in for missing ones are not blank.
proof fn lemma_default_instructions()
    ensures
        text::trimmed(CODEX_DEFAULT_INSTRUCTIONS@).len() > 0,
{
    reveal_strlit("You are a helpful assistant.");
    let s = CODEX_DEFAULT_INSTRUCTIONS@;
    assert(s[0] == 'Y' && s.last() == '.');
    assert(text::trimmed_start(s) == s);
    assert(text::trimmed_end(s) == s);
}

/// A Codex body always carries instructions that are not blank and `store: false`, and never a
/// cap on the output.
pub proof fn law_codex_body(payload: JsonView)
    ensures
        member(JsonView::Object(request_members(payload, true)), "instructions"@) == Some(
            JsonView::Text(request_instructions(payload, true)),
        ),
        text::trimmed(request_instructions(payload, true)).len() > 0,
        member(JsonView::Object(request_members(payload, true)), "store"@) == Some(
            JsonView::Bool(false),
        ),
        member(JsonView::Object(request_members(payload, true)), "max_output_tokens"@) is None,
{
    lemma_request_keys();
    lemma_default_instructions();
    text::lemma_trimmed_short(request_instructions(payload, true));
}

/// A body for another backend carries the conversation's own instructions or none, the cap that
/// the caller asked for or none, and no `store`.
pub proof fn law_other_body(payload: JsonView)
    ensures
        member(JsonView::Object(request_members(payload, false)), "instructions"@) == (
        if instruction_chars(messages_of(payload)).len() == 0 {
            None
        } else {
            Some(JsonView::Text(instruction_chars(messages_of(payload))))
        }),
        member(JsonView::Object(request_members(payload, false)), "max_output_tokens"@)
            == output_cap(payload),
        member(JsonView::Object(request_members(payload, false)), "store"@) is None,
{
    lemma_request_keys();
}

/// Tools come with the choice among them and with parallel calls; a body without tools has
/// neither.
pub proof fn law_tool_choice_follows_tools(payload: JsonView, codex: bool)
    ensures
        member(JsonView::Object(request_members(payload, codex)), "tools"@) == (match request_tools(
            payload,
        ) {
            Some(tools) => Some(JsonView::Array(tools)),
            None => None,
        }),
        member(JsonView::Object(request_members(payload, codex)), "tool_choice"@) == (
        match request_tools(payload) {
            Some(tools) => Some(JsonView::Text("auto"@)),
            None => None,
        }),
        member(JsonView::Object(request_members(payload, codex)), "parallel_tool_calls"@) == (
        match request_tools(payload) {
            Some(tools) => Some(JsonView::Bool(true)),
            None => None,
        }),
{
    lemma_request_keys();
}

/// Whether reasoning settings ask to leave reasoning out: they are empty, or their effort is
/// `none` or blank.
pub open spec fn omits_reasoning(settings: Map<Seq<char>, JsonView>) -> bool {
    let effort = text_at(JsonView::Object(settings), "effort"@);
    settings == Map::<Seq<char>, JsonView>::empty() || (effort is Some && (effort->0 == "none"@
        || text::trimmed(effort->0).len() == 0))
}

/// Reasoning settings are kept whole, or left out whole: an effort of `none` takes the summary
/// and the context with it.
pub proof fn law_reasoning_is_kept_or_omitted(
    payload: JsonView,
    settings: Map<Seq<char>, JsonView>,
    codex: bool,
)
    requires
        member(payload, "reasoning"@) == Some(JsonView::Object(settings)),
    ensures
        member(JsonView::Object(request_members(payload, codex)), "reasoning"@) == (
        if omits_reasoning(settings) {
            None
        } else {
            Some(JsonView::Object(settings))
        }),
{
    lemma_request_keys();
}

/// A longer conversation converts to a longer input: what came first converts to the same
/// items, in the same places.
pub proof fn law_input_grows(messages: Seq<JsonView>, more: Seq<JsonView>)
    ensures
        input_items(messages + more) == input_items(messages) + input_items(more),
    decreases more.len(),
{
    if more.len() == 0 {
        assert(messages + more =~= messages);
        assert(input_items(messages) + input_items(more) =~= input_items(messages));
    } else {
        assert((messages + more).drop_last() =~= messages + more.drop_last());
        law_input_grows(messages, more.drop_last());
        assert(input_items(messages) + (input_items(more.drop_last()) + message_items(more.last()))
            =~= (input_items(messages) + input_items(more.drop_last())) + message_items(
            more.last(),
        ));
    }
}

/// Messages that hold instructions never enter the input, and the others never enter the
/// instructions.
pub proof fn law_instructions_stay_apart(message: JsonView, before: Seq<JsonView>)
    ensures
        is_instruction(message) ==> input_items(before.push(message)) == input_items(before),
        !is_instruction(message) ==> instruction_chars(before.push(message)) == instruction_chars(
            before,
        ),
{
    assert(before.push(message).drop_last() =~= before);
    assert(input_items(before) + seq![] =~= input_items(before));
}

} // verus!
