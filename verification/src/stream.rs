//! The stream of a Responses request, turned line by line into chat-completion chunks.

use vstd::prelude::*;
use vstd::string::{StrSliceExecFns, StringExecFns};
use vstd::utf8::encode_utf8;
use crate::json::{array_view, as_text, json_parse, json_text, member, member_of, or_else, put, ref_view, text_at, Json, JsonView, Numeral};
use crate::responses::lemma_array_push;
use crate::text;

verus! {

/// What a stream has told so far.
#[verifier::ext_equal]
pub struct StreamState {
    /// The name that the last `event:` line gave.
    pub event: Seq<char>,
    /// The item id and the call id of each function call, in stream order.
    pub tools: Seq<(Seq<char>, Seq<char>)>,
}

/// Turns the lines of a Responses stream into chat-completion frames.
pub struct ResponsesSseTranslator {
    event: String,
    /// `(item id, call id)` per function call, in stream order.
    tools: Vec<(String, String)>,
}

impl View for ResponsesSseTranslator {
    type V = StreamState;

    closed spec fn view(&self) -> StreamState {
        StreamState { event: self.event@, tools: self.tools.deep_view() }
    }
}

impl Default for ResponsesSseTranslator {
    fn default() -> (r: Self)
        ensures
            r@ == (StreamState { event: seq![], tools: seq![] }),
    {
        let r = ResponsesSseTranslator { event: String::new(), tools: Vec::new() };
        proof {
            assert(r.tools.deep_view() =~= seq![]);
        }
        r
    }
}

// ---------------------------------------------------------------------------
// Chunks
// ---------------------------------------------------------------------------

/// A chat-completion chunk with one choice that carries `delta`.
pub open spec fn chunk(delta: JsonView) -> JsonView {
    JsonView::Object(
        map![
            "choices"@ => JsonView::Array(seq![
                JsonView::Object(
                    map![
                        "index"@ => JsonView::Number(Numeral::Unsigned(0)),
                        "delta"@ => delta,
                    ],
                ),
            ]),
        ],
    )
}

/// A delta that carries one tool call.
pub open spec fn tool_delta(call: JsonView) -> JsonView {
    JsonView::Object(map!["tool_calls"@ => JsonView::Array(seq![call])])
}

/// A one-item array holds that item.
proof fn lemma_array_one(item: Json)
    ensures
        array_view(seq![item]) == seq![item.view()],
{
    assert(array_view(seq![item]) =~= seq![item.view()]);
}

/// A one-item array.
fn array_of(item: Json) -> (r: Json)
    ensures
        r.view() == JsonView::Array(seq![item.view()]),
{
    let ghost kept = item;
    let mut items: Vec<Json> = Vec::new();
    items.push(item);
    proof {
        assert(items@ =~= seq![kept]);
        lemma_array_one(kept);
    }
    Json::Array(items)
}

fn make_chunk(delta: Json) -> (r: Json)
    ensures
        r.view() == chunk(delta.view()),
{
    let mut choice: Vec<(String, Json)> = Vec::new();
    put(&mut choice, "index", Json::unsigned(0));
    put(&mut choice, "delta", delta);
    let mut entries: Vec<(String, Json)> = Vec::new();
    put(&mut entries, "choices", array_of(Json::Object(choice)));
    Json::Object(entries)
}

fn make_tool_chunk(call: Json) -> (r: Json)
    ensures
        r.view() == chunk(tool_delta(call.view())),
{
    let mut delta: Vec<(String, Json)> = Vec::new();
    put(&mut delta, "tool_calls", array_of(call));
    make_chunk(Json::Object(delta))
}

/// The chunks for a piece of text under `key`: one, or none where the piece is empty or missing.
pub open spec fn text_chunks(key: Seq<char>, delta: Option<JsonView>) -> Seq<JsonView> {
    match as_text(delta) {
        Some(text) => if text.len() == 0 {
            seq![]
        } else {
            seq![chunk(JsonView::Object(map![key => JsonView::Text(text)]))]
        },
        None => seq![],
    }
}

fn delta_text(key: &str, delta: Option<&Json>) -> (r: Vec<Json>)
    ensures
        array_view(r@) == text_chunks(key@, ref_view(delta)),
{
    let mut out: Vec<Json> = Vec::new();
    proof {
        assert(array_view(out@) =~= seq![]);
    }
    let text = match delta {
        Some(value) => value.as_str(),
        None => None,
    };
    match text {
        Some(text) => {
            if !text.is_empty() {
                let mut entries: Vec<(String, Json)> = Vec::new();
                put(&mut entries, key, Json::text(text));
                let item = make_chunk(Json::Object(entries));
                proof {
                    lemma_array_push(out@, item);
                }
                out.push(item);
            }
        },
        None => {},
    }
    out
}

fn delta_content(delta: Option<&Json>) -> (r: Vec<Json>)
    ensures
        array_view(r@) == text_chunks("content"@, ref_view(delta)),
{
    delta_text("content", delta)
}

fn delta_reasoning(delta: Option<&Json>) -> (r: Vec<Json>)
    ensures
        array_view(r@) == text_chunks("reasoning_content"@, ref_view(delta)),
{
    delta_text("reasoning_content", delta)
}

// ---------------------------------------------------------------------------
// Errors
// ---------------------------------------------------------------------------

/// What the provider says went wrong, wherever the event holds it.
pub open spec fn provider_message(value: JsonView) -> Option<JsonView> {
    match member_of(member_of(member(value, "response"@), "error"@), "message"@) {
        Some(message) => Some(message),
        None => match member_of(member(value, "error"@), "message"@) {
            Some(message) => Some(message),
            None => member(value, "message"@),
        },
    }
}

/// The message reported for a failed response.
pub open spec fn failure_message(value: JsonView) -> Seq<char> {
    let given = match as_text(provider_message(value)) {
        Some(message) => text::trimmed(message),
        None => seq![],
    };
    let message = if given.len() == 0 {
        "The model service reported an error."@
    } else {
        given
    };
    "The model service reported an error: "@ + text::printable_prefix(message, 400)
}

fn find_message(value: &Json) -> (r: Option<&Json>)
    ensures
        ref_view(r) == provider_message(value.view()),
{
    match value.get("response") {
        Some(response) => match response.get("error") {
            Some(error) => match error.get("message") {
                Some(message) => {
                    return Some(message);
                },
                None => {},
            },
            None => {},
        },
        None => {},
    }
    match value.get("error") {
        Some(error) => match error.get("message") {
            Some(message) => {
                return Some(message);
            },
            None => {},
        },
        None => {},
    }
    value.get("message")
}

fn stream_error_message(value: &Json) -> (r: String)
    ensures
        r@ == failure_message(value.view()),
{
    let given = match find_message(value) {
        Some(message) => match message.as_str() {
            Some(message) => text::trim(message),
            None => "",
        },
        None => "",
    };
    proof {
        reveal_strlit("");
    }
    let message = if given.is_empty() {
        "The model service reported an error."
    } else {
        given
    };
    let mut out = "The model service reported an error: ".to_owned();
    out.append(text::printable(message, 400).as_str());
    out
}

// ---------------------------------------------------------------------------
// Events
// ---------------------------------------------------------------------------

/// Whether a call goes by the id `id`.
pub open spec fn call_has_id(call: (Seq<char>, Seq<char>), id: Seq<char>) -> bool {
    id.len() > 0 && (call.0 == id || call.1 == id)
}

/// The number of the first call that goes by `id`, or of the last call where none does; zero
/// before any call.
pub open spec fn call_index(tools: Seq<(Seq<char>, Seq<char>)>, id: Seq<char>) -> nat
    decreases tools.len(),
{
    if tools.len() == 0 {
        0
    } else if exists|i: int| 0 <= i < tools.len() && call_has_id(#[trigger] tools[i], id) {
        first_call(tools, id)
    } else {
        (tools.len() - 1) as nat
    }
}

/// The number of the first call that goes by `id`, or the number of calls where none does.
pub open spec fn first_call(tools: Seq<(Seq<char>, Seq<char>)>, id: Seq<char>) -> nat
    decreases tools.len(),
{
    if tools.len() == 0 || call_has_id(tools[0], id) {
        0
    } else {
        1 + first_call(tools.drop_first(), id)
    }
}

/// The item id and the call id of the function call that an added item starts, if it starts one.
pub open spec fn started_call(item: Option<JsonView>) -> Option<(Seq<char>, Seq<char>)> {
    match item {
        Some(item) => if text_at(item, "type"@) == Some("function_call"@) {
            let item_id = or_else(text_at(item, "id"@), ""@);
            Some((item_id, or_else(text_at(item, "call_id"@), item_id)))
        } else {
            None
        },
        None => None,
    }
}

/// The chunk that opens tool call number `index`.
pub open spec fn opening_chunk(index: nat, id: Seq<char>, name: Seq<char>) -> JsonView {
    chunk(
        tool_delta(
            JsonView::Object(
                map![
                    "index"@ => JsonView::Number(Numeral::Unsigned(index as u64)),
                    "id"@ => JsonView::Text(id),
                    "type"@ => JsonView::Text("function"@),
                    "function"@ => JsonView::Object(
                        map![
                            "name"@ => JsonView::Text(name),
                            "arguments"@ => JsonView::Text(""@),
                        ],
                    ),
                ],
            ),
        ),
    )
}

/// The chunk that adds to the arguments of tool call number `index`.
pub open spec fn arguments_chunk(index: nat, delta: Seq<char>) -> JsonView {
    chunk(
        tool_delta(
            JsonView::Object(
                map![
                    "index"@ => JsonView::Number(Numeral::Unsigned(index as u64)),
                    "function"@ => JsonView::Object(map!["arguments"@ => JsonView::Text(delta)]),
                ],
            ),
        ),
    )
}

/// The id by which an arguments event names its call.
pub open spec fn named_call(value: JsonView) -> Seq<char> {
    let id = match member(value, "item_id"@) {
        Some(id) => Some(id),
        None => member(value, "call_id"@),
    };
    or_else(as_text(id), ""@)
}

/// The chunks for an arguments event.
pub open spec fn arguments_chunks(
    tools: Seq<(Seq<char>, Seq<char>)>,
    value: JsonView,
) -> Seq<JsonView> {
    let delta = or_else(text_at(value, "delta"@), ""@);
    if delta.len() == 0 {
        seq![]
    } else {
        seq![arguments_chunk(call_index(tools, named_call(value)), delta)]
    }
}

/// The kind of an event: its `type`, or the name that the last `event:` line gave.
pub open spec fn event_kind(state: StreamState, value: JsonView) -> Seq<char> {
    or_else(text_at(value, "type"@), state.event)
}

/// Whether an event reports a failure.
pub open spec fn is_failure(state: StreamState, value: JsonView) -> bool {
    event_kind(state, value) == "response.failed"@ || event_kind(state, value) == "error"@
}

/// The state after an event.
pub open spec fn after_event(state: StreamState, value: JsonView) -> StreamState {
    if event_kind(state, value) == "response.output_item.added"@ && !is_failure(state, value) {
        match started_call(member(value, "item"@)) {
            Some(call) => StreamState { event: state.event, tools: state.tools.push(call) },
            None => state,
        }
    } else {
        state
    }
}

/// The chunks for an event, or the message of the failure that it reports.
pub open spec fn event_chunks(state: StreamState, value: JsonView) -> Result<Seq<JsonView>, Seq<char>> {
    let kind = event_kind(state, value);
    if is_failure(state, value) {
        Err(failure_message(value))
    } else if kind == "response.output_text.delta"@ {
        Ok(text_chunks("content"@, member(value, "delta"@)))
    } else if kind == "response.reasoning_summary_text.delta"@ || kind
        == "response.reasoning_text.delta"@ {
        Ok(text_chunks("reasoning_content"@, member(value, "delta"@)))
    } else if kind == "response.output_item.added"@ {
        match started_call(member(value, "item"@)) {
            Some(call) => Ok(
                seq![
                    opening_chunk(
                        state.tools.len(),
                        call.1,
                        or_else(as_text(member_of(member(value, "item"@), "name"@)), ""@),
                    ),
                ],
            ),
            None => Ok(seq![]),
        }
    } else if kind == "response.function_call_arguments.delta"@ {
        Ok(arguments_chunks(state.tools, value))
    } else {
        Ok(seq![])
    }
}

/// The first call by an id is the one that no earlier call shares it with.
pub proof fn lemma_first_call(tools: Seq<(Seq<char>, Seq<char>)>, id: Seq<char>, k: int)
    requires
        0 <= k < tools.len(),
        call_has_id(tools[k], id),
        forall|i: int| 0 <= i < k ==> !call_has_id(#[trigger] tools[i], id),
    ensures
        first_call(tools, id) == k,
    decreases tools.len(),
{
    if k > 0 {
        let rest = tools.drop_first();
        assert forall|i: int| 0 <= i < k - 1 implies !call_has_id(#[trigger] rest[i], id) by {
            assert(rest[i] == tools[i + 1]);
        }
        assert(rest[k - 1] == tools[k]);
        assert(!call_has_id(tools[0], id));
        lemma_first_call(rest, id, k - 1);
    }
}

impl ResponsesSseTranslator {
    /// Whether there is a number left for one more function call.
    pub fn has_room(&self) -> (r: bool)
        ensures
            r == (self@.tools.len() < u32::MAX),
    {
        proof {
            assert(self.tools.deep_view().len() == self.tools@.len());
        }
        self.tools.len() < u32::MAX as usize
    }

    fn tool_started(&mut self, item: Option<&Json>) -> (r: Vec<Json>)
        requires
            old(self)@.tools.len() < u32::MAX,
        ensures
            final(self)@ == (match started_call(ref_view(item)) {
                Some(call) => StreamState {
                    event: old(self)@.event,
                    tools: old(self)@.tools.push(call),
                },
                None => old(self)@,
            }),
            array_view(r@) == (match started_call(ref_view(item)) {
                Some(call) => seq![
                    opening_chunk(
                        old(self)@.tools.len(),
                        call.1,
                        or_else(as_text(member_of(ref_view(item), "name"@)), ""@),
                    ),
                ],
                None => seq![],
            }),
    {
        let mut out: Vec<Json> = Vec::new();
        proof {
            assert(array_view(out@) =~= seq![]);
        }
        let item = match item {
            Some(item) => item,
            None => {
                return out;
            },
        };
        match item.text_at("type") {
            Some(kind) => {
                if !text::same(kind, "function_call") {
                    return out;
                }
            },
            None => {
                return out;
            },
        }
        let name = item.text_or("name", "");
        let item_id = item.text_or("id", "");
        let id = item.text_or("call_id", item_id);
        let index: usize = self.tools.len();
        let ghost before = self.tools.deep_view();
        self.tools.push((item_id.to_owned(), id.to_owned()));
        proof {
            assert(self.tools.deep_view() =~= before.push((item_id@, id@)));
        }
        let mut function: Vec<(String, Json)> = Vec::new();
        put(&mut function, "name", Json::text(name));
        put(&mut function, "arguments", Json::text(""));
        let mut call: Vec<(String, Json)> = Vec::new();
        put(&mut call, "index", Json::unsigned(index as u64));
        put(&mut call, "id", Json::text(id));
        put(&mut call, "type", Json::text("function"));
        put(&mut call, "function", Json::Object(function));
        let frame = make_tool_chunk(Json::Object(call));
        proof {
            lemma_array_push(out@, frame);
        }
        out.push(frame);
        out
    }

    /// The number of the call that goes by `id`.
    fn index_of_call(&self, id: &str) -> (r: usize)
        ensures
            r == call_index(self@.tools, id@),
    {
        let mut i: usize = 0;
        let some = !id.is_empty();
        proof {
            assert(self.tools.deep_view().len() == self.tools@.len());
        }
        while i < self.tools.len()
            invariant
                some == (id@.len() > 0),
                i <= self.tools@.len(),
                self@.tools == self.tools.deep_view(),
                self.tools.deep_view().len() == self.tools@.len(),
                forall|j: int| 0 <= j < i ==> !call_has_id(#[trigger] self@.tools[j], id@),
            decreases self.tools@.len() - i,
        {
            proof {
                assert(self@.tools[i as int] == (self.tools@[i as int].0@, self.tools@[i as int].1@));
            }
            if some && (text::same(self.tools[i].0.as_str(), id) || text::same(
                self.tools[i].1.as_str(),
                id,
            )) {
                proof {
                    assert(call_has_id(self@.tools[i as int], id@));
                    lemma_first_call(self@.tools, id@, i as int);
                }
                return i;
            }
            i += 1;
        }
        if self.tools.len() == 0 {
            0
        } else {
            self.tools.len() - 1
        }
    }

    fn tool_arguments(&self, value: &Json) -> (r: Vec<Json>)
        ensures
            array_view(r@) == arguments_chunks(self@.tools, value.view()),
    {
        let mut out: Vec<Json> = Vec::new();
        proof {
            assert(array_view(out@) =~= seq![]);
        }
        let delta = value.text_or("delta", "");
        if delta.is_empty() {
            return out;
        }
        let named = match value.get("item_id") {
            Some(id) => Some(id),
            None => value.get("call_id"),
        };
        let id = match named {
            Some(id) => match id.as_str() {
                Some(id) => id,
                None => "",
            },
            None => "",
        };
        let index: usize = self.index_of_call(id);
        let mut function: Vec<(String, Json)> = Vec::new();
        put(&mut function, "arguments", Json::text(delta));
        let mut call: Vec<(String, Json)> = Vec::new();
        put(&mut call, "index", Json::unsigned(index as u64));
        put(&mut call, "function", Json::Object(function));
        let frame = make_tool_chunk(Json::Object(call));
        proof {
            lemma_array_push(out@, frame);
        }
        out.push(frame);
        out
    }

    /// Translates one event into the chunks that it stands for. A failure comes back as its
    /// message.
    pub fn push_event(&mut self, value: &Json) -> (r: Result<Vec<Json>, String>)
        requires
            old(self)@.tools.len() < u32::MAX,
        ensures
            final(self)@ == after_event(old(self)@, value.view()),
            match r {
                Ok(chunks) => event_chunks(old(self)@, value.view()) == Ok::<_, Seq<char>>(
                    array_view(chunks@),
                ),
                Err(message) => event_chunks(old(self)@, value.view()) == Err::<Seq<JsonView>, _>(
                    message@,
                ),
            },
    {
        let named = value.text_at("type");
        let kind: String = match named {
            Some(kind) => kind.to_owned(),
            None => self.event.clone(),
        };
        let kind = kind.as_str();
        if text::same(kind, "response.failed") || text::same(kind, "error") {
            return Err(stream_error_message(value));
        }
        let chunks = if text::same(kind, "response.output_text.delta") {
            proof {
                reveal_strlit("response.output_text.delta");
                reveal_strlit("response.output_item.added");
                assert("response.output_text.delta"@[16] != "response.output_item.added"@[16]);
            }
            delta_content(value.get("delta"))
        } else if text::same(kind, "response.reasoning_summary_text.delta") || text::same(
            kind,
            "response.reasoning_text.delta",
        ) {
            proof {
                reveal_strlit("response.reasoning_summary_text.delta");
                reveal_strlit("response.reasoning_text.delta");
                reveal_strlit("response.output_item.added");
                assert(kind@.len() != "response.output_item.added"@.len());
            }
            delta_reasoning(value.get("delta"))
        } else if text::same(kind, "response.output_item.added") {
            self.tool_started(value.get("item"))
        } else if text::same(kind, "response.function_call_arguments.delta") {
            self.tool_arguments(value)
        } else {
            let none: Vec<Json> = Vec::new();
            proof {
                assert(array_view(none@) =~= seq![]);
            }
            none
        };
        Ok(chunks)
    }
}

// ---------------------------------------------------------------------------
// Lines
// ---------------------------------------------------------------------------

/// What a line of the stream says.
pub enum LineView {
    /// It names the event that follows.
    Name(Seq<char>),
    /// It ends the stream.
    Done,
    /// It carries an event.
    Data(Seq<char>),
    /// It says nothing.
    Nothing,
}

/// What a line of the stream says.
pub open spec fn line_view(line: Seq<char>) -> LineView {
    let line = text::without_trailing(line, '\r');
    match text::after_prefix(line, "event:"@) {
        Some(name) => LineView::Name(text::trimmed(name)),
        None => match text::after_prefix(line, "data:"@) {
            Some(data) => {
                let data = text::trimmed(data);
                if data.len() == 0 || data == "[DONE]"@ {
                    LineView::Done
                } else {
                    LineView::Data(data)
                }
            },
            None => LineView::Nothing,
        },
    }
}

/// The frame that carries `payload`.
pub open spec fn frame_of(payload: Seq<char>) -> Seq<u8> {
    encode_utf8("data: "@ + payload + "\n\n"@)
}

/// Whether bytes are one complete frame: a payload without line breaks, then a blank line.
pub open spec fn is_frame(bytes: Seq<u8>) -> bool {
    exists|payload: Seq<char>|
        bytes == #[trigger] frame_of(payload) && !payload.contains('\n') && !payload.contains('\r')
}

/// The frames of chunks.
pub open spec fn chunk_frames(chunks: Seq<JsonView>) -> Seq<Seq<u8>> {
    chunks.map_values(|chunk: JsonView| frame_of(json_text(chunk)))
}

/// What frames hold.
pub open spec fn frame_views(frames: Seq<Vec<u8>>) -> Seq<Seq<u8>> {
    frames.map_values(|frame: Vec<u8>| frame@)
}

/// The state after a line.
pub open spec fn after_line(state: StreamState, line: Seq<char>) -> StreamState {
    match line_view(line) {
        LineView::Name(name) => StreamState { event: name, tools: state.tools },
        LineView::Data(data) => match json_parse(data) {
            Some(value) => after_event(state, value),
            None => state,
        },
        _ => state,
    }
}

/// The frames for a line, or the message of the failure that it reports.
pub open spec fn line_frames(state: StreamState, line: Seq<char>) -> Result<Seq<Seq<u8>>, Seq<char>> {
    match line_view(line) {
        LineView::Done => Ok(seq![frame_of("[DONE]"@)]),
        LineView::Data(data) => match json_parse(data) {
            Some(value) => match event_chunks(state, value) {
                Ok(chunks) => Ok(chunk_frames(chunks)),
                Err(message) => Err(message),
            },
            None => Ok(seq![]),
        },
        _ => Ok(seq![]),
    }
}

/// The frame that carries a payload of one line.
fn make_frame(payload: &str) -> (r: Vec<u8>)
    requires
        !payload@.contains('\n'),
        !payload@.contains('\r'),
    ensures
        r@ == frame_of(payload@),
        is_frame(r@),
{
    let mut out = "data: ".to_owned();
    out.append(payload);
    out.append("\n\n");
    let frame = out.as_str().as_bytes_vec();
    proof {
        assert(frame@ == frame_of(payload@));
    }
    frame
}

/// The frames of chunks.
fn make_frames(chunks: &Vec<Json>) -> (r: Vec<Vec<u8>>)
    ensures
        frame_views(r@) == chunk_frames(array_view(chunks@)),
        forall|i: int| 0 <= i < r@.len() ==> is_frame(#[trigger] r@[i]@),
{
    let ghost views = array_view(chunks@);
    let mut out: Vec<Vec<u8>> = Vec::new();
    for i in 0..chunks.len()
        invariant
            views == array_view(chunks@),
            out@.len() == i,
            forall|j: int| 0 <= j < i ==> #[trigger] out@[j]@ == frame_of(json_text(views[j])),
            forall|j: int| 0 <= j < i ==> is_frame(#[trigger] out@[j]@),
    {
        let text = chunks[i].to_text();
        out.push(make_frame(text.as_str()));
    }
    proof {
        assert(frame_views(out@) =~= chunk_frames(views));
    }
    out
}

impl ResponsesSseTranslator {
    /// Translates one line of the stream into zero or more chat-completion frames. A failed
    /// response or an error event becomes `Err` with the provider's message. Every frame is
    /// complete in itself.
    pub fn push_line(&mut self, line: &str) -> (r: Result<Vec<Vec<u8>>, String>)
        requires
            old(self)@.tools.len() < u32::MAX,
        ensures
            final(self)@ == after_line(old(self)@, line@),
            match r {
                Ok(frames) => line_frames(old(self)@, line@) == Ok::<_, Seq<char>>(
                    frame_views(frames@),
                ),
                Err(message) => line_frames(old(self)@, line@) == Err::<Seq<Seq<u8>>, _>(message@),
            },
            r is Ok ==> forall|i: int| 0 <= i < r->Ok_0@.len() ==> is_frame(#[trigger] r->Ok_0@[i]@),
    {
        let line = text::trim_trailing(line, '\r');
        let mut none: Vec<Vec<u8>> = Vec::new();
        proof {
            assert(frame_views(none@) =~= seq![]);
            assert(chunk_frames(seq![]) =~= seq![]);
        }
        match text::strip_prefix(line, "event:") {
            Some(name) => {
                self.event = text::trim(name).to_owned();
                return Ok(none);
            },
            None => {},
        }
        let data = match text::strip_prefix(line, "data:") {
            Some(data) => text::trim(data),
            None => {
                return Ok(none);
            },
        };
        if data.is_empty() || text::same(data, "[DONE]") {
            proof {
                reveal_strlit("[DONE]");
            }
            let done = make_frame("[DONE]");
            none.push(done);
            proof {
                assert(frame_views(none@) =~= seq![done@]);
            }
            return Ok(none);
        }
        let value = match Json::parse(data) {
            Some(value) => value,
            None => {
                return Ok(none);
            },
        };
        match self.push_event(&value) {
            Ok(chunks) => Ok(make_frames(&chunks)),
            Err(message) => Err(message),
        }
    }
}

// ---------------------------------------------------------------------------
// Laws
// ---------------------------------------------------------------------------

/// The state after lines.
pub open spec fn after_lines(state: StreamState, lines: Seq<Seq<char>>) -> StreamState
    decreases lines.len(),
{
    if lines.len() == 0 {
        state
    } else {
        after_line(after_lines(state, lines.drop_last()), lines.last())
    }
}

/// A line never takes back or renumbers a call: the calls known before it stand where they
/// stood, and at most one is added.
pub proof fn law_calls_keep_their_numbers(state: StreamState, line: Seq<char>)
    ensures
        state.tools.is_prefix_of(after_line(state, line).tools),
        after_line(state, line).tools.len() <= state.tools.len() + 1,
{
    assert(state.tools.is_prefix_of(state.tools));
    match line_view(line) {
        LineView::Data(data) => match json_parse(data) {
            Some(value) => match started_call(member(value, "item"@)) {
                Some(call) => {
                    assert(state.tools.is_prefix_of(state.tools.push(call)));
                },
                None => {},
            },
            None => {},
        },
        _ => {},
    }
}

/// However many lines follow, the calls known before them stand where they stood.
pub proof fn law_calls_are_kept(state: StreamState, lines: Seq<Seq<char>>)
    ensures
        state.tools.is_prefix_of(after_lines(state, lines).tools),
    decreases lines.len(),
{
    if lines.len() > 0 {
        law_calls_are_kept(state, lines.drop_last());
        law_calls_keep_their_numbers(after_lines(state, lines.drop_last()), lines.last());
        let a = state.tools;
        let b = after_lines(state, lines.drop_last()).tools;
        let c = after_lines(state, lines).tools;
        assert(a =~= c.take(a.len() as int)) by {
            assert(a =~= b.take(a.len() as int));
            assert(b =~= c.take(b.len() as int));
        }
    } else {
        assert(state.tools =~= state.tools.take(state.tools.len() as int));
    }
}

/// Arguments reach the call that they name. An event that starts a call is given the number
/// that its chunk carries; whatever lines follow, an arguments event that names the call by an
/// id which no earlier call has is given the same number.
pub proof fn law_arguments_reach_their_call(
    state: StreamState,
    opening: JsonView,
    lines: Seq<Seq<char>>,
    value: JsonView,
)
    requires
        event_kind(state, opening) == "response.output_item.added"@,
        !is_failure(state, opening),
        started_call(member(opening, "item"@)) is Some,
        call_has_id(started_call(member(opening, "item"@))->0, named_call(value)),
        forall|i: int|
            0 <= i < state.tools.len() ==> !call_has_id(#[trigger] state.tools[i], named_call(value)),
    ensures
        event_chunks(state, opening) == Ok::<_, Seq<char>>(
            seq![
                opening_chunk(
                    state.tools.len(),
                    (started_call(member(opening, "item"@))->0).1,
                    or_else(as_text(member_of(member(opening, "item"@), "name"@)), ""@),
                ),
            ],
        ),
        call_index(after_lines(after_event(state, opening), lines).tools, named_call(value))
            == state.tools.len(),
{
    let started = after_event(state, opening);
    let id = named_call(value);
    let k = state.tools.len() as int;
    law_calls_are_kept(started, lines);
    let later = after_lines(started, lines).tools;
    assert(started.tools == state.tools.push(started_call(member(opening, "item"@))->0));
    assert forall|i: int| 0 <= i <= k implies later[i] == #[trigger] started.tools[i] by {
        assert(started.tools =~= later.take(started.tools.len() as int));
        assert(later.take(started.tools.len() as int)[i] == later[i]);
    }
    assert(later[k] == started.tools[k]);
    assert forall|i: int| 0 <= i < k implies !call_has_id(#[trigger] later[i], id) by {
        assert(later[i] == started.tools[i]);
        assert(started.tools[i] == state.tools[i]);
    }
    assert(call_has_id(later[k], id));
    lemma_first_call(later, id, k);
    reveal_strlit("response.output_text.delta");
    reveal_strlit("response.output_item.added");
    reveal_strlit("response.reasoning_summary_text.delta");
    reveal_strlit("response.reasoning_text.delta");
    assert("response.output_text.delta"@[16] != "response.output_item.added"@[16]);
    assert("response.output_item.added"@.len() == 26);
    assert("response.reasoning_summary_text.delta"@.len() == 37);
    assert("response.reasoning_text.delta"@.len() == 29);
}

/// The call that an event starts, if it starts one.
pub open spec fn event_call(state: StreamState, value: JsonView) -> Option<(Seq<char>, Seq<char>)> {
    if event_kind(state, value) == "response.output_item.added"@ && !is_failure(state, value) {
        started_call(member(value, "item"@))
    } else {
        None
    }
}

/// The call that a line starts, if it starts one.
pub open spec fn line_call(state: StreamState, line: Seq<char>) -> Option<(Seq<char>, Seq<char>)> {
    match line_view(line) {
        LineView::Data(data) => match json_parse(data) {
            Some(value) => event_call(state, value),
            None => None,
        },
        _ => None,
    }
}

/// The calls that lines start, in stream order.
pub open spec fn line_calls(state: StreamState, lines: Seq<Seq<char>>) -> Seq<
    (Seq<char>, Seq<char>),
>
    decreases lines.len(),
{
    if lines.len() == 0 {
        seq![]
    } else {
        let before = line_calls(state, lines.drop_last());
        match line_call(after_lines(state, lines.drop_last()), lines.last()) {
            Some(call) => before.push(call),
            None => before,
        }
    }
}

/// The calls known after lines are those known before them and those that the lines start, in
/// stream order.
pub proof fn law_calls_stand_in_stream_order(state: StreamState, lines: Seq<Seq<char>>)
    ensures
        after_lines(state, lines).tools == state.tools + line_calls(state, lines),
    decreases lines.len(),
{
    if lines.len() > 0 {
        law_calls_stand_in_stream_order(state, lines.drop_last());
        let before = line_calls(state, lines.drop_last());
        match line_call(after_lines(state, lines.drop_last()), lines.last()) {
            Some(call) => {
                assert((state.tools + before).push(call) =~= state.tools + before.push(call));
            },
            None => {},
        }
    } else {
        assert(state.tools + seq![] =~= state.tools);
    }
}

/// Whether `number` is the number of the call that goes by `id` among `calls`: the least where
/// there are such calls; the last call where there are none; zero where there are no calls.
pub open spec fn is_call_number(
    calls: Seq<(Seq<char>, Seq<char>)>,
    id: Seq<char>,
    number: nat,
) -> bool {
    if calls.len() == 0 {
        number == 0
    } else if exists|j: int| 0 <= j < calls.len() && call_has_id(#[trigger] calls[j], id) {
        &&& number < calls.len()
        &&& call_has_id(calls[number as int], id)
        &&& forall|j: int| 0 <= j < number ==> !call_has_id(#[trigger] calls[j], id)
    } else {
        number == calls.len() - 1
    }
}

/// The first call by an id goes by it, and no earlier one does.
pub proof fn lemma_first_call_least(tools: Seq<(Seq<char>, Seq<char>)>, id: Seq<char>, k: int)
    requires
        0 <= k < tools.len(),
        call_has_id(tools[k], id),
    ensures
        first_call(tools, id) <= k,
        call_has_id(tools[first_call(tools, id) as int], id),
        forall|j: int| 0 <= j < first_call(tools, id) ==> !call_has_id(#[trigger] tools[j], id),
    decreases tools.len(),
{
    if !call_has_id(tools[0], id) {
        let rest = tools.drop_first();
        assert(rest[k - 1] == tools[k]);
        lemma_first_call_least(rest, id, k - 1);
        assert(tools[first_call(tools, id) as int] == rest[first_call(rest, id) as int]);
        assert forall|j: int| 0 <= j < first_call(tools, id) implies !call_has_id(
            #[trigger] tools[j],
            id,
        ) by {
            if j > 0 {
                assert(rest[j - 1] == tools[j]);
            }
        }
    }
}

/// Arguments go to the first call that goes by the id that they name, or else to the last call,
/// or else to number zero, whatever lines came before and however many calls these started. The
/// state stays as it was.
pub proof fn law_arguments_go_to_the_first_match(
    event: Seq<char>,
    lines: Seq<Seq<char>>,
    value: JsonView,
    delta: Seq<char>,
)
    requires
        event_kind(
            after_lines(StreamState { event, tools: seq![] }, lines),
            value,
        ) == "response.function_call_arguments.delta"@,
        text_at(value, "delta"@) == Some(delta),
        delta.len() > 0,
    ensures
        ({
            let start = StreamState { event, tools: seq![] };
            let state = after_lines(start, lines);
            let calls = line_calls(start, lines);
            let number = call_index(calls, named_call(value));
            &&& is_call_number(calls, named_call(value), number)
            &&& event_chunks(state, value) == Ok::<_, Seq<char>>(
                seq![arguments_chunk(number, delta)],
            )
            &&& after_event(state, value) == state
        }),
{
    let start = StreamState { event, tools: seq![] };
    let state = after_lines(start, lines);
    let calls = line_calls(start, lines);
    let id = named_call(value);
    law_calls_stand_in_stream_order(start, lines);
    assert(start.tools + calls =~= calls);
    if exists|j: int| 0 <= j < calls.len() && call_has_id(#[trigger] calls[j], id) {
        let k = choose|j: int| 0 <= j < calls.len() && call_has_id(#[trigger] calls[j], id);
        lemma_first_call_least(calls, id, k);
    }
    reveal_strlit("response.function_call_arguments.delta");
    reveal_strlit("response.failed");
    reveal_strlit("error");
    reveal_strlit("response.output_text.delta");
    reveal_strlit("response.output_item.added");
    reveal_strlit("response.reasoning_summary_text.delta");
    reveal_strlit("response.reasoning_text.delta");
    assert("response.function_call_arguments.delta"@.len() == 38);
    assert("response.failed"@.len() == 15 && "error"@.len() == 5);
    assert("response.output_text.delta"@.len() == 26);
    assert("response.output_item.added"@.len() == 26);
    assert("response.reasoning_summary_text.delta"@.len() == 37);
    assert("response.reasoning_text.delta"@.len() == 29);
}

/// A failure leaves the state as it was.
pub proof fn law_failure_keeps_the_state(state: StreamState, value: JsonView)
    requires
        is_failure(state, value),
    ensures
        after_event(state, value) == state,
        event_chunks(state, value) == Err::<Seq<JsonView>, _>(failure_message(value)),
{
}

/// What a provider says of a failure reaches the caller as it is, if it is not blank, holds no
/// control character and is no longer than the limit.
pub proof fn law_provider_message_surfaces(value: JsonView, message: Seq<char>)
    requires
        as_text(provider_message(value)) == Some(message),
        0 < text::trimmed(message).len() <= 400,
        forall|i: int|
            0 <= i < text::trimmed(message).len() ==> !text::is_control(
                #[trigger] text::trimmed(message)[i],
            ),
    ensures
        failure_message(value) == "The model service reported an error: "@ + text::trimmed(message),
{
    text::lemma_printable_whole(text::trimmed(message), 400);
}

} // verus!
