use gopher_codex::json::Json;
use gopher_codex::responses::{openai_chat_to_responses, responses_output_text, CODEX_DEFAULT_INSTRUCTIONS};
use gopher_codex::stream::ResponsesSseTranslator;

fn value(source: &str) -> Json {
    Json::parse(source).unwrap()
}

fn at<'a>(json: &'a Json, key: &str) -> &'a Json {
    json.get(key).unwrap()
}

fn item<'a>(json: &'a Json, index: usize) -> &'a Json {
    &json.as_array().unwrap()[index]
}

fn convert(chat: &str, codex: bool) -> String {
    openai_chat_to_responses(&value(chat), codex).to_text()
}

fn lines(translator: &mut ResponsesSseTranslator, line: &str) -> Vec<String> {
    translator
        .push_line(line)
        .unwrap()
        .into_iter()
        .map(|frame| String::from_utf8(frame).unwrap())
        .collect()
}

#[test]
fn converts_a_tool_turn_and_translates_the_stream() {
    let chat = value(
        "{
            \"model\": \"gpt-5.4\",
            \"stream\": true,
            \"messages\": [
                {\"role\": \"system\", \"content\": \"Be brief.\"},
                {\"role\": \"user\", \"content\": \"Read the file\"},
                {\"role\": \"assistant\", \"tool_calls\": [{
                    \"id\": \"call_1\",
                    \"type\": \"function\",
                    \"function\": {\"name\": \"read_file\", \"arguments\": \"{\\\"path\\\":\\\"a.txt\\\"}\"}
                }]},
                {\"role\": \"tool\", \"tool_call_id\": \"call_1\", \"content\": \"hello\"}
            ],
            \"tools\": [{
                \"type\": \"function\",
                \"function\": {
                    \"name\": \"read_file\",
                    \"description\": \"Read\",
                    \"parameters\": {\"type\": \"object\", \"properties\": {\"path\": {\"type\": \"string\"}}}
                }
            }]
        }",
    );
    let responses = openai_chat_to_responses(&chat, true);
    assert_eq!(at(&responses, "store").as_bool(), Some(false));
    assert_eq!(at(&responses, "instructions").as_str(), Some("Be brief."));
    assert_eq!(at(item(at(&responses, "tools"), 0), "name").as_str(), Some("read_file"));
    assert_eq!(at(item(at(&responses, "input"), 1), "type").as_str(), Some("function_call"));
    assert_eq!(at(item(at(&responses, "input"), 2), "type").as_str(), Some("function_call_output"));
    assert_eq!(
        at(item(at(&responses, "input"), 1), "arguments").as_str(),
        Some("{\"path\":\"a.txt\"}")
    );

    let mut translator = ResponsesSseTranslator::default();
    let started = translator
        .push_line(
            "data: {\"type\":\"response.output_item.added\",\"item\":{\"type\":\"function_call\",\"id\":\"fc_1\",\"call_id\":\"call_2\",\"name\":\"read_file\"}}",
        )
        .unwrap();
    assert!(String::from_utf8_lossy(&started[0]).contains("read_file"));
    let second = translator
        .push_line(
            "data: {\"type\":\"response.output_item.added\",\"item\":{\"type\":\"function_call\",\"id\":\"fc_2\",\"call_id\":\"call_3\",\"name\":\"list_dir\"}}",
        )
        .unwrap();
    assert!(String::from_utf8_lossy(&second[0]).contains("\"index\":1"));
    let args = translator
        .push_line(
            "data: {\"type\":\"response.function_call_arguments.delta\",\"item_id\":\"fc_1\",\"delta\":\"{\\\"path\\\"\"}",
        )
        .unwrap();
    let args = String::from_utf8_lossy(&args[0]);
    assert!(args.contains("arguments"));
    assert!(args.contains("\"index\":0"));
    let text = translator
        .push_line("data: {\"type\":\"response.output_text.delta\",\"delta\":\"done\"}")
        .unwrap();
    let frame = String::from_utf8_lossy(&text[0]);
    assert!(frame.contains("\"content\":\"done\""));
    assert!(frame.starts_with("data: "));
}

#[test]
fn codex_body_always_has_instructions_and_no_output_cap() {
    let chat = value(
        "{
            \"model\": \"gpt-5.4\",
            \"max_tokens\": 64,
            \"messages\": [{\"role\": \"user\", \"content\": \"hey\"}]
        }",
    );
    let codex = openai_chat_to_responses(&chat, true);
    assert_eq!(at(&codex, "instructions").as_str(), Some(CODEX_DEFAULT_INSTRUCTIONS));
    assert_eq!(at(&codex, "store").as_bool(), Some(false));
    assert!(codex.get("max_output_tokens").is_none());
    assert!(codex.get("tool_choice").is_none());

    let other = openai_chat_to_responses(&chat, false);
    assert!(other.get("instructions").is_none());
    assert_eq!(at(&other, "max_output_tokens").as_u64(), Some(64));
}

#[test]
fn codex_reasoning_keeps_summary_and_context() {
    let chat = value(
        "{
            \"model\": \"gpt-5.6-sol\",
            \"messages\": [{\"role\": \"user\", \"content\": \"hey\"}],
            \"reasoning\": { \"effort\": \"high\", \"summary\": \"auto\", \"context\": \"all_turns\" }
        }",
    );
    let codex = openai_chat_to_responses(&chat, true);
    assert_eq!(
        at(&codex, "reasoning").to_text(),
        value("{ \"effort\": \"high\", \"summary\": \"auto\", \"context\": \"all_turns\" }").to_text()
    );

    let disabled = value(
        "{
            \"model\": \"gpt-5.6-sol\",
            \"messages\": [{\"role\": \"user\", \"content\": \"hey\"}],
            \"reasoning\": { \"effort\": \"none\", \"summary\": \"auto\", \"context\": \"all_turns\" }
        }",
    );
    let codex = openai_chat_to_responses(&disabled, true);
    assert!(codex.get("reasoning").is_none());
}

#[test]
fn failed_responses_surface_the_provider_message() {
    let mut translator = ResponsesSseTranslator::default();
    let failed = translator.push_line(
        "data: {\"type\":\"response.failed\",\"response\":{\"error\":{\"message\":\"Model not allowed\"}}}",
    );
    assert!(failed.unwrap_err().contains("Model not allowed"));
    let error = translator
        .push_line("data: {\"type\":\"error\",\"message\":\"Instructions are required\"}");
    assert!(error.unwrap_err().contains("Instructions are required"));
}

#[test]
fn whole_bodies_come_out_as_expected() {
    assert_eq!(
        convert("{\"model\":\"m\",\"messages\":[{\"role\":\"user\",\"content\":\"hey\"}]}", false),
        "{\"input\":[{\"content\":\"hey\",\"role\":\"user\"}],\"model\":\"m\",\"stream\":true}"
    );
    assert_eq!(
        convert("{}", true),
        "{\"input\":[],\"instructions\":\"You are a helpful assistant.\",\"model\":\"\",\"store\":false,\"stream\":true}"
    );
    assert_eq!(convert("[]", false), "{\"input\":[],\"model\":\"\",\"stream\":true}");
    assert_eq!(
        convert("{\"stream\":false,\"max_output_tokens\":9.5}", false),
        "{\"input\":[],\"max_output_tokens\":9.5,\"model\":\"\",\"stream\":false}"
    );
    assert_eq!(
        convert("{\"max_tokens\":-3,\"max_output_tokens\":9}", false),
        "{\"input\":[],\"max_output_tokens\":-3,\"model\":\"\",\"stream\":true}"
    );
}

#[test]
fn instructions_are_joined_and_stay_apart() {
    let body = convert(
        "{\"messages\":[{\"role\":\"system\",\"content\":\"a\"},{\"role\":\"developer\",\"content\":[{\"text\":\"b\"},{\"text\":\"c\"},{\"image\":1}]},{\"role\":\"system\",\"content\":\"\"},{\"role\":\"user\",\"content\":\"u\"}]}",
        false,
    );
    assert_eq!(
        body,
        "{\"input\":[{\"content\":\"u\",\"role\":\"user\"}],\"instructions\":\"a\\n\\nbc\",\"model\":\"\",\"stream\":true}"
    );
    let blank = convert("{\"messages\":[{\"role\":\"system\",\"content\":\"  \"}]}", true);
    assert!(blank.contains("\"instructions\":\"You are a helpful assistant.\""));
    let kept = convert("{\"messages\":[{\"role\":\"system\",\"content\":\"  \"}]}", false);
    assert!(kept.contains("\"instructions\":\"  \""));
}

#[test]
fn user_parts_become_input_parts() {
    let body = convert(
        "{\"messages\":[{\"role\":\"user\",\"content\":[{\"type\":\"text\",\"text\":\"see\"},{\"type\":\"image_url\",\"image_url\":{\"url\":\"data:x\"}},{\"type\":\"image_url\",\"text\":\"lost\"},{\"type\":\"other\"}]},{\"role\":\"user\",\"content\":7}]}",
        false,
    );
    assert!(body.contains(
        "\"input\":[{\"content\":[{\"text\":\"see\",\"type\":\"input_text\"},{\"image_url\":\"data:x\",\"type\":\"input_image\"}],\"role\":\"user\"},{\"content\":\"\",\"role\":\"user\"}]"
    ));
}

#[test]
fn assistant_turns_keep_calls_before_text() {
    let body = convert(
        "{\"messages\":[{\"role\":\"assistant\",\"content\":\"done\",\"tool_calls\":[{\"id\":\"c\",\"function\":{\"name\":\"f\"}},{}]},{\"role\":\"tool\"}]}",
        false,
    );
    assert!(body.contains(
        "\"input\":[{\"arguments\":\"{}\",\"call_id\":\"c\",\"name\":\"f\",\"type\":\"function_call\"},{\"arguments\":\"{}\",\"call_id\":\"\",\"name\":\"\",\"type\":\"function_call\"},{\"content\":\"done\",\"role\":\"assistant\"},{\"call_id\":\"\",\"output\":\"\",\"type\":\"function_call_output\"}]"
    ));
}

#[test]
fn tools_without_a_name_are_left_out() {
    let none = convert("{\"tools\":[{\"function\":{}},{}]}", false);
    assert!(!none.contains("tools"));
    assert!(!none.contains("tool_choice"));
    let one = convert("{\"tools\":[{\"function\":{\"name\":\"f\"}},{}]}", false);
    assert!(one.contains(
        "\"parallel_tool_calls\":true,\"stream\":true,\"tool_choice\":\"auto\",\"tools\":[{\"description\":\"\",\"name\":\"f\",\"parameters\":{\"properties\":{},\"type\":\"object\"},\"type\":\"function\"}]"
    ));
}

#[test]
fn reasoning_effort_is_taken_or_left() {
    assert!(convert("{\"reasoning_effort\":\" low \"}", false).contains("\"reasoning\":{\"effort\":\"low\"}"));
    assert!(!convert("{\"reasoning_effort\":\"none\"}", false).contains("reasoning"));
    assert!(!convert("{\"reasoning_effort\":\"  \"}", false).contains("reasoning"));
    assert!(!convert("{\"reasoning\":{},\"reasoning_effort\":\"low\"}", false).contains("reasoning"));
    assert!(!convert("{\"reasoning\":{\"effort\":\" \"}}", false).contains("reasoning"));
    assert!(convert("{\"reasoning\":{\"summary\":\"auto\"}}", false).contains("\"reasoning\":{\"summary\":\"auto\"}"));
    assert!(convert("{\"reasoning\":5,\"reasoning_effort\":\"low\"}", false).contains("\"reasoning\":{\"effort\":\"low\"}"));
}

#[test]
fn output_text_is_read_in_both_shapes() {
    assert_eq!(responses_output_text(&value("{\"output_text\":\"a\",\"output\":[]}")), "a");
    assert_eq!(
        responses_output_text(&value(
            "{\"output\":[{\"content\":[{\"text\":\"a\"},{},{\"text\":\"b\"}]},{},{\"content\":[{\"text\":\"c\"}]}]}"
        )),
        "abc"
    );
    assert_eq!(responses_output_text(&value("{\"output\":5}")), "");
    assert_eq!(responses_output_text(&value("null")), "");
}

#[test]
fn stream_frames_are_exact() {
    let mut translator = ResponsesSseTranslator::default();
    assert!(translator.has_room());
    assert_eq!(lines(&mut translator, "data: [DONE]"), ["data: [DONE]\n\n"]);
    assert_eq!(lines(&mut translator, "data:\r"), ["data: [DONE]\n\n"]);
    assert_eq!(
        lines(&mut translator, "data: {\"type\":\"response.output_text.delta\",\"delta\":\"a\\nb\"}\r"),
        ["data: {\"choices\":[{\"delta\":{\"content\":\"a\\nb\"},\"index\":0}]}\n\n"]
    );
    assert_eq!(
        lines(&mut translator, "data: {\"type\":\"response.reasoning_text.delta\",\"delta\":\"t\"}"),
        ["data: {\"choices\":[{\"delta\":{\"reasoning_content\":\"t\"},\"index\":0}]}\n\n"]
    );
    assert_eq!(
        lines(&mut translator, "data: {\"type\":\"response.reasoning_summary_text.delta\",\"delta\":\"t\"}"),
        ["data: {\"choices\":[{\"delta\":{\"reasoning_content\":\"t\"},\"index\":0}]}\n\n"]
    );
    assert!(lines(&mut translator, "data: {\"type\":\"response.output_text.delta\",\"delta\":\"\"}").is_empty());
    assert!(lines(&mut translator, "data: not json").is_empty());
    assert!(lines(&mut translator, ": comment").is_empty());
    assert!(lines(&mut translator, "").is_empty());
}

#[test]
fn the_event_line_names_events_without_a_type() {
    let mut translator = ResponsesSseTranslator::default();
    assert!(lines(&mut translator, "event: response.output_text.delta").is_empty());
    assert_eq!(
        lines(&mut translator, "data: {\"delta\":\"x\"}"),
        ["data: {\"choices\":[{\"delta\":{\"content\":\"x\"},\"index\":0}]}\n\n"]
    );
    assert!(lines(&mut translator, "event: response.completed").is_empty());
    assert!(lines(&mut translator, "data: {\"delta\":\"x\"}").is_empty());
    assert!(lines(&mut translator, "event: error").is_empty());
    assert_eq!(
        translator.push_line("data: {}").unwrap_err(),
        "The model service reported an error: The model service reported an error."
    );
}

#[test]
fn arguments_reach_the_call_that_they_name() {
    let mut translator = ResponsesSseTranslator::default();
    let arguments = |id: &str| {
        format!("data: {{\"type\":\"response.function_call_arguments.delta\",{id}\"delta\":\"d\"}}")
    };
    let chunk = |index: u32| {
        format!(
            "data: {{\"choices\":[{{\"delta\":{{\"tool_calls\":[{{\"function\":{{\"arguments\":\"d\"}},\"index\":{index}}}]}},\"index\":0}}]}}\n\n"
        )
    };
    assert_eq!(lines(&mut translator, &arguments("")), [chunk(0)]);
    for (id, call) in [("i0", "c0"), ("i1", "c1"), ("i2", "c2")] {
        let started = lines(
            &mut translator,
            &format!("data: {{\"type\":\"response.output_item.added\",\"item\":{{\"type\":\"function_call\",\"id\":\"{id}\",\"call_id\":\"{call}\",\"name\":\"f\"}}}}"),
        );
        assert_eq!(started.len(), 1);
        assert!(started[0].contains(&format!("\"id\":\"{call}\"")));
    }
    assert!(lines(&mut translator, "data: {\"type\":\"response.output_item.added\",\"item\":{\"type\":\"message\"}}").is_empty());
    assert_eq!(lines(&mut translator, &arguments("\"item_id\":\"i1\",")), [chunk(1)]);
    assert_eq!(lines(&mut translator, &arguments("\"call_id\":\"c0\",")), [chunk(0)]);
    assert_eq!(lines(&mut translator, &arguments("\"item_id\":\"unknown\",")), [chunk(2)]);
    assert_eq!(lines(&mut translator, &arguments("")), [chunk(2)]);
}

#[test]
fn failure_messages_are_cleaned_and_cut() {
    let mut translator = ResponsesSseTranslator::default();
    let told = |message: &str| {
        let mut translator = ResponsesSseTranslator::default();
        translator
            .push_line(&format!("data: {{\"type\":\"error\",\"error\":{{\"message\":\"{message}\"}}}}"))
            .unwrap_err()
    };
    assert_eq!(told(" a\\tb\\nc "), "The model service reported an error: abc");
    assert_eq!(
        told(&"x".repeat(401)),
        format!("The model service reported an error: {}", "x".repeat(400))
    );
    assert_eq!(
        translator
            .push_line("data: {\"type\":\"response.failed\",\"response\":{\"error\":{\"message\":5}},\"message\":\"late\"}")
            .unwrap_err(),
        "The model service reported an error: The model service reported an error."
    );
}

#[test]
fn arguments_go_to_the_first_of_several_matches() {
    let mut translator = ResponsesSseTranslator::default();
    for (id, call) in [("a", "x"), ("b", "x"), ("x", "c"), ("", "")] {
        lines(
            &mut translator,
            &format!("data: {{\"type\":\"response.output_item.added\",\"item\":{{\"type\":\"function_call\",\"id\":\"{id}\",\"call_id\":\"{call}\"}}}}"),
        );
    }
    for (id, index) in [("x", 0), ("b", 1), ("c", 2), ("", 3), ("none", 3), ("a", 0)] {
        let frames = lines(
            &mut translator,
            &format!("data: {{\"type\":\"response.function_call_arguments.delta\",\"item_id\":\"{id}\",\"delta\":\"d\"}}"),
        );
        assert_eq!(
            frames,
            [format!("data: {{\"choices\":[{{\"delta\":{{\"tool_calls\":[{{\"function\":{{\"arguments\":\"d\"}},\"index\":{index}}}]}},\"index\":0}}]}}\n\n")]
        );
    }
    let number = lines(
        &mut translator,
        "data: {\"type\":\"response.function_call_arguments.delta\",\"item_id\":5,\"call_id\":\"x\",\"delta\":\"d\"}",
    );
    assert!(number[0].contains("\"index\":3"));
}
