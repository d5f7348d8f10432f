use gopher_codex::catalog::{codex_catalog_models, local_codex_models, read_codex_default_model, CODEX_BASE};
use gopher_codex::json::Json;
use gopher_codex::providers::{ApiStyle, RemoteModelOption};

fn listed(source: &str) -> Vec<RemoteModelOption> {
    codex_catalog_models(&Json::parse(source).unwrap())
}

fn names(models: &[RemoteModelOption]) -> Vec<&str> {
    models.iter().map(|model| model.model.as_str()).collect()
}

#[test]
fn codex_catalog_advertises_only_shared_reasoning_efforts() {
    let body = Json::parse(
        "{
            \"models\": [
                {
                    \"slug\": \"gpt-6-luna\",
                    \"priority\": 1,
                    \"visibility\": \"list\",
                    \"use_responses_lite\": true,
                    \"supported_reasoning_levels\": [
                        { \"effort\": \"low\" },
                        { \"effort\": \"Medium\" },
                        { \"effort\": \"high\" },
                        { \"effort\": \"xhigh\" },
                        { \"effort\": \"max\" },
                        { \"effort\": \"ultra\" },
                        { \"effort\": \"low\" }
                    ]
                },
                {
                    \"slug\": \"hidden-model\",
                    \"visibility\": \"hidden\",
                    \"supported_reasoning_levels\": [{ \"effort\": \"low\" }]
                },
                {
                    \"slug\": \"gpt-6-luna\",
                    \"priority\": 9,
                    \"supported_reasoning_levels\": [{ \"effort\": \"low\" }]
                },
                {
                    \"slug\": \"gpt-5.5\",
                    \"priority\": 2,
                    \"use_responses_lite\": false,
                    \"supports_reasoning_summary_parameter\": false,
                    \"supported_reasoning_levels\": [{ \"effort\": \"high\" }]
                },
                { \"slug\": \"plain\", \"priority\": 3 },
                {
                    \"slug\": \"ultra-only\",
                    \"priority\": 4,
                    \"supported_reasoning_levels\": [
                        { \"effort\": \"xhigh\" },
                        { \"effort\": \"ultra\" }
                    ]
                }
            ]
        }",
    )
    .unwrap();
    let models = codex_catalog_models(&body);
    let names: Vec<_> = models.iter().map(|model| model.model.as_str()).collect();
    assert_eq!(names, ["gpt-6-luna", "gpt-5.5", "plain", "ultra-only"]);

    let luna = &models[0];
    assert!(luna.thinking_supported);
    assert_eq!(luna.thinking_control.as_deref(), Some("reasoning"));
    assert_eq!(luna.thinking_efforts, ["low", "medium", "high", "max"]);
    assert!(!luna.thinking_can_disable);
    assert_eq!(luna.reasoning_summary.as_deref(), Some("detailed"));
    assert_eq!(luna.reasoning_context.as_deref(), Some("all_turns"));

    let classic = &models[1];
    assert_eq!(classic.thinking_efforts, ["high"]);
    assert!(classic.reasoning_summary.is_none());
    assert!(classic.reasoning_context.is_none());

    assert!(!models[2].thinking_supported);
    assert!(models[2].thinking_control.is_none());
    assert!(models[2].thinking_efforts.is_empty());
    assert!(models[2].reasoning_summary.is_none());
    assert!(!models[3].thinking_supported);
}

#[test]
fn listings_are_ordered_by_priority_and_name() {
    let models = listed(
        "{\"models\":[{\"slug\":\"z\",\"priority\":2},{\"slug\":\"b\",\"priority\":1},{\"slug\":\"a\",\"priority\":1},{\"slug\":\"last\"},{\"slug\":\"first\",\"priority\":-5},{\"slug\":\" \"},{\"priority\":1},{\"slug\":\" pad \",\"priority\":3}]}",
    );
    assert_eq!(names(&models), ["first", "a", "b", "z", "pad", "last"]);
    assert!(listed("{\"models\":5}").is_empty());
    assert!(listed("null").is_empty());
}

#[test]
fn options_are_exact() {
    let models = listed("{\"models\":[{\"slug\":\"m\",\"supported_reasoning_levels\":[{\"effort\":\" HIGH \"}]}]}");
    let option = &models[0];
    assert_eq!(option.id, format!("remote|{CODEX_BASE}|m"));
    assert_eq!((option.base.as_str(), option.port, option.ready), (CODEX_BASE, 443, true));
    assert_eq!(option.label, "m");
    assert_eq!(option.thinking_efforts, ["high"]);
    assert_eq!(option.request_style, ApiStyle::Responses);
    assert!(!option.attachments_supported && !option.prompt_progress_supported);
    assert!(option.context_length.is_none() && option.connect_kind.is_none());
    assert!(option.provider_id.is_empty() && option.provider_name.is_empty());
}

#[test]
fn recorded_models_put_the_default_first() {
    let cache = "{\"models\":[{\"slug\":\"a\",\"priority\":1},{\"slug\":\"b\",\"priority\":2}]}";
    assert_eq!(names(&local_codex_models(Some(cache), None)), ["a", "b"]);
    assert_eq!(names(&local_codex_models(Some(cache), Some("model = \"b\""))), ["b", "a"]);
    assert_eq!(names(&local_codex_models(Some(cache), Some("model = \" new \""))), ["new", "a", "b"]);
    assert_eq!(names(&local_codex_models(None, Some("model = \"only\""))), ["only"]);
    assert!(local_codex_models(None, None).is_empty());
    assert!(local_codex_models(Some("{"), Some("model = ")).is_empty());
}

#[test]
fn default_models_are_read_from_toml() {
    assert_eq!(read_codex_default_model("# c\nmodel = 'gpt'\n[x]\nmodel = 'y'"), Some("gpt".to_string()));
    assert_eq!(read_codex_default_model("[x]\nmodel = 'y'"), None);
    assert_eq!(read_codex_default_model("model = 5"), None);
    assert_eq!(read_codex_default_model("model = '  '"), None);
    assert_eq!(read_codex_default_model("model = "), None);
}
