use sidekick_core::config::Config;
use sidekick_core::provider::build_generate_body;
use sidekick_core::provider::build_prompt;
use sidekick_core::provider::generate_outcome;
use sidekick_core::provider::generate_url;
use sidekick_core::provider::plan_transform;
use sidekick_core::provider::route_provider;
use sidekick_core::provider::tags_outcome;
use sidekick_core::provider::tags_url;
use sidekick_core::provider::u16_dec;
use sidekick_core::provider::ListModelsError;
use sidekick_core::provider::Provider;
use sidekick_core::provider::TransformError;
use sidekick_core::provider::MODEL_LIST_TIMEOUT_MS;

#[test]
fn error_status_is_reported_with_the_status() {
    let r = generate_outcome(500, "");
    assert_eq!(r, Err(TransformError::Status(500)));
    assert_eq!(
        TransformError::Status(500).message(),
        "Ollama error: 500"
    );
}

#[test]
fn success_body_yields_the_response_text() {
    let r = generate_outcome(200, "{\"response\": \"ok\"}");
    assert_eq!(r, Ok("ok".to_string()));
}

#[test]
fn response_text_is_sanitized() {
    let r = generate_outcome(200, "{\"response\": \"Sure, here:\\nHello\"}");
    assert_eq!(r, Ok("Hello".to_string()));
}

#[test]
fn missing_response_field_is_a_format_error() {
    assert_eq!(generate_outcome(200, "{\"answer\": \"ok\"}"), Err(TransformError::Format));
    assert_eq!(generate_outcome(200, "not json"), Err(TransformError::Format));
    assert_eq!(generate_outcome(200, "{\"response\": 3}"), Err(TransformError::Format));
}

#[test]
fn tags_body_yields_the_model_names_in_order() {
    let body = "{\"models\":[{\"name\":\"llama3.1\"},{\"name\":\"phi3\"}]}";
    let r = tags_outcome(200, body);
    assert_eq!(r, Ok(vec!["llama3.1".to_string(), "phi3".to_string()]));
}

#[test]
fn tags_errors_are_reported_never_silently_empty() {
    assert_eq!(tags_outcome(404, "{}"), Err(ListModelsError::Status(404)));
    assert_eq!(
        ListModelsError::Status(404).message(),
        "Ollama API returned 404"
    );
    assert_eq!(tags_outcome(200, "{\"models\":[{\"label\":\"x\"}]}"), Err(ListModelsError::Parse));
    assert_eq!(tags_outcome(200, "garbage"), Err(ListModelsError::Parse));
    assert_eq!(ListModelsError::Connect.message(), "Failed to connect to Ollama");
}

#[test]
fn request_body_holds_model_prompt_and_no_streaming() {
    let body = build_generate_body("m", "a\nb \"q\"");
    assert_eq!(body, "{\"model\":\"m\",\"prompt\":\"a\\nb \\\"q\\\"\",\"stream\":false}");
    let parsed: serde_json::Value = serde_json::from_str(&body).unwrap();
    assert_eq!(parsed["model"], "m");
    assert_eq!(parsed["prompt"], "a\nb \"q\"");
    assert_eq!(parsed["stream"], false);
}

#[test]
fn prompt_joins_system_and_input() {
    assert_eq!(build_prompt("sys", "text"), "sys\n\nInput:\ntext");
}

#[test]
fn endpoints_hang_off_the_base_url() {
    assert_eq!(generate_url("http://localhost:11434"), "http://localhost:11434/api/generate");
    assert_eq!(tags_url("http://localhost:11434"), "http://localhost:11434/api/tags");
}

#[test]
fn provider_names_route_to_the_closed_set() {
    assert_eq!(route_provider("ollama"), Ok(Provider::Ollama));
    assert_eq!(route_provider("openai"), Ok(Provider::OpenAi));
    assert_eq!(route_provider("gemini"), Err(TransformError::UnknownProvider));
    assert_eq!(
        TransformError::UnknownProvider.message(),
        "Unknown LLM provider"
    );
}

#[test]
fn cloud_provider_fails_cleanly() {
    let mut config = Config::default();
    config.llm_provider = "openai".to_string();
    let r = plan_transform(&config, "sys", "in");
    assert!(matches!(r, Err(TransformError::NotSupported)));
    assert_eq!(
        TransformError::NotSupported.message(),
        "OpenAI support not yet verified. Please switch to Ollama."
    );
}

#[test]
fn local_provider_yields_the_request_to_send() {
    let config = Config::default();
    let q = plan_transform(&config, "sys", "in").unwrap();
    assert_eq!(q.url, "http://localhost:11434/api/generate");
    assert_eq!(
        q.body,
        "{\"model\":\"llama3.1\",\"prompt\":\"sys\\n\\nInput:\\nin\",\"stream\":false}"
    );
}

#[test]
fn unknown_provider_is_a_handled_error() {
    let mut config = Config::default();
    config.llm_provider = "cohere".to_string();
    assert!(matches!(plan_transform(&config, "s", "i"), Err(TransformError::UnknownProvider)));
}

#[test]
fn decimal_rendering_is_exact() {
    assert_eq!(u16_dec(0), "0");
    assert_eq!(u16_dec(7), "7");
    assert_eq!(u16_dec(500), "500");
    assert_eq!(u16_dec(65535), "65535");
}

#[test]
fn transport_error_carries_its_message() {
    assert_eq!(
        TransformError::Transport("connection refused".to_string()).message(),
        "Request failed: connection refused"
    );
    assert_eq!(TransformError::Format.message(), "Invalid response format");
}

#[test]
fn model_list_timeout_is_short() {
    assert_eq!(MODEL_LIST_TIMEOUT_MS, 2000);
}
