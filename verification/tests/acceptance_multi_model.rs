//! Model registry, model errors and the OpenAI-compatible wire format.

use orchid::ai::backend::{
    client_build_error, completion_content, request_error, response_parse_error,
    response_read_error, sse_data_payloads, stream_chunk_text,
};
use orchid::ai::{ChatMessage, LlmError, ModelConfig, OpenAiCompatBackend, ProviderRegistry};
use orchid::api::models::{model_responses, static_health_response, health_response, accepted_response};

#[test]
fn model_list_reflects_provider_registry_configuration() {
    let mut registry = ProviderRegistry::new();

    let config1 = ModelConfig::new("ollama/llama3", "ollama", "http://localhost:11434");
    let config2 = ModelConfig::new("openai/gpt-4", "openai", "https://api.openai.com/v1");

    registry.register(config1);
    registry.register(config2);

    let models = registry.list_models();
    assert_eq!(models.len(), 2);

    assert_eq!(models[0].model_id, "ollama/llama3");
    assert_eq!(models[0].provider, "ollama");
    assert_eq!(models[0].api_base, "http://localhost:11434");

    assert_eq!(models[1].model_id, "openai/gpt-4");
    assert_eq!(models[1].provider, "openai");
    assert_eq!(models[1].api_base, "https://api.openai.com/v1");
}

#[test]
fn model_responses_name_models_by_id() {
    let mut registry = ProviderRegistry::default();
    registry.register(ModelConfig::new("gpt-4o", "openai", "http://x"));
    let listed = model_responses(&registry);
    assert_eq!(listed.len(), 1);
    assert_eq!(listed[0].provider_id, "openai");
    assert_eq!(listed[0].model_id, "gpt-4o");
    assert_eq!(listed[0].display_name, "gpt-4o");
}

#[test]
fn unknown_model_error_names_the_model() {
    let err = LlmError::unknown_model("unknown/model");
    assert_eq!(err, LlmError::UnknownModel("unknown/model".to_string()));
    assert_eq!(err.to_string(), "Model 'unknown/model' is not registered with any provider");
    assert_eq!(LlmError::Timeout.to_string(), "Request timed out");
    assert_eq!(LlmError::ApiError("x".to_string()).to_string(), "API error: x");
}

#[test]
fn requests_carry_the_full_history_and_credentials() {
    let backend = OpenAiCompatBackend::new("http://host:1".to_string(), "test-key".to_string(), 10);
    assert_eq!(backend.completions_url(), "http://host:1/v1/chat/completions");
    assert_eq!(backend.authorization(), "Bearer test-key");
    assert_eq!(backend.timeout(), 10);
    let messages = vec![
        ChatMessage::new("system", "You are a helpful assistant."),
        ChatMessage::new("user", "What is 2+2?"),
        ChatMessage::new("user", "And 3+3?"),
    ];
    let request = backend.completion_request("test-model", messages.clone(), false);
    assert_eq!(request.model, "test-model");
    assert_eq!(request.messages, messages);
    assert!(!request.stream);
}

#[test]
fn replies_and_failures_are_read_as_the_backend_reports_them() {
    assert_eq!(completion_content(Some("Test response".to_string())), Ok("Test response".to_string()));
    assert_eq!(
        completion_content(None),
        Err(LlmError::ApiError("No choices in response".to_string()))
    );
    assert_eq!(request_error(true, "slow"), LlmError::Timeout);
    assert_eq!(request_error(false, "refused"), LlmError::ApiError("HTTP request failed: refused".to_string()));
    assert_eq!(client_build_error("tls"), LlmError::ApiError("Failed to create HTTP client: tls".to_string()));
    assert_eq!(response_parse_error("eof"), LlmError::ApiError("Failed to parse response: eof".to_string()));
    assert_eq!(response_read_error("eof"), LlmError::ApiError("Failed to read response: eof".to_string()));
}

#[test]
fn event_stream_payloads_are_read_line_by_line() {
    let body = "data: {\"a\":1}\r\n\ndata: {\"b\":2}\n: comment\ndata: [DONE]\ndata: last";
    assert_eq!(sse_data_payloads(body), vec!["{\"a\":1}", "{\"b\":2}", "last"]);
    assert!(sse_data_payloads("").is_empty());
    assert!(sse_data_payloads("data: [DONE]\n").is_empty());
}

#[test]
fn stream_chunks_yield_text_skip_empty_and_report_errors() {
    assert_eq!(stream_chunk_text(Ok(Some("world".to_string()))), Some(Ok("world".to_string())));
    assert_eq!(stream_chunk_text(Ok(Some(String::new()))), None);
    assert_eq!(stream_chunk_text(Ok(None)), None);
    assert_eq!(
        stream_chunk_text(Err("bad json".to_string())),
        Some(Err(LlmError::ApiError("Failed to parse stream chunk: bad json".to_string())))
    );
}

#[test]
fn health_and_accepted_bodies() {
    let h = static_health_response();
    assert_eq!((h.status, h.service, h.database.as_str(), h.redis.as_str()), ("ok", "orchid-backend", "configured", "configured"));
    let h = health_response("in_memory".to_string(), "disabled".to_string());
    assert_eq!(h.database, "in_memory");
    assert_eq!(h.redis, "disabled");
    assert_eq!(accepted_response().status, "accepted");
}

#[test]
fn routes_pick_the_registered_backend_and_refuse_unknown_models() {
    let mut routes = orchid::ai::ModelRoutes::new();
    routes.register("gpt-4o".to_string(), 0);
    routes.register("llama".to_string(), 1);
    assert_eq!(routes.route("gpt-4o"), Ok(0));
    assert_eq!(routes.route("llama"), Ok(1));
    routes.register("gpt-4o".to_string(), 2);
    assert_eq!(routes.route("gpt-4o"), Ok(2));
    let err = routes.route("mistral").unwrap_err();
    assert_eq!(err, LlmError::UnknownModel("mistral".to_string()));
    assert_eq!(err.to_string(), "Model 'mistral' is not registered with any provider");
}

#[test]
fn configuration_registers_the_model_and_a_backend_only_with_a_key() {
    let mut config = orchid::config::AppConfig::from_settings(
        None, None, None, None, None, None, None,
        Some("local".to_string()), None, Some("hermes".to_string()), Some("http://llm:8080".to_string()),
    );
    let registry = orchid::ai::router::configured_registry(&config);
    let models = registry.list_models();
    assert_eq!(models.len(), 1);
    assert_eq!(models[0].model_id, "hermes");
    assert_eq!(models[0].provider, "local");
    assert_eq!(models[0].api_base, "http://llm:8080");
    assert!(orchid::ai::router::configured_backend(&config).is_none());
    config.ai_api_key = "sk-test".to_string();
    let (model, backend) = orchid::ai::router::configured_backend(&config).expect("a backend");
    assert_eq!(model, "hermes");
    assert_eq!(backend.completions_url(), "http://llm:8080/v1/chat/completions");
    assert_eq!(backend.authorization(), "Bearer sk-test");
    assert_eq!(backend.timeout(), 30);
}
