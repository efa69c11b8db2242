use axum::http::{HeaderMap, HeaderValue};
use cc_switch_auth::json::JsonValue;
use cc_switch_auth::proxy_handlers::{
    chat_labels, claude_response_parts, claude_stream_headers, health_body_at, parse_upstream_body,
    filter_providers_for_model, forwards_response_header, health_check_body,
    is_vscode_copilot_request, model_matches_vscode_provider, pricing_model,
    provider_to_vscode_model, request_is_stream, request_model_of, resolve_chat_app_type,
    response_model_of, uses_responses_api, vscode_models_response, AppType, Provider,
    VscodeModelCapabilities, VscodeModelInfo,
};

fn s(v: &str) -> String {
    v.to_string()
}

fn obj(fields: Vec<(&str, JsonValue)>) -> JsonValue {
    JsonValue::Object(fields.into_iter().map(|(k, v)| (k.to_string(), v)).collect())
}

fn text(v: &str) -> JsonValue {
    JsonValue::String(v.to_string())
}

fn num(v: &str) -> JsonValue {
    JsonValue::Number(v.to_string())
}

fn model(id: &str, name: &str, family: &str, version: &str, input: u64, output: u64, tooltip: &str, image: bool, tools: bool, provider_id: &str) -> VscodeModelInfo {
    VscodeModelInfo {
        id: s(id),
        name: s(name),
        family: s(family),
        version: s(version),
        max_input_tokens: input,
        max_output_tokens: output,
        tooltip: s(tooltip),
        capabilities: VscodeModelCapabilities { image_input: image, tool_calling: tools },
        provider_id: s(provider_id),
    }
}

#[test]
fn provider_to_vscode_model_applies_defaults() {
    let provider = Provider::with_id(
        "copilot-provider".to_string(),
        "My Model".to_string(),
        obj(vec![
            ("id", text("")),
            ("name", text("")),
            ("family", text("")),
            ("base_url", text("https://example.com/v1")),
        ]),
        None,
    );
    // What the settings parse to as a model description: the absent fields
    // take their defaults.
    let parsed = model("", "", "", "1.0.0", 128_000, 8_192, "", false, true, "");

    let model = provider_to_vscode_model(&provider, Some(&parsed)).expect("model should be generated");
    assert_eq!(model.id, "copilot-provider");
    assert_eq!(model.name, "My Model");
    assert_eq!(model.family, "custom");
    assert_eq!(model.version, "1.0.0");
    assert_eq!(model.max_input_tokens, 128_000);
    assert_eq!(model.max_output_tokens, 8_192);
    assert_eq!(model.tooltip, "My Model via CC Switch");
    assert!(model.capabilities.tool_calling);
    assert_eq!(model.provider_id, "copilot-provider");
}

#[test]
fn provider_to_vscode_model_uses_explicit_settings() {
    let provider = Provider::with_id(
        "provider-1".to_string(),
        "Ignored Name".to_string(),
        obj(vec![
            ("id", text("gpt-4o")),
            ("name", text("GPT-4o")),
            ("family", text("openai")),
            ("version", text("4o")),
            ("maxInputTokens", num("999")),
            ("maxOutputTokens", num("111")),
            ("tooltip", text("Custom tooltip")),
            ("capabilities", obj(vec![("imageInput", JsonValue::Bool(true)), ("toolCalling", JsonValue::Bool(false))])),
            ("base_url", text("https://api.openai.com/v1")),
        ]),
        None,
    );
    let parsed = model("gpt-4o", "GPT-4o", "openai", "4o", 999, 111, "Custom tooltip", true, false, "");

    let model = provider_to_vscode_model(&provider, Some(&parsed)).expect("model should be generated");
    assert_eq!(model.id, "gpt-4o");
    assert_eq!(model.name, "GPT-4o");
    assert_eq!(model.family, "openai");
    assert_eq!(model.version, "4o");
    assert_eq!(model.max_input_tokens, 999);
    assert_eq!(model.max_output_tokens, 111);
    assert_eq!(model.tooltip, "Custom tooltip");
    assert!(model.capabilities.image_input);
    assert!(!model.capabilities.tool_calling);
    assert_eq!(model.provider_id, "provider-1");
}

#[test]
fn detects_vscode_copilot_header() {
    let mut headers = HeaderMap::new();
    headers.insert("x-cc-switch-app", HeaderValue::from_static("vscode-copilot"));
    assert!(is_vscode_copilot_request(headers.get("x-cc-switch-app").map(|v| v.as_bytes())));
}

#[test]
fn model_match_uses_settings_config_id() {
    let provider = Provider::with_id(
        "provider-1".to_string(),
        "Model A".to_string(),
        obj(vec![("id", text("model-a"))]),
        None,
    );

    assert!(model_matches_vscode_provider(&provider, "model-a"));
    assert!(!model_matches_vscode_provider(&provider, "model-b"));
}

#[test]
fn header_check_ignores_ascii_case_and_rejects_others() {
    assert!(is_vscode_copilot_request(Some(b"VSCode-Copilot")));
    assert!(!is_vscode_copilot_request(Some(b"vscode-copilot2")));
    assert!(!is_vscode_copilot_request(Some(b"codex")));
    assert!(!is_vscode_copilot_request(None));
    assert!(!is_vscode_copilot_request(Some(b"vscode-copilot\x01")));
}

#[test]
fn unparsed_settings_fall_back_to_provider() {
    let mut provider = Provider::with_id(s("p"), s("Name"), JsonValue::Null, None);
    let m = provider_to_vscode_model(&provider, None).unwrap();
    assert_eq!(m.id, "p");
    assert_eq!(m.name, "Name");
    assert_eq!(m.family, "custom");
    assert_eq!(m.tooltip, "Name");
    assert_eq!(m.version, "1.0.0");
    assert!(!m.capabilities.image_input);
    provider.category = Some(s("cat"));
    assert_eq!(provider_to_vscode_model(&provider, None).unwrap().family, "cat");
}

#[test]
fn model_without_id_or_name_is_not_offered() {
    let provider = Provider::with_id(s("  "), s("Name"), JsonValue::Null, None);
    assert!(provider_to_vscode_model(&provider, None).is_none());
    let provider = Provider::with_id(s("p"), s(""), JsonValue::Null, None);
    let parsed = model("id", " ", "f", "1", 1, 1, "t", false, true, "");
    assert!(provider_to_vscode_model(&provider, Some(&parsed)).is_none());
}

fn copilot_provider(id: &str, model_id: &str) -> (String, Provider) {
    (s(id), Provider::with_id(s(id), s(&format!("Name {id}")), obj(vec![("id", text(model_id))]), None))
}

#[test]
fn chat_app_type_resolution() {
    let providers = vec![copilot_provider("p1", "model-a"), copilot_provider("p2", "model-b")];
    let body_a = obj(vec![("model", text("model-a"))]);
    let body_b = obj(vec![("model", text("model-b"))]);
    let body_none = obj(vec![("stream", JsonValue::Bool(true))]);
    assert_eq!(resolve_chat_app_type(Some(b"vscode-copilot"), &body_none, None, None), AppType::VscodeCopilot);
    assert_eq!(resolve_chat_app_type(None, &body_none, Some(&providers), None), AppType::Codex);
    assert_eq!(resolve_chat_app_type(None, &body_a, Some(&providers), None), AppType::VscodeCopilot);
    assert_eq!(resolve_chat_app_type(None, &body_a, None, None), AppType::Codex);
    assert_eq!(resolve_chat_app_type(None, &body_b, Some(&providers), Some(vec![s("p1")])), AppType::Codex);
    assert_eq!(resolve_chat_app_type(None, &body_b, Some(&providers), Some(vec![s("p2")])), AppType::VscodeCopilot);
    assert_eq!(resolve_chat_app_type(None, &obj(vec![("model", text("zzz"))]), Some(&providers), None), AppType::Codex);
}

#[test]
fn models_listing_follows_enabled_order() {
    let providers = vec![copilot_provider("p1", "model-a"), copilot_provider("p2", "model-b"), (s("p3"), Provider::with_id(s(""), s(""), JsonValue::Null, None))];
    let parsed = vec![Some(model("model-a", "A", "f", "1", 1, 2, "", false, true, "")), None, None];
    let all = vscode_models_response(&providers, &parsed, None);
    assert_eq!(all.object, "list");
    let ids: Vec<&str> = all.data.iter().map(|m| m.id.as_str()).collect();
    assert_eq!(ids, vec!["model-a", "p2"]);
    assert_eq!(all.data[0].tooltip, "A via CC Switch");
    let some = vscode_models_response(&providers, &parsed, Some(vec![s("p2"), s("missing"), s("p1")]));
    let ids: Vec<&str> = some.data.iter().map(|m| m.provider_id.as_str()).collect();
    assert_eq!(ids, vec!["p2", "p1"]);
}

#[test]
fn providers_filtered_by_model() {
    let ps = vec![copilot_provider("p1", "m").1, copilot_provider("p2", "n").1, copilot_provider("p3", "m").1];
    let kept: Vec<String> = filter_providers_for_model(ps, "m").into_iter().map(|p| p.id).collect();
    assert_eq!(kept, vec![s("p1"), s("p3")]);
}

#[test]
fn request_fields() {
    let body = obj(vec![("model", text("gpt")), ("stream", JsonValue::Bool(true))]);
    assert_eq!(request_model_of(&body), "gpt");
    assert!(request_is_stream(&body));
    let body = obj(vec![("stream", text("true"))]);
    assert_eq!(request_model_of(&body), "");
    assert!(!request_is_stream(&body));
    assert_eq!(response_model_of(&obj(vec![])), "unknown");
    assert_eq!(response_model_of(&obj(vec![("model", text("answer-model"))])), "answer-model");
}

#[test]
fn labels_pricing_and_formats() {
    assert_eq!(chat_labels(AppType::VscodeCopilot), ("VSCode Copilot", "vscode-copilot"));
    assert_eq!(chat_labels(AppType::Codex), ("Codex", "codex"));
    assert_eq!(chat_labels(AppType::Gemini), ("Codex", "codex"));
    assert_eq!(pricing_model("request", "req", "resp"), "req");
    assert_eq!(pricing_model("response", "req", "resp"), "resp");
    assert!(uses_responses_api("openai_responses"));
    assert!(!uses_responses_api("openai_chat"));
}

#[test]
fn response_headers_forwarded() {
    assert!(!forwards_response_header("Content-Length"));
    assert!(!forwards_response_header("transfer-encoding"));
    assert!(!forwards_response_header("TRANSFER-ENCODING"));
    assert!(forwards_response_header("content-type"));
    assert!(forwards_response_header("x-request-id"));
}

#[test]
fn health_body_has_status_and_time() {
    match health_check_body() {
        JsonValue::Object(fields) => {
            assert_eq!(fields.len(), 2);
            assert_eq!(fields[0].0, "status");
            assert!(matches!(&fields[0].1, JsonValue::String(v) if v == "healthy"));
            assert_eq!(fields[1].0, "timestamp");
            match &fields[1].1 {
                JsonValue::String(v) => {
                    assert!(chrono::DateTime::parse_from_rfc3339(v).is_ok(), "{v}");
                    assert!(v.ends_with("+00:00"), "{v}");
                }
                other => panic!("unexpected {other:?}"),
            }
        }
        other => panic!("unexpected {other:?}"),
    }
}

#[test]
fn health_body_holds_the_given_time() {
    match health_body_at(s("2024-01-02T03:04:05+00:00")) {
        JsonValue::Object(fields) => {
            assert_eq!(fields.len(), 2);
            assert_eq!(fields[0].0, "status");
            assert!(matches!(&fields[0].1, JsonValue::String(v) if v == "healthy"));
            assert_eq!(fields[1].0, "timestamp");
            assert!(matches!(&fields[1].1, JsonValue::String(v) if v == "2024-01-02T03:04:05+00:00"));
        }
        other => panic!("unexpected {other:?}"),
    }
}

#[test]
fn upstream_body_is_parsed_or_named_as_the_failure() {
    let v = parse_upstream_body(br#"{"model":"m","n":1}"#).unwrap();
    assert_eq!(response_model_of(&v), "m");
    let e = parse_upstream_body(b"not json").unwrap_err();
    assert!(e.starts_with("Failed to parse upstream response: "), "{e}");
    assert!(e.len() > "Failed to parse upstream response: ".len());
}

#[test]
fn converted_response_keeps_status_and_passes_headers_on() {
    let upstream = vec![
        (s("x-request-id"), b"abc".to_vec()),
        (s("Content-Length"), b"10".to_vec()),
        (s("content-type"), b"text/plain".to_vec()),
        (s("Transfer-Encoding"), b"chunked".to_vec()),
        (s("x-other"), vec![0xff, 0x20]),
    ];
    let (status, headers) = claude_response_parts(201, &upstream);
    assert_eq!(status, 201);
    assert_eq!(
        headers,
        vec![
            (s("x-request-id"), b"abc".to_vec()),
            (s("content-type"), b"text/plain".to_vec()),
            (s("x-other"), vec![0xff, 0x20]),
            (s("content-type"), b"application/json".to_vec()),
        ]
    );
}

#[test]
fn streamed_response_headers_are_event_stream() {
    assert_eq!(
        claude_stream_headers(),
        vec![
            (s("Content-Type"), s("text/event-stream")),
            (s("Cache-Control"), s("no-cache")),
            (s("Connection"), s("keep-alive")),
        ]
    );
}
