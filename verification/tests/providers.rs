use synod::{
    check_response_size, decode_completion, endpoint, environment_credential, error_detail,
    http_error, local_credential, missing_environment_variable, models_endpoint,
    parse_credential_reference, payload_defaults, select_models, validate_provider_endpoint,
    BaseResponse, ChatCompletion, CredentialSource, ModelEntry, ProviderAdapter, ProviderError,
    Vendor,
};

fn keys(names: &[&str]) -> Vec<String> {
    names.iter().map(|name| name.to_string()).collect()
}

fn entry(id: &str) -> ModelEntry {
    ModelEntry { id: id.to_owned(), owned_by: Some("vendor".to_owned()) }
}

#[test]
fn only_official_deepseek_and_minimax_hosts_are_allowed() {
    assert_eq!(
        endpoint("https://api.deepseek.com").unwrap().url.as_str(),
        "https://api.deepseek.com/chat/completions"
    );
    assert_eq!(
        endpoint("https://api.minimax.io/v1").unwrap().url.as_str(),
        "https://api.minimax.io/v1/chat/completions"
    );
    assert_eq!(endpoint("https://api.minimaxi.com/v1").unwrap().vendor, Vendor::MiniMax);
    assert!(endpoint("https://example.com/v1").is_err());
    assert!(endpoint("http://api.deepseek.com").is_err());
    assert!(endpoint("https://api.minimax.io/internal").is_err());
    assert!(
        validate_provider_endpoint(ProviderAdapter::AnthropicMessages, "https://api.deepseek.com")
            .is_err()
    );
    assert_eq!(
        models_endpoint("https://api.deepseek.com").unwrap().as_str(),
        "https://api.deepseek.com/models"
    );
    assert_eq!(
        models_endpoint("https://api.deepseek.com/v1").unwrap().as_str(),
        "https://api.deepseek.com/v1/models"
    );
    assert_eq!(
        models_endpoint("https://api.minimaxi.com/v1").unwrap().as_str(),
        "https://api.minimaxi.com/v1/models"
    );
}

#[test]
fn vendor_defaults_are_filtered_and_cannot_override_core_fields() {
    let present = keys(&["max_tokens", "max_completion_tokens", "model", "stream"]);
    let chosen = payload_defaults(Vendor::DeepSeek, &present);
    assert_eq!(chosen.keys, ["max_tokens"]);
    assert!(!chosen.keys.iter().any(|key| key == "model" || key == "stream"));
    assert!(!chosen.keys.iter().any(|key| key == "max_completion_tokens"));
    assert!(!chosen.add_reasoning_split);

    let chosen = payload_defaults(Vendor::MiniMax, &Vec::new());
    assert!(chosen.keys.is_empty());
    assert!(chosen.add_reasoning_split);
}

#[test]
fn common_response_shape_preserves_usage() {
    let response = decode_completion(ChatCompletion {
        id: Some("response-1".to_owned()),
        choices: vec![Some("Reviewed.".to_owned())],
        usage: r#"{"prompt_tokens":10,"completion_tokens":2}"#.to_owned(),
        base_resp: Some(BaseResponse { status_code: 0, status_msg: String::new() }),
    })
    .unwrap();
    assert_eq!(response.text, "Reviewed.");
    let usage: serde_json::Value = serde_json::from_str(&response.usage).unwrap();
    assert_eq!(usage["prompt_tokens"], 10);
    assert_eq!(response.provider_request_id.as_deref(), Some("response-1"));
}

#[test]
fn model_discovery_is_sorted_deduplicated_and_bounded() {
    let models = select_models(vec![entry("model-b"), entry("model-a"), entry("model-b"), entry("")])
        .unwrap();
    assert_eq!(
        models.iter().map(|model| model.id.as_str()).collect::<Vec<_>>(),
        ["model-a", "model-b"]
    );
    assert!(select_models(Vec::new()).is_err());
}

#[test]
fn minimax_business_error_in_successful_http_body_is_rejected() {
    let error = decode_completion(ChatCompletion {
        id: None,
        choices: Vec::new(),
        usage: "null".to_owned(),
        base_resp: Some(BaseResponse { status_code: 1002, status_msg: "rate limit".to_owned() }),
    })
    .unwrap_err();
    assert!(error.message().contains("MiniMax API error 1002"));
}

#[test]
fn business_error_message_is_exact_and_bounded() {
    let long = "x".repeat(600);
    let error = decode_completion(ChatCompletion {
        id: None,
        choices: vec![Some("ignored".to_owned())],
        usage: "null".to_owned(),
        base_resp: Some(BaseResponse { status_code: -7, status_msg: long }),
    })
    .unwrap_err();
    match error {
        ProviderError::Request(detail) => {
            assert_eq!(detail, format!("MiniMax API error -7: {}", "x".repeat(500)));
        }
        other => panic!("unexpected error {other:?}"),
    }
}

#[test]
fn reply_without_text_choice_is_invalid() {
    let no_choice = decode_completion(ChatCompletion {
        id: None,
        choices: Vec::new(),
        usage: "null".to_owned(),
        base_resp: None,
    });
    assert_eq!(
        no_choice,
        Err(ProviderError::InvalidResponse("response has no text choice".to_owned()))
    );
    let empty_choice = decode_completion(ChatCompletion {
        id: None,
        choices: vec![None, Some("second".to_owned())],
        usage: "null".to_owned(),
        base_resp: Some(BaseResponse { status_code: 0, status_msg: "ok".to_owned() }),
    });
    assert!(matches!(empty_choice, Err(ProviderError::InvalidResponse(_))));
}

#[test]
fn endpoints_keep_paths_and_refuse_credentials_ports_and_other_paths() {
    assert_eq!(
        endpoint("https://api.deepseek.com/").unwrap().url,
        "https://api.deepseek.com/chat/completions"
    );
    assert_eq!(
        endpoint("https://api.deepseek.com/v1").unwrap().url,
        "https://api.deepseek.com/v1/chat/completions"
    );
    assert_eq!(endpoint("https://api.deepseek.com").unwrap().vendor, Vendor::DeepSeek);
    assert!(endpoint("https://user:pw@api.deepseek.com").is_err());
    assert!(endpoint("https://api.deepseek.com:8443").is_err());
    assert!(endpoint("https://api.minimax.io").is_err());
    assert!(endpoint("not a url").is_err());
    assert!(models_endpoint("https://example.com").is_err());
    assert!(validate_provider_endpoint(ProviderAdapter::OpenaiCompatible, "https://api.deepseek.com").is_ok());
    assert!(validate_provider_endpoint(ProviderAdapter::OpenaiCompatible, "https://example.com").is_err());
}

#[test]
fn credential_references_name_an_environment_variable_or_a_local_secret() {
    assert_eq!(
        parse_credential_reference("env://DEEPSEEK_API_KEY"),
        Ok(CredentialSource::Environment("DEEPSEEK_API_KEY".to_owned()))
    );
    assert_eq!(
        parse_credential_reference("secret://abc"),
        Ok(CredentialSource::LocalSecret("abc".to_owned()))
    );
    assert_eq!(
        parse_credential_reference("env://BAD-NAME"),
        Err(ProviderError::Credential("environment variable reference is invalid".to_owned()))
    );
    assert_eq!(
        parse_credential_reference("env://"),
        Err(ProviderError::Credential("environment variable reference is invalid".to_owned()))
    );
    assert_eq!(
        parse_credential_reference("raw-secret"),
        Err(ProviderError::Credential("credential reference scheme is unsupported".to_owned()))
    );
    assert_eq!(
        missing_environment_variable("TEST_API_KEY"),
        ProviderError::Credential("environment variable TEST_API_KEY is not set".to_owned())
    );
}

#[test]
fn http_errors_report_status_and_bounded_detail() {
    assert_eq!(
        http_error(429, "slow down"),
        ProviderError::Request("HTTP 429: slow down".to_owned())
    );
    let detail = "é".repeat(700);
    match http_error(500, &detail) {
        ProviderError::Request(message) => {
            assert_eq!(message, format!("HTTP 500: {}", "é".repeat(500)));
        }
        other => panic!("unexpected error {other:?}"),
    }
    assert_eq!(
        ProviderError::Endpoint("x".to_owned()).message(),
        "provider endpoint is invalid: x"
    );
}

#[test]
fn model_selection_drops_long_identifiers_and_keeps_first_owner() {
    let long = "m".repeat(201);
    let models = select_models(vec![
        ModelEntry { id: "b".to_owned(), owned_by: Some("first".to_owned()) },
        ModelEntry { id: long, owned_by: None },
        ModelEntry { id: "b".to_owned(), owned_by: Some("second".to_owned()) },
        ModelEntry { id: "   ".to_owned(), owned_by: None },
        ModelEntry { id: "a".to_owned(), owned_by: None },
    ])
    .unwrap();
    assert_eq!(models.len(), 2);
    assert_eq!(models[0].id, "a");
    assert_eq!(models[1].id, "b");
    assert_eq!(models[1].owned_by.as_deref(), Some("first"));
    assert_eq!(
        select_models(vec![entry(""), entry("  ")]),
        Err(ProviderError::InvalidResponse("provider returned no usable models".to_owned()))
    );
}

#[test]
fn reply_bodies_are_limited_to_two_mebibytes() {
    assert!(check_response_size(0).is_ok());
    assert!(check_response_size(2 * 1024 * 1024).is_ok());
    assert_eq!(
        check_response_size(2 * 1024 * 1024 + 1),
        Err(ProviderError::InvalidResponse("response exceeds the 2 MiB limit".to_owned()))
    );
}

#[test]
fn error_details_prefer_the_first_field_the_reply_has() {
    let body = "{\"error\":{\"message\":\"bad key\"}}".to_owned();
    assert_eq!(
        error_detail(vec![Some(Some("bad key".to_owned())), Some(Some("other".to_owned())), None], body.clone()),
        "bad key"
    );
    assert_eq!(error_detail(vec![None, None, Some(Some("quota".to_owned()))], body.clone()), "quota");
    assert_eq!(error_detail(vec![Some(None), Some(Some("m".to_owned())), None], body.clone()), body);
    assert_eq!(error_detail(vec![None, None, None], "plain text".to_owned()), "plain text");
}

#[test]
fn credentials_come_from_the_environment_or_local_secrets() {
    assert_eq!(environment_credential("KEY", Some("v".to_owned())), Ok("v".to_owned()));
    assert_eq!(
        environment_credential("KEY", None),
        Err(ProviderError::Credential("environment variable KEY is not set".to_owned()))
    );
    assert_eq!(local_credential(Some("s".to_owned())), Ok("s".to_owned()));
    assert_eq!(
        local_credential(None),
        Err(ProviderError::Credential("local provider secret is missing".to_owned()))
    );
}
