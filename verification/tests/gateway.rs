use tls::error::ErrorKind;
use tls::gateway::{
    api_key_from_setting, authorization_value, base_url_from_setting, chat_endpoint, chat_reply, parse_base_url, ChatHttp,
    MockGenAiClient,
};

#[test]
fn test_chat_success() {
    let result = chat_reply(ChatHttp::Received(Ok(vec!["Hello world".to_string()])));
    assert!(result.is_ok());
    assert_eq!(result.ok().unwrap(), "Hello world");
}

#[test]
fn test_chat_error_500() {
    let result = chat_reply(ChatHttp::Rejected {
        status: "500 Internal Server Error".to_string(),
        body: Ok("Internal Server Error".to_string()),
    });
    assert!(result.is_err());
    let err = result.err().unwrap().message();
    assert!(err.contains("500 Internal Server Error"));
    assert_eq!(err, "API Request failed: 500 Internal Server Error - Internal Server Error");
}

#[test]
fn chat_reply_errors() {
    let err = chat_reply(ChatHttp::SendFailed("refused".to_string())).err().unwrap();
    assert_eq!(err.message(), "refused");
    assert_eq!(err.kind(), ErrorKind::Other);
    let err = chat_reply(ChatHttp::Received(Ok(vec![]))).err().unwrap();
    assert_eq!(err.message(), "No choices in response");
    let err = chat_reply(ChatHttp::Received(Err("eof".to_string()))).err().unwrap();
    assert_eq!(err.message(), "Failed to parse response: eof");
    let err = chat_reply(ChatHttp::Rejected { status: "404 Not Found".to_string(), body: Err("cut".to_string()) })
        .err()
        .unwrap();
    assert_eq!(err.message(), "API Request failed: 404 Not Found - (failed to read response body: cut)");
    let ok = chat_reply(ChatHttp::Received(Ok(vec!["a".to_string(), "b".to_string()])));
    assert_eq!(ok.ok().unwrap(), "a");
}

#[test]
fn base_url_defaults_and_gets_a_trailing_slash() {
    assert_eq!(base_url_from_setting(None).ok().unwrap(), "http://127.0.0.1:11434/v1/");
    assert_eq!(base_url_from_setting(Some("http://127.0.0.1:11434")).ok().unwrap(), "http://127.0.0.1:11434/v1/");
    assert_eq!(base_url_from_setting(Some("http://localhost:8080/")).ok().unwrap(), "http://localhost:8080/v1/");
    assert_eq!(base_url_from_setting(Some("HTTP://Example.COM")).ok().unwrap(), "http://example.com/v1/");
    let err = base_url_from_setting(Some("not a url")).err().unwrap();
    assert_eq!(err.kind(), ErrorKind::InvalidInput);
    assert_eq!(err.message(), "Invalid base URL: relative URL without a base");
    assert_eq!(parse_base_url("http://h:1/x").ok().unwrap(), "http://h:1/x");
}

#[test]
fn endpoint_setting_leads_to_the_v1_chat_completions_path() {
    let base = base_url_from_setting(Some("http://127.0.0.1:4567/")).ok().unwrap();
    assert_eq!(chat_endpoint(&base).ok().unwrap(), "http://127.0.0.1:4567/v1/chat/completions");
    let base = parse_base_url("http://127.0.0.1:4567/").ok().unwrap();
    assert_eq!(chat_endpoint(&base).ok().unwrap(), "http://127.0.0.1:4567/chat/completions");
}

#[test]
fn chat_endpoint_joins_under_the_base() {
    assert_eq!(chat_endpoint("http://localhost:8080/").ok().unwrap(), "http://localhost:8080/chat/completions");
    assert_eq!(chat_endpoint("http://localhost:8080/v1/").ok().unwrap(), "http://localhost:8080/v1/chat/completions");
    assert_eq!(chat_endpoint("http://localhost:8080/v1").ok().unwrap(), "http://localhost:8080/chat/completions");
    let err = chat_endpoint("nope").err().unwrap();
    assert!(err.message().starts_with("Failed to join URL: "));
}

#[test]
fn authorization_carries_the_key() {
    assert_eq!(authorization_value("test-key"), "Bearer test-key");
    assert_eq!(authorization_value(""), "Bearer ");
}

#[test]
fn api_key_is_required() {
    assert_eq!(api_key_from_setting(Some("k".to_string())).ok().unwrap(), "k");
    let err = api_key_from_setting(None).err().unwrap();
    assert_eq!(err.message(), "OPENAI_API_KEY must be set");
}

#[test]
fn mock_client_replies_with_its_response() {
    let client = MockGenAiClient { response: "canned".to_string() };
    assert_eq!(client.reply().ok().unwrap(), "canned");
}
