use villflow::completion::{
    chat_request_body, chat_response_outcome, clean_completion_text, completion_from_content,
    is_gpt_oss_model, models_response_outcome, parse_chat_completion_content, parse_model_ids,
    require_api_key, CloudError,
};
use villflow::json::JsonField;

#[test]
fn clean_strips_wrapping_double_quotes() {
    assert_eq!(clean_completion_text("\"hello world\""), "hello world");
}

#[test]
fn clean_strips_wrapping_single_quotes() {
    assert_eq!(clean_completion_text("'hello'"), "hello");
}

#[test]
fn clean_strips_code_fence() {
    assert_eq!(clean_completion_text("```\nhello world\n```"), "hello world");
    assert_eq!(clean_completion_text("```text\nhello world\n```"), "hello world");
    assert_eq!(clean_completion_text("```hello```"), "hello");
}

#[test]
fn clean_preserves_internal_fences() {
    let multi = "Intro:\n\n```python\nprint(1)\n```\n\nOutro.";
    assert_eq!(clean_completion_text(multi), multi);

    let unclosed = "```\npartial only";
    assert_eq!(clean_completion_text(unclosed), unclosed);

    let wrapped = "```\nSee:\n```js\nx()\n```\ndone\n```";
    assert_eq!(clean_completion_text(wrapped), "See:\n```js\nx()\n```\ndone");
}

#[test]
fn clean_preserves_internal_quotes() {
    assert_eq!(clean_completion_text("He said \"hi\" to me"), "He said \"hi\" to me");
}

#[test]
fn parse_chat_completion_happy_path() {
    let body = r#"{"choices":[{"message":{"role":"assistant","content":"  Cleaned text.  "}}]}"#;
    assert_eq!(parse_chat_completion_content(body).unwrap(), "Cleaned text.");
}

#[test]
fn parse_chat_completion_with_fences() {
    let body = r#"{"choices":[{"message":{"content":"```\nFinal answer\n```"}}]}"#;
    assert_eq!(parse_chat_completion_content(body).unwrap(), "Final answer");
}

#[test]
fn parse_chat_completion_missing_content() {
    let body = r#"{"choices":[]}"#;
    assert!(parse_chat_completion_content(body).is_err());
}

#[test]
fn parse_models_list() {
    let body = r#"{"data":[{"id":"openai/gpt-oss-120b"},{"id":"llama-3.3-70b-versatile"},{"object":"model"}]}"#;
    let ids = parse_model_ids(body).unwrap();
    assert_eq!(
        ids,
        vec!["llama-3.3-70b-versatile".to_string(), "openai/gpt-oss-120b".to_string()]
    );
}

#[test]
fn parse_typed_content_works() {
    let json = r#"{"choices":[{"message":{"content":"\"quoted\""}}]}"#;
    assert_eq!(parse_chat_completion_content(json).unwrap(), "quoted");
}

#[test]
fn empty_completion_is_an_error() {
    let body = r#"{"choices":[{"message":{"content":"  \"\"  "}}]}"#;
    assert!(matches!(parse_chat_completion_content(body), Err(CloudError::EmptyGroqResponse)));
    assert!(matches!(
        completion_from_content(Ok(JsonField::Null)),
        Err(CloudError::Groq(m)) if m == "missing choices[0].message.content"
    ));
}

#[test]
fn unparsable_body_reports_parser_error() {
    match parse_chat_completion_content("not json") {
        Err(CloudError::Groq(m)) => assert!(!m.is_empty()),
        other => panic!("unexpected {:?}", other),
    }
}

#[test]
fn models_without_data_array() {
    assert!(matches!(
        parse_model_ids(r#"{"object":"list"}"#),
        Err(CloudError::Groq(m)) if m == "missing data array in models response"
    ));
    assert_eq!(parse_model_ids(r#"{"data":[]}"#).unwrap(), Vec::<String>::new());
}

#[test]
fn gpt_oss_detection_ignores_case() {
    assert!(is_gpt_oss_model("openai/GPT-OSS-120b"));
    assert!(!is_gpt_oss_model("llama-3.3-70b-versatile"));
}

#[test]
fn request_body_shape() {
    let body = chat_request_body("sys \"x\"", "user", "openai/gpt-oss-20b", 2048);
    let v: serde_json::Value = serde_json::from_str(&body).unwrap();
    assert_eq!(v["max_completion_tokens"], 2048);
    assert_eq!(v["messages"][0]["role"], "system");
    assert_eq!(v["messages"][0]["content"], "sys \"x\"");
    assert_eq!(v["messages"][1]["content"], "user");
    assert_eq!(v["model"], "openai/gpt-oss-20b");
    assert_eq!(v["reasoning_effort"], "low");
    assert_eq!(v["include_reasoning"], false);
    assert_eq!(v["stream"], false);
    assert_eq!(v["temperature"], 0.2);

    let plain = chat_request_body("s", "u", "llama-3.3-70b-versatile", 8192);
    let w: serde_json::Value = serde_json::from_str(&plain).unwrap();
    assert!(w.get("reasoning_effort").is_none());
    assert!(w.get("include_reasoning").is_none());
    assert_eq!(w["max_completion_tokens"], 8192);
}

#[test]
fn response_outcomes() {
    let long_body = "x".repeat(400);
    match chat_response_outcome(false, "429 Too Many Requests", &long_body) {
        Err(CloudError::Groq(m)) => {
            assert!(m.starts_with("HTTP 429 Too Many Requests: "));
            assert_eq!(m.chars().count(), "HTTP 429 Too Many Requests: ".len() + 300);
        }
        other => panic!("unexpected {:?}", other),
    }
    let truncated = r#"{"choices":[{"finish_reason":"length","message":{"content":"héllo"}}]}"#;
    assert!(matches!(
        chat_response_outcome(true, "200 OK", truncated),
        Err(CloudError::Groq(m)) if m == "completion truncated (finish_reason=length, chars=6)"
    ));
    let ok = r#"{"choices":[{"finish_reason":"stop","message":{"content":" fine "}}]}"#;
    assert_eq!(chat_response_outcome(true, "200 OK", ok).unwrap(), "fine");
    assert!(models_response_outcome(false, "401 Unauthorized", "nope").is_err());
}

#[test]
fn blank_api_key_refused() {
    assert!(matches!(require_api_key("   "), Err(CloudError::Groq(m)) if m == "LLM API key is empty"));
    assert!(require_api_key("gsk_1").is_ok());
}

#[test]
fn error_messages() {
    assert_eq!(CloudError::NoApiKeys.to_string(), "no ElevenLabs API keys configured");
    assert_eq!(CloudError::Http("boom".to_string()).to_string(), "HTTP error: boom");
    assert_eq!(CloudError::AllKeysFailed("e".to_string()).to_string(), "All ElevenLabs keys failed: e");
    assert_eq!(CloudError::msg("plain".to_string()).to_string(), "plain");
}

#[test]
fn cleaning_keeps_a_trimmed_part_of_the_output() {
    for raw in ["  \"hello there\"  ", "```text\nbody line\n```", "Intro:\n\n```python\nprint(1)\n```\n\nOutro.", "plain"] {
        let r = clean_completion_text(raw);
        assert_eq!(r, r.trim());
        assert!(raw.contains(r.as_str()));
    }
    assert_eq!(clean_completion_text("  He said \"hi\" to me  "), "He said \"hi\" to me");
}
