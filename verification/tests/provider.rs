//! Requests to the language model and its answers.
use krust_operator::agent::provider::{
    adc_missing, adc_path, cached_token, convert_messages, judge_reply, parse_anthropic_response,
    parse_credentials, read_token_reply, AnthropicContent, AnthropicProvider, AnthropicResponse,
    AnthropicUsage, CachedToken, Reply, RetryStep, Service, VertexAnthropicProvider,
};
use krust_operator::agent::types::{ChatMessage, ContentPart, MessageContent, ToolSpec};
use krust_operator::json::{Json, JsonNumber};

fn read(s: &str) -> Json {
    match Json::parse(s) {
        Ok(j) => j,
        Err(e) => panic!("{}", e),
    }
}

fn user(text: &str) -> ChatMessage {
    ChatMessage { role: "user".to_string(), content: MessageContent::Text(text.to_string()) }
}

fn half() -> JsonNumber {
    match read("0.5") {
        Json::Number(n) => n,
        _ => panic!("no number"),
    }
}

fn a_tool() -> ToolSpec {
    ToolSpec {
        name: "my_tool".to_string(),
        description: "A test tool".to_string(),
        parameters: read(
            r#"{"type": "object", "properties": {"input": {"type": "string"}}, "required": ["input"]}"#,
        ),
    }
}

#[test]
fn test_anthropic_provider_builds_request_body() {
    let provider = AnthropicProvider::new("test-key".to_string());
    let messages = vec![user("Hello")];
    let tools = vec![a_tool()];
    let body =
        provider.build_request_body("You are helpful.", &messages, &tools, "opus-3", &half());

    assert_eq!(body.str_at("model"), Some("opus-3"));
    assert_eq!(body.u64_at("max_tokens"), Some(4096));
    assert_eq!(body.str_at("system"), Some("You are helpful."));
    let temperature: f64 = body.get("temperature").unwrap().to_text().parse().unwrap();
    assert_eq!(temperature, 0.5);

    let msgs = body.array_at("messages").unwrap();
    assert_eq!(msgs.len(), 1);
    assert_eq!(msgs[0].str_at("role"), Some("user"));

    let tools_json = body.array_at("tools").unwrap();
    assert_eq!(tools_json.len(), 1);
    assert_eq!(tools_json[0].str_at("name"), Some("my_tool"));
    assert_eq!(tools_json[0].str_at("description"), Some("A test tool"));
    assert!(tools_json[0].object_at("input_schema").is_some());
    assert_eq!(
        tools_json[0].object_at("input_schema").unwrap().get("type").and_then(|t| t.as_str()),
        Some("object")
    );
    let properties = tools_json[0].get("input_schema").unwrap().get_in("properties", "input");
    assert_eq!(properties.unwrap().str_at("type"), Some("string"));
    let required = tools_json[0].get("input_schema").unwrap().array_at("required").unwrap();
    assert_eq!(required[0].as_str(), Some("input"));
}

#[test]
fn the_vertex_body_names_its_version() {
    let provider = VertexAnthropicProvider::new("us-central1", "my-project");
    let body = provider.build_request_body("sys", &vec![user("Hello")], &vec![], &half());
    assert!(body.get("model").is_none());
    assert!(body.get("tools").is_none());
    assert_eq!(body.str_at("anthropic_version"), Some("vertex-2023-10-16"));
}

#[test]
fn test_parse_response_text_only() {
    let response = AnthropicResponse {
        content: vec![AnthropicContent::Text { text: "Hello, world!".to_string() }],
        usage: AnthropicUsage { input_tokens: 10, output_tokens: 5 },
    };
    let result = match parse_anthropic_response(response) {
        Ok(r) => r,
        Err(e) => panic!("{}", e),
    };
    assert_eq!(result.text, Some("Hello, world!".to_string()));
    assert!(result.tool_calls.is_empty());
    assert_eq!(result.input_tokens, 10);
    assert_eq!(result.output_tokens, 5);
}

fn response_of(j: &Json) -> AnthropicResponse {
    let content = j
        .array_at("content")
        .unwrap()
        .iter()
        .map(|part| match part.str_at("type") {
            Some("text") => {
                AnthropicContent::Text { text: part.str_at("text").unwrap().to_string() }
            }
            Some("tool_use") => AnthropicContent::ToolUse {
                id: part.str_at("id").unwrap().to_string(),
                name: part.str_at("name").unwrap().to_string(),
                input: part.get("input").unwrap().clone(),
            },
            _ => panic!("unknown part"),
        })
        .collect();
    let usage = j.get("usage").unwrap();
    AnthropicResponse {
        content,
        usage: AnthropicUsage {
            input_tokens: usage.u64_at("input_tokens").unwrap() as u32,
            output_tokens: usage.u64_at("output_tokens").unwrap() as u32,
        },
    }
}

#[test]
fn test_parse_response_with_tool_use() {
    let response_json = read(
        r#"{
            "content": [
                {"type": "text", "text": "I will use a tool."},
                {
                    "type": "tool_use",
                    "id": "toolu_abc123",
                    "name": "get_weather",
                    "input": {"location": "San Francisco", "unit": "celsius"}
                }
            ],
            "usage": {"input_tokens": 25, "output_tokens": 15}
        }"#,
    );
    let result = match parse_anthropic_response(response_of(&response_json)) {
        Ok(r) => r,
        Err(e) => panic!("{}", e),
    };
    assert_eq!(result.text, Some("I will use a tool.".to_string()));
    assert_eq!(result.tool_calls.len(), 1);

    let tc = &result.tool_calls[0];
    assert_eq!(tc.id, "toolu_abc123");
    assert_eq!(tc.name, "get_weather");

    let args = read(&tc.arguments);
    assert_eq!(args.str_at("location"), Some("San Francisco"));
    assert_eq!(args.str_at("unit"), Some("celsius"));

    assert_eq!(result.input_tokens, 25);
    assert_eq!(result.output_tokens, 15);
}

#[test]
fn test_vertex_builds_correct_url() {
    let provider = VertexAnthropicProvider::new("us-central1", "my-project");
    let url = provider.build_url("sonnet-4-20250514");
    assert_eq!(
        url,
        "https://us-central1-aiplatform.googleapis.com/v1/projects/my-project/locations/us-central1/publishers/anthropic/models/sonnet-4-20250514:rawPredict"
    );
}

#[test]
fn test_convert_messages_merges_same_role() {
    let messages = vec![user("Hello"), user("World")];
    let result = convert_messages(&messages);
    assert_eq!(result.len(), 1, "consecutive same-role messages should merge");
    assert_eq!(result[0].str_at("role"), Some("user"));

    let content = result[0].array_at("content").unwrap();
    assert_eq!(content.len(), 2);
    assert_eq!(content[0].str_at("text"), Some("Hello"));
    assert_eq!(content[1].str_at("text"), Some("World"));
}

#[test]
fn test_convert_messages_filters_empty_text() {
    let messages = vec![user(""), user("  "), user("actual content")];
    let result = convert_messages(&messages);
    assert_eq!(result.len(), 1);
    let content = result[0].array_at("content").unwrap();
    assert_eq!(content.len(), 1);
    assert_eq!(content[0].str_at("text"), Some("actual content"));
}

#[test]
fn turns_alternate() {
    let messages = vec![
        user("a"),
        ChatMessage {
            role: "assistant".to_string(),
            content: MessageContent::Parts(vec![ContentPart::ToolUse {
                id: "1".to_string(),
                name: "t".to_string(),
                input: read("{}"),
            }]),
        },
        ChatMessage {
            role: "user".to_string(),
            content: MessageContent::Parts(vec![ContentPart::ToolResult {
                tool_use_id: "1".to_string(),
                content: "out".to_string(),
            }]),
        },
        user("b"),
    ];
    let result = convert_messages(&messages);
    let roles: Vec<&str> = result.iter().map(|m| m.str_at("role").unwrap()).collect();
    assert_eq!(roles, vec!["user", "assistant", "user"]);
    let last = result[2].array_at("content").unwrap();
    assert_eq!(last[0].str_at("type"), Some("tool_result"));
    assert_eq!(last[0].str_at("tool_use_id"), Some("1"));
    assert_eq!(last[1].str_at("text"), Some("b"));
}

#[test]
fn merging_keeps_every_block_in_order() {
    let answer = ChatMessage {
        role: "assistant".to_string(),
        content: MessageContent::Text("c".to_string()),
    };
    let messages = vec![user("a"), user("b"), answer, user(" "), user("d")];
    let mut blocks: Vec<String> = Vec::new();
    for turn in convert_messages(&messages) {
        for block in turn.array_at("content").unwrap() {
            blocks.push(block.str_at("text").unwrap().to_string());
        }
    }
    assert_eq!(blocks, vec!["a", "b", "c", "d"]);
}

#[test]
fn passing_faults_are_retried_and_others_are_not() {
    let answered = |status: u16| Reply::Answered { status, body: "b".to_string() };
    let mut waits: Vec<u64> = Vec::new();
    for attempt in 0..3 {
        match judge_reply(Service::Anthropic, attempt, answered(503)) {
            RetryStep::Wait { seconds } => waits.push(seconds),
            _ => panic!("no wait"),
        }
    }
    assert_eq!(waits, vec![1, 2, 4]);
    match judge_reply(Service::Anthropic, 3, answered(429)) {
        RetryStep::Fail { error } => assert_eq!(error, "API error (status 429): b"),
        _ => panic!("no failure"),
    }
    match judge_reply(Service::Vertex, 0, answered(400)) {
        RetryStep::Fail { error } => assert_eq!(error, "Vertex AI client error (status 400): b"),
        _ => panic!("no failure"),
    }
    match judge_reply(Service::Vertex, 3, Reply::Unsent { error: "e".to_string() }) {
        RetryStep::Fail { error } => assert_eq!(error, "Request failed: e"),
        _ => panic!("no failure"),
    }
    match judge_reply(Service::Vertex, 0, answered(200)) {
        RetryStep::Accept { body } => assert_eq!(body, "b"),
        _ => panic!("no answer"),
    }
}

#[test]
fn tokens_are_used_while_they_are_fresh() {
    let token = CachedToken::keep("t", 1000, 3600);
    let cache = Some(token);
    assert_eq!(cached_token(&cache, 1000), Some("t".to_string()));
    assert_eq!(cached_token(&cache, 4600), None);
    assert_eq!(cached_token(&None, 0), None);
}

#[test]
fn credentials_are_read() {
    let full = r#"{"client_id": "a", "client_secret": "b", "refresh_token": "c"}"#;
    let creds = match parse_credentials(full) {
        Ok(c) => c,
        Err(e) => panic!("{}", e),
    };
    assert_eq!(creds.client_id, "a");
    assert_eq!(creds.client_secret, "b");
    assert_eq!(creds.refresh_token, "c");
    let error = |s: &str| match parse_credentials(s) {
        Ok(_) => panic!("read"),
        Err(e) => e,
    };
    assert_eq!(error("{}"), "Missing client_id in ADC file");
    assert_eq!(error(r#"{"client_id": "a"}"#), "Missing client_secret in ADC file");
    assert_eq!(
        error(r#"{"client_id": "a", "client_secret": "b"}"#),
        "Missing refresh_token in ADC file"
    );
    assert!(parse_credentials("no").is_err());
    assert!(adc_path("/root").starts_with("/root/"));
    assert!(adc_missing("/p").contains("/p"));
}

#[test]
fn token_replies_are_read() {
    assert_eq!(
        read_token_reply(true, &read(r#"{"access_token": "t", "expires_in": 10}"#)),
        Ok(("t".to_string(), 10))
    );
    assert_eq!(
        read_token_reply(true, &read(r#"{"access_token": "t"}"#)),
        Ok(("t".to_string(), 3600))
    );
    assert!(read_token_reply(true, &read("{}")).is_err());
    assert!(read_token_reply(false, &read(r#"{"error": "x"}"#)).is_err());
}
