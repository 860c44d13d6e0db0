use llm_sdk::chat::{
    AssistantMessage, ChatCompleteModel, ChatCompleteUsage, ChatCompletionChoice,
    ChatCompletionMessage, ChatCompletionRequest, ChatCompletionResponse, FinishReason,
    FunctionCall, Tool, ToolCall, ToolType,
};
use llm_sdk::pipeline::{check_blocking_entry, check_streaming_entry, ClientConfig, SdkError};

fn parsed(s: &str) -> serde_json::Value {
    serde_json::from_str(s).expect("valid JSON")
}

#[test]
fn simple_chat_completion_scenario_request_and_response_shape() {
    // request: one system and one user message, no tools
    let req = ChatCompletionRequest::new(
        ChatCompleteModel::Gpt3Turbo,
        vec![
            ChatCompletionMessage::new_system("I can answer any question you ask me.", ""),
            ChatCompletionMessage::new_user("What is human life expectancy in the world?", "user1"),
        ],
    );
    let json = parsed(&req.to_json_body());
    assert_eq!(json["messages"].as_array().unwrap().len(), 2);
    assert!(json.get("tools").is_none());
    assert!(json.get("stream").is_none());

    // the answer such a call yields: one choice that stopped naturally,
    // with no tool calls
    let res = ChatCompletionResponse {
        id: "chatcmpl-1".to_string(),
        choices: vec![ChatCompletionChoice {
            finish_reason: FinishReason::Stop,
            index: 0,
            message: AssistantMessage {
                content: Some("Around seventy-three years.".to_string()),
                name: None,
                tool_calls: vec![],
            },
        }],
        created: 1700000000,
        model: ChatCompleteModel::Gpt3Turbo,
        system_fingerprint: None,
        object: "chat.completion".to_string(),
        usage: ChatCompleteUsage {
            completion_tokens: 7,
            prompt_tokens: 25,
            total_tokens: 32,
        },
    };
    assert_eq!(res.model, ChatCompleteModel::Gpt3Turbo);
    assert_eq!(res.object, "chat.completion");
    assert_eq!(res.choices.len(), 1);
    let choice = &res.choices[0];
    assert_eq!(choice.finish_reason, FinishReason::Stop);
    assert_eq!(choice.index, 0);
    assert_eq!(choice.message.tool_calls.len(), 0);
}

#[test]
fn tool_call_scenario_names_one_of_the_supplied_tools() {
    let tools = vec![
        Tool::new_function(
            "get_weather_forecast",
            "Get the weather forecast for a city.",
            r#"{"type":"object","properties":{"city":{"type":"string"}}}"#,
        ),
        Tool::new_function(
            "explain_mood",
            "Explain the meaning of the given mood.",
            r#"{"type":"object","properties":{"name":{"type":"string"}}}"#,
        ),
    ];
    let req = ChatCompletionRequest::new_with_tools(
        ChatCompleteModel::Gpt3Turbo,
        vec![
            ChatCompletionMessage::new_system("I can choose the right function for you.", ""),
            ChatCompletionMessage::new_user("What is the weather like in Boston?", "user1"),
        ],
        tools.clone(),
    );
    let json = parsed(&req.to_json_body());
    assert_eq!(json["tools"].as_array().unwrap().len(), 2);

    // the answer such a call yields: one choice that stopped on a tool
    // call, no content, naming one of the supplied tools
    let choice = ChatCompletionChoice {
        finish_reason: FinishReason::ToolCalls,
        index: 0,
        message: AssistantMessage {
            content: None,
            name: None,
            tool_calls: vec![ToolCall {
                id: "call_1".to_string(),
                kind: ToolType::Function,
                function: FunctionCall {
                    name: "get_weather_forecast".to_string(),
                    arguments: r#"{"city":"Boston","unit":"Celsius"}"#.to_string(),
                },
            }],
        },
    };
    assert_eq!(choice.finish_reason, FinishReason::ToolCalls);
    assert_eq!(choice.message.content, None);
    assert_eq!(choice.message.tool_calls.len(), 1);
    let called = &choice.message.tool_calls[0].function.name;
    assert!(tools.iter().any(|t| &t.function.name == called));
}

#[test]
fn entry_points_reject_the_wrong_kind_of_request_before_io() {
    let mut req = ChatCompletionRequest::new(
        ChatCompleteModel::Gpt3Turbo,
        vec![ChatCompletionMessage::new_user("hi", "")],
    );
    assert_eq!(check_blocking_entry(&req), Ok(()));
    assert_eq!(
        check_streaming_entry(&req),
        Err(SdkError::ContractViolation)
    );
    req.stream = Some(true);
    assert_eq!(
        check_blocking_entry(&req),
        Err(SdkError::ContractViolation)
    );
    assert_eq!(check_streaming_entry(&req), Ok(()));
    req.stream = Some(false);
    assert_eq!(check_blocking_entry(&req), Ok(()));
}

#[test]
fn configuration_builds_urls_and_auth_headers() {
    let c = ClientConfig::new("tok-123");
    assert_eq!(c.base_url, "https://api.openai.com/v1");
    assert_eq!(c.max_retries, 3);
    assert_eq!(
        c.chat_completions_url(),
        "https://api.openai.com/v1/chat/completions"
    );
    assert_eq!(c.bearer_header(), Some("Bearer tok-123".to_string()));

    let anon = ClientConfig::new_with_base_url("", "http://localhost:8080/v1");
    assert_eq!(
        anon.chat_completions_url(),
        "http://localhost:8080/v1/chat/completions"
    );
    assert_eq!(anon.bearer_header(), None);
}

#[test]
fn error_transience_follows_the_classifier() {
    assert!(SdkError::Transport {
        detail: "connection refused".to_string()
    }
    .is_transient());
    assert!(SdkError::Api {
        status: 429,
        body: "rate limited".to_string()
    }
    .is_transient());
    assert!(SdkError::Api {
        status: 503,
        body: "overloaded".to_string()
    }
    .is_transient());
    assert!(!SdkError::Api {
        status: 400,
        body: "bad request".to_string()
    }
    .is_transient());
    assert!(!SdkError::Decode {
        detail: "bad frame".to_string()
    }
    .is_transient());
    assert!(!SdkError::ContractViolation.is_transient());
}

#[test]
fn model_wire_names_match_the_api() {
    assert_eq!(ChatCompleteModel::Gpt3Turbo.wire_name(), "gpt-3.5-turbo-1106");
    assert_eq!(
        ChatCompleteModel::Gpt4Turbo.wire_name(),
        "gpt-4-1106-preview"
    );
    assert_eq!(
        ChatCompleteModel::Other("my-model".to_string()).wire_name(),
        "my-model"
    );
}
