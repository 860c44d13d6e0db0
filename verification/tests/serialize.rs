use llm_sdk::chat::{
    AssistantMessage, ChatCompleteModel, ChatCompletionMessage, ChatCompletionRequest,
    FunctionCall, Tool, ToolCall, ToolChoice, ToolMessage, ToolType,
};

fn parsed(s: &str) -> serde_json::Value {
    serde_json::from_str(s).expect("valid JSON")
}

#[test]
fn chat_completion_request_tool_choice_function_serialize_should_work() {
    let mut req = ChatCompletionRequest::new(ChatCompleteModel::Gpt3Turbo, vec![]);
    req.tool_choice = Some(ToolChoice::Function {
        name: "my_function".to_string(),
    });
    let json = parsed(&req.to_json_body());
    assert_eq!(
        json["tool_choice"],
        parsed(r#"{"type":"function","function":{"name":"my_function"}}"#)
    );
    assert_eq!(json["messages"], parsed("[]"));
}

#[test]
fn chat_completion_request_serialize_should_work() {
    let mut req = get_simple_completion_request();
    req.tool_choice = Some(ToolChoice::Auto);
    let json = parsed(&req.to_json_body());
    assert_eq!(
        json,
        parsed(
            r#"{
              "tool_choice": "auto",
              "model": "gpt-3.5-turbo-1106",
              "messages": [{
                "role": "system",
                "content": "I can answer any question you ask me."
              }, {
                "role": "user",
                "content": "What is human life expectancy in the world?",
                "name": "user1"
              }]
            }"#
        )
    );
}

#[test]
fn chat_completion_request_with_tools_serialize_should_work() {
    let req = get_tool_completion_request();
    let json = parsed(&req.to_json_body());
    assert_eq!(
        json,
        parsed(
            r#"{
              "model": "gpt-3.5-turbo-1106",
              "messages": [{
                "role": "system",
                "content": "I can choose the right function for you."
              }, {
                "role": "user",
                "content": "What is the weather like in Boston?",
                "name": "user1"
              }],
              "tools": [
                {
                  "type": "function",
                  "function": {
                    "description": "Get the weather forecast for a city.",
                    "name": "get_weather_forecast",
                    "parameters": {"type":"object","properties":{"city":{"type":"string"},"unit":{"type":"string"}},"required":["city","unit"]}
                  }
                },
                {
                  "type": "function",
                  "function": {
                    "description": "Explain the meaning of the given mood.",
                    "name": "explain_mood",
                    "parameters": {"type":"object","properties":{"name":{"type":"string"}},"required":["name"]}
                  }
                }
              ]
            }"#
        )
    );
}

#[test]
fn empty_name_is_omitted_entirely() {
    let m = ChatCompletionMessage::new_system("hello", "");
    let json = parsed(&m.to_json());
    assert_eq!(json["role"], parsed(r#""system""#));
    assert_eq!(json["content"], parsed(r#""hello""#));
    assert!(json.get("name").is_none());

    let m = ChatCompletionMessage::new_user("hi", "user1");
    let json = parsed(&m.to_json());
    assert_eq!(json["name"], parsed(r#""user1""#));
}

#[test]
fn message_encoding_round_trips_every_variant() {
    let sys = ChatCompletionMessage::new_system("rules", "admin");
    let json = parsed(&sys.to_json());
    assert_eq!(json["role"], parsed(r#""system""#));
    assert_eq!(json["content"], parsed(r#""rules""#));
    assert_eq!(json["name"], parsed(r#""admin""#));

    let user = ChatCompletionMessage::new_user("question", "");
    let json = parsed(&user.to_json());
    assert_eq!(json["role"], parsed(r#""user""#));
    assert_eq!(json["content"], parsed(r#""question""#));
    assert!(json.get("name").is_none());

    let asst = ChatCompletionMessage::Assistant(AssistantMessage {
        content: None,
        name: None,
        tool_calls: vec![ToolCall {
            id: "call_1".to_string(),
            kind: ToolType::Function,
            function: FunctionCall {
                name: "get_weather_forecast".to_string(),
                arguments: r#"{"city":"Boston"}"#.to_string(),
            },
        }],
    });
    let json = parsed(&asst.to_json());
    assert_eq!(json["role"], parsed(r#""assistant""#));
    assert!(json.get("content").is_none());
    assert!(json.get("name").is_none());
    assert_eq!(json["tool_calls"][0]["id"], parsed(r#""call_1""#));
    assert_eq!(json["tool_calls"][0]["type"], parsed(r#""function""#));
    assert_eq!(
        json["tool_calls"][0]["function"]["name"],
        parsed(r#""get_weather_forecast""#)
    );
    assert_eq!(
        json["tool_calls"][0]["function"]["arguments"],
        parsed(r#""{\"city\":\"Boston\"}""#)
    );

    let tool = ChatCompletionMessage::Tool(ToolMessage {
        content: "22".to_string(),
        tool_call_id: "call_1".to_string(),
    });
    let json = parsed(&tool.to_json());
    assert_eq!(json["role"], parsed(r#""tool""#));
    assert_eq!(json["content"], parsed(r#""22""#));
    assert_eq!(json["tool_call_id"], parsed(r#""call_1""#));
}

#[test]
fn tool_choice_keywords_serialize_as_bare_strings() {
    assert_eq!(ToolChoice::Auto.to_json(), r#""auto""#);
    assert_eq!(ToolChoice::NoTool.to_json(), r#""none""#);
    let forced = ToolChoice::Function {
        name: "my_function".to_string(),
    };
    assert_eq!(
        parsed(&forced.to_json()),
        parsed(r#"{"type":"function","function":{"name":"my_function"}}"#)
    );
}

#[test]
fn optional_request_fields_are_encoded_when_set() {
    let mut req = ChatCompletionRequest::new(
        ChatCompleteModel::Other("deepseek-chat".to_string()),
        vec![ChatCompletionMessage::new_user("hi", "")],
    );
    req.max_tokens = Some(42);
    req.n = Some(2);
    req.seed = Some(7);
    req.stop = Some("END".to_string());
    req.stream = Some(true);
    req.user = Some("u-1".to_string());
    let json = parsed(&req.to_json_body());
    assert_eq!(json["model"], parsed(r#""deepseek-chat""#));
    assert_eq!(json["max_tokens"], parsed("42"));
    assert_eq!(json["n"], parsed("2"));
    assert_eq!(json["seed"], parsed("7"));
    assert_eq!(json["stop"], parsed(r#""END""#));
    assert_eq!(json["stream"], parsed("true"));
    assert_eq!(json["user"], parsed(r#""u-1""#));
    assert!(json.get("tools").is_none());
    assert!(json.get("tool_choice").is_none());
    assert!(json.get("response_format").is_none());
}

#[test]
fn string_escaping_survives_a_parse() {
    let tricky = "line1\nline2\t\"quoted\" back\\slash \u{1} end";
    let m = ChatCompletionMessage::new_user(tricky, "");
    let json = parsed(&m.to_json());
    assert_eq!(json["content"].as_str().unwrap(), tricky);
}

fn get_simple_completion_request() -> ChatCompletionRequest {
    let messages = vec![
        ChatCompletionMessage::new_system("I can answer any question you ask me.", ""),
        ChatCompletionMessage::new_user("What is human life expectancy in the world?", "user1"),
    ];
    ChatCompletionRequest::new(ChatCompleteModel::Gpt3Turbo, messages)
}

fn get_tool_completion_request() -> ChatCompletionRequest {
    let messages = vec![
        ChatCompletionMessage::new_system("I can choose the right function for you.", ""),
        ChatCompletionMessage::new_user("What is the weather like in Boston?", "user1"),
    ];
    let tools = vec![
        Tool::new_function(
            "get_weather_forecast",
            "Get the weather forecast for a city.",
            r#"{"type":"object","properties":{"city":{"type":"string"},"unit":{"type":"string"}},"required":["city","unit"]}"#,
        ),
        Tool::new_function(
            "explain_mood",
            "Explain the meaning of the given mood.",
            r#"{"type":"object","properties":{"name":{"type":"string"}},"required":["name"]}"#,
        ),
    ];
    ChatCompletionRequest::new_with_tools(ChatCompleteModel::Gpt3Turbo, messages, tools)
}
