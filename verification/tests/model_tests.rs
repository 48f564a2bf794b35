use async_openai::config::Config as _;
use async_openai::config::OpenAIConfig;
use ferrix::config::Environment;
use ferrix::config::FerrixConfig;
use ferrix::config::Float32;
use ferrix::config::ModelConfig;
use ferrix::config::OpenRouterConfig;
use ferrix::config::PromptCacheConfig;
use ferrix::config::PromptCacheRetention;
use ferrix::config::ReasoningEffort;
use ferrix::json::Json;
use ferrix::model::arguments_value;
use ferrix::model::collect_execution_plans;
use ferrix::model::execution_plan_from_many;
use ferrix::model::openai_config;
use ferrix::model::response_input_items;
use ferrix::model::response_item_for_input;
use ferrix::model::stored_item;
use ferrix::model::streamed;
use ferrix::model::ConversationMessage;
use ferrix::model::InputItem;
use ferrix::model::ModelTurnContext;
use ferrix::model::OpenAiCompatibleModel;
use ferrix::model::OutputItem;
use ferrix::model::PartialToolCall;
use ferrix::model::Role;
use ferrix::model::StreamAccumulator;
use ferrix::model::StreamEvent;
use ferrix::tools::ToolCall;
use ferrix::tools::ToolDefinition;

fn json(text: &str) -> Json {
    Json::parse(text).expect("json")
}

fn float(value: f32) -> Float32 {
    Float32 {
        bits: value.to_bits(),
        shown: format!("{value}"),
    }
}

fn as_f32(value: &Float32) -> f32 {
    f32::from_bits(value.bits)
}

fn test_model() -> OpenAiCompatibleModel {
    OpenAiCompatibleModel {
        client: OpenAIConfig::new().with_api_key("test"),
        provider: "test".to_string(),
        model: "gpt-test".to_string(),
        api_base: "https://api.openai.com/v1".to_string(),
        endpoint: "https://api.openai.com/v1/responses".to_string(),
        api_key: Some("test".to_string()),
        api_key_env_var: "OPENAI_API_KEY",
        reasoning_effort: None,
        max_output_tokens: None,
        temperature: None,
        top_p: None,
        prompt_cache_retention: None,
        prompt_cache_key: None,
        store_responses: false,
    }
}

fn model_config(openrouter: OpenRouterConfig) -> ModelConfig {
    ModelConfig {
        provider: "openrouter".to_string(),
        model: "openai/gpt-5.2".to_string(),
        api_base: "https://openrouter.ai/api/v1".to_string(),
        endpoint: "https://openrouter.ai/api/v1/responses".to_string(),
        api_key: Some("sk-or".to_string()),
        api_key_env_var: "OPENROUTER_API_KEY",
        reasoning_effort: None,
        max_output_tokens: None,
        temperature: None,
        top_p: None,
        openrouter,
        prompt_cache: PromptCacheConfig::default(),
    }
}

fn text_delta_event(delta: &str) -> StreamEvent {
    StreamEvent::TextDelta {
        delta: delta.to_string(),
    }
}

fn text_done_event(text: &str) -> StreamEvent {
    StreamEvent::TextDone {
        text: text.to_string(),
    }
}

fn function_args_delta(delta: &str) -> StreamEvent {
    StreamEvent::ArgumentsDelta {
        output_index: 0,
        delta: delta.to_string(),
    }
}

fn function_args_done(arguments: &str) -> StreamEvent {
    StreamEvent::ArgumentsDone {
        output_index: 0,
        name: Some("read".to_string()),
        item_id: "item_1".to_string(),
        arguments: arguments.to_string(),
    }
}

#[test]
fn response_request_sets_configured_request_options() {
    let model = test_model();
    let model = OpenAiCompatibleModel {
        max_output_tokens: Some(4096),
        temperature: Some(float(0.2)),
        top_p: Some(float(0.9)),
        ..model
    };

    let request = model
        .response_request(
            &[ConversationMessage::user("hello")],
            &[],
            &ModelTurnContext::default(),
        )
        .expect("build request");

    assert_eq!(request.max_output_tokens, Some(4096));
    assert_eq!(request.temperature.as_ref().map(as_f32), Some(0.2));
    assert_eq!(request.top_p.as_ref().map(as_f32), Some(0.9));
}

#[test]
fn missing_provider_api_key_reports_expected_env_var() {
    let model = OpenAiCompatibleModel {
        api_key: None,
        api_key_env_var: "OPENROUTER_API_KEY",
        ..test_model()
    };

    let error = model
        .start_completion(
            &[ConversationMessage::user("hello")],
            &[],
            &ModelTurnContext::default(),
        )
        .expect_err("missing key should fail");

    assert!(error.message().contains("OPENROUTER_API_KEY"));
    assert_eq!(error.message(), "set OPENROUTER_API_KEY to call the model");
}

#[test]
fn openrouter_headers_are_added_when_configured() {
    let config = model_config(OpenRouterConfig {
        referer: Some("https://example.com".to_string()),
        title: Some("Ferrix".to_string()),
        categories: Some("cli-agent".to_string()),
    });

    let client = openai_config(&config).expect("build config");
    let headers = client.headers();

    assert_eq!(
        headers
            .get("HTTP-Referer")
            .expect("referer header")
            .to_str()
            .unwrap(),
        "https://example.com"
    );
    assert_eq!(
        headers
            .get("X-OpenRouter-Title")
            .expect("title header")
            .to_str()
            .unwrap(),
        "Ferrix"
    );
    assert_eq!(
        headers
            .get("X-OpenRouter-Categories")
            .expect("categories header")
            .to_str()
            .unwrap(),
        "cli-agent"
    );
    assert_eq!(client.api_base(), "https://openrouter.ai/api/v1");
    assert_eq!(
        headers
            .get("authorization")
            .expect("key header")
            .to_str()
            .unwrap(),
        "Bearer sk-or"
    );
}

#[test]
fn headers_with_control_characters_are_refused() {
    let none = || OpenRouterConfig::default();
    for (config, message) in [
        (
            OpenRouterConfig {
                referer: Some("a\nb".to_string()),
                ..none()
            },
            "invalid OpenRouter referer header",
        ),
        (
            OpenRouterConfig {
                title: Some("\u{7f}".to_string()),
                ..none()
            },
            "invalid OpenRouter title header",
        ),
        (
            OpenRouterConfig {
                categories: Some("\0".to_string()),
                ..none()
            },
            "invalid OpenRouter categories header",
        ),
    ] {
        let failure =
            OpenAiCompatibleModel::from_config(model_config(config)).expect_err("bad header");
        assert_eq!(
            failure.chain,
            vec![
                message.to_string(),
                "invalid args: Invalid header value: failed to parse header value".to_string()
            ]
        );
    }
    let fine = OpenRouterConfig {
        title: Some("tab\tand é".to_string()),
        ..none()
    };
    let model = OpenAiCompatibleModel::from_config(model_config(fine)).expect("good header");
    assert_eq!(
        model
            .client
            .headers()
            .get("x-openrouter-title")
            .expect("title")
            .as_bytes(),
        "tab\tand é".as_bytes()
    );
    assert!(model.client.headers().get("http-referer").is_none());
}

#[test]
fn models_come_from_the_configuration_and_the_environment() {
    let mut env = Environment::new();
    env.set("FERRIX_MODEL", "m", Err("no number".to_string()));
    let nothing = || FerrixConfig {
        model: None,
        ui: None,
    };
    let model = OpenAiCompatibleModel::from_workspace_with_cache_key(
        nothing(),
        &env,
        Some("key".to_string()),
    )
    .expect("model");
    assert_eq!(model.metadata().model, "m");
    assert_eq!(
        model.metadata().to_json().to_text(),
        "{\"endpoint\":\"https://api.openai.com/v1/responses\",\"model\":\"m\",\"provider\":\"openai-compatible\"}"
    );
    assert_eq!(
        model.prompt_cache_settings().to_json().to_text(),
        "{\"key\":\"key\",\"retention\":null,\"store_responses\":false}"
    );
    assert!(!model.store_responses());
    let model = OpenAiCompatibleModel::from_workspace(nothing(), &env).expect("model");
    assert_eq!(model.prompt_cache_key, None);
    env.set("FERRIX_BASE_URL", "/", Err("no number".to_string()));
    assert!(OpenAiCompatibleModel::from_workspace(nothing(), &env).is_err());
}

#[test]
fn response_request_sets_prompt_cache_options() {
    let model = OpenAiCompatibleModel {
        prompt_cache_retention: Some(PromptCacheRetention::Hours24),
        prompt_cache_key: Some("session-key".to_string()),
        store_responses: true,
        ..test_model()
    };

    let request = model
        .response_request(
            &[ConversationMessage::user("hello")],
            &[],
            &ModelTurnContext {
                previous_response_id: Some("resp_prev".to_string()),
                incremental: true,
            },
        )
        .expect("build request");

    assert_eq!(
        request.prompt_cache_retention,
        Some(PromptCacheRetention::Hours24)
    );
    assert_eq!(request.prompt_cache_key.as_deref(), Some("session-key"));
    assert!(request.store);
    assert_eq!(request.previous_response_id.as_deref(), Some("resp_prev"));
    assert_eq!(
        model.prompt_cache_settings().retention.as_deref(),
        Some("24h")
    );
}

#[test]
fn response_request_disables_remote_storage_by_default() {
    let model = test_model();

    let request = model
        .response_request(
            &[ConversationMessage::user("hello")],
            &[],
            &ModelTurnContext::default(),
        )
        .expect("build request");

    assert!(request.stream);
    assert!(!request.store);
    assert!(request.tools.is_none());
    assert!(!request.auto_tool_choice);
}

#[test]
fn response_request_sets_configured_reasoning_effort() {
    let model = OpenAiCompatibleModel {
        reasoning_effort: Some(ReasoningEffort::Low),
        ..test_model()
    };

    let request = model
        .response_request(
            &[ConversationMessage::user("hello")],
            &[],
            &ModelTurnContext::default(),
        )
        .expect("build request");

    assert_eq!(request.reasoning_effort, Some(ReasoningEffort::Low));
}

#[test]
fn response_request_enables_strict_function_tools() {
    let model = test_model();
    let tools = vec![ToolDefinition {
        name: "read".to_string(),
        description: "Read a file".to_string(),
        parameters: json(
            r#"{
                "type": "object",
                "properties": {
                    "path": { "type": "string" }
                },
                "required": ["path"],
                "additionalProperties": false
            }"#,
        ),
    }];

    let request = model
        .response_request(
            &[ConversationMessage::user("hello")],
            &tools,
            &ModelTurnContext::default(),
        )
        .expect("build request");
    let offered = request.tools.expect("tools");

    assert!(offered[0].strict);
    assert_eq!(offered[0].name, "read");
    assert_eq!(
        offered[0].parameters.to_text(),
        tools[0].parameters.to_text()
    );
    assert!(request.auto_tool_choice);
}

#[test]
fn strips_response_item_ids_before_replay() {
    let item = response_item_for_input(json(
        r#"{
            "type": "reasoning",
            "id": "rs_123",
            "summary": []
        }"#,
    ))
    .into_value();

    assert_eq!(item["type"], "reasoning");
    assert!(item.get("id").is_none());
}

#[test]
fn includes_usage_from_completed_stream() {
    let mut accumulator = StreamAccumulator::default();
    accumulator
        .apply_event(text_delta_event("done"))
        .expect("text delta");
    accumulator.set_usage(Some(json(
        r#"{
            "input_tokens": 12,
            "input_tokens_details": { "cached_tokens": 3 },
            "output_tokens": 7,
            "output_tokens_details": { "reasoning_tokens": 4 },
            "total_tokens": 19
        }"#,
    )));

    let response = accumulator.finish().expect("finish response");

    assert_eq!(response.usage.unwrap().into_value()["total_tokens"], 19);
}

#[test]
fn builds_response_input_items_for_tool_round() {
    let messages = vec![
        ConversationMessage::assistant_tool_calls(
            None,
            vec![ToolCall {
                call_id: "call_1".to_string(),
                item_id: Some("fc_1".to_string()),
                name: "read".to_string(),
                arguments: json(r#"{ "path": "src/main.rs" }"#),
            }],
            Vec::new(),
        ),
        ConversationMessage::tool_result("call_1", "{\"ok\":true}"),
    ];

    let items = response_input_items(&messages).expect("convert messages");

    assert_eq!(items.len(), 2);
    assert!(matches!(items[0], InputItem::FunctionCall { .. }));
    assert!(matches!(items[1], InputItem::FunctionCallOutput { .. }));
}

#[test]
fn replays_tool_calls_with_item_ids_before_tool_results() {
    let messages = vec![
        ConversationMessage::assistant_tool_calls(
            None,
            vec![ToolCall {
                call_id: "call_1".to_string(),
                item_id: Some("fc_1".to_string()),
                name: "tool_search".to_string(),
                arguments: json(r#"{ "query": "buildkite", "limit": 10 }"#),
            }],
            vec![json(
                r#"{
                    "type": "function_call",
                    "call_id": "call_1",
                    "name": "tool_search",
                    "arguments": "{\"query\":\"buildkite\",\"limit\":10}"
                }"#,
            )],
        ),
        ConversationMessage::tool_result("call_1", "{\"ok\":true}"),
    ];

    let items = response_input_items(&messages).expect("convert messages");

    assert_eq!(items.len(), 2);
    let InputItem::FunctionCall {
        call_id,
        id,
        arguments,
        ..
    } = &items[0]
    else {
        panic!("first item should be a function call");
    };
    assert_eq!(id.as_deref(), Some("fc_1"));
    assert_eq!(call_id, "call_1");
    assert_eq!(arguments, "{\"limit\":10,\"query\":\"buildkite\"}");
    assert!(matches!(items[1], InputItem::FunctionCallOutput { .. }));
}

#[test]
fn messages_become_parts_of_a_request() {
    let messages = vec![
        ConversationMessage::system("be brief"),
        ConversationMessage::user("hi"),
        ConversationMessage::assistant("hello"),
        ConversationMessage::assistant(""),
    ];
    let items = response_input_items(&messages).expect("convert messages");
    assert_eq!(items.len(), 3);
    for (item, expected) in items.iter().zip([Role::System, Role::User, Role::Assistant]) {
        let InputItem::Message { role, .. } = item else {
            panic!("a message");
        };
        assert_eq!(*role, expected);
    }

    let later = vec![ConversationMessage::tool_result("call", "x")];
    let joined: Vec<ConversationMessage> =
        messages.iter().chain(later.iter()).cloned().collect();
    assert_eq!(
        format!("{:?}", response_input_items(&joined).expect("joined")),
        format!(
            "{:?}",
            items
                .into_iter()
                .chain(response_input_items(&later).expect("later"))
                .collect::<Vec<_>>()
        )
    );

    let reasoning = json(r#"{"type":"reasoning","id":"rs_1","summary":[]}"#);
    let stored = ConversationMessage::assistant_tool_calls(
        Some("text".to_string()),
        Vec::new(),
        vec![reasoning],
    );
    let items = response_input_items(&[stored]).expect("stored item");
    assert_eq!(items.len(), 2);
    assert!(matches!(&items[1], InputItem::Stored(item) if item.to_text().contains("rs_1")));
}

#[test]
fn messages_that_cannot_be_sent_are_reported() {
    let stored =
        ConversationMessage::assistant_tool_calls(None, Vec::new(), vec![json("{\"type\":1}")]);
    let failure =
        response_input_items(&[ConversationMessage::user("a"), stored]).expect_err("no item");
    assert_eq!(failure.chain.len(), 2);
    assert_eq!(failure.message(), "failed to parse stored response item");

    let mut orphan = ConversationMessage::tool_result("call", "x");
    orphan.tool_call_id = None;
    assert_eq!(
        response_input_items(&[orphan]).expect_err("orphan").message(),
        "tool message missing tool_call_id"
    );
    let mut odd = ConversationMessage::user("x");
    odd.role = "poet".to_string();
    assert_eq!(
        response_input_items(&[odd]).expect_err("odd").message(),
        "unsupported conversation role `poet`"
    );
    let failure = stored_item(Json::Null, Err("why".to_string())).expect_err("refused");
    assert_eq!(failure.chain[1], "why");
    assert!(stored_item(Json::Null, Ok(())).is_ok());
}

#[test]
fn assembles_streamed_text_response() {
    let mut text = String::new();
    let mut accumulator = StreamAccumulator::default();

    for event in [
        text_delta_event("hel"),
        text_delta_event("lo"),
        text_done_event("hello"),
    ] {
        if let Some(delta) = streamed(&event) {
            text.push_str(delta);
        }
        accumulator.apply_event(event).expect("chunk");
    }

    let response = accumulator.finish().expect("finish response");

    assert_eq!(text, "hello");
    assert_eq!(response.content.as_deref(), Some("hello"));
    assert!(response.tool_calls.is_empty());
}

#[test]
fn assembles_streamed_tool_call_response() {
    let mut accumulator = StreamAccumulator::default();
    accumulator
        .apply_event(StreamEvent::OutputItem {
            output_index: 0,
            item: OutputItem::FunctionCall {
                value: Some(json(
                    r#"{
                        "type": "function_call",
                        "arguments": "",
                        "call_id": "call_1",
                        "name": "read",
                        "id": "item_1",
                        "status": "in_progress"
                    }"#,
                )),
                call_id: "call_1".to_string(),
                id: Some("item_1".to_string()),
                name: "read".to_string(),
                arguments: String::new(),
            },
        })
        .expect("item added");
    accumulator
        .apply_event(function_args_delta("{\"path\""))
        .expect("argument delta");
    accumulator
        .apply_event(function_args_done("{\"path\":\"src/main.rs\"}"))
        .expect("arguments done");

    let mut response = accumulator.finish().expect("finish response");

    assert_eq!(response.tool_calls[0].call_id, "call_1");
    assert_eq!(response.tool_calls[0].item_id.as_deref(), Some("item_1"));
    assert_eq!(response.tool_calls[0].name, "read");
    assert_eq!(
        response.tool_calls[0].arguments.clone().into_value()["path"],
        "src/main.rs"
    );
    assert_eq!(response.response_items.len(), 1);
    let item = response.response_items.remove(0).into_value();
    assert_eq!(item["type"], "function_call");
    assert_eq!(item["call_id"], "call_1");
    assert!(item.get("id").is_none());
}

#[test]
fn extracts_execution_plan_payloads() {
    let response = json(
        r#"{
            "execution_plan": { "steps": ["inspect", "edit"] },
            "output": [{
                "type": "message",
                "content": [{
                    "type": "output_text",
                    "text": "done"
                }]
            }]
        }"#,
    );

    let mut plans = Vec::new();
    collect_execution_plans(&response, &mut plans);
    let plan = execution_plan_from_many(plans).expect("extract plan");

    assert_eq!(plan.into_value()["steps"][0], "inspect");
}

#[test]
fn plans_are_found_at_every_depth() {
    let value = json(
        r#"{
            "a": [{ "type": "execution_plan", "n": 1, "execution_plan": 2 }],
            "execution_plan": [{ "execution_plan": 3 }]
        }"#,
    );
    let mut plans = Vec::new();
    collect_execution_plans(&value, &mut plans);
    let texts: Vec<String> = plans.iter().map(Json::to_text).collect();
    assert_eq!(
        texts,
        vec![
            "[{\"execution_plan\":3}]",
            "2",
            "{\"execution_plan\":2,\"n\":1,\"type\":\"execution_plan\"}",
            "3",
        ]
    );
    let all = execution_plan_from_many(plans).expect("plans");
    assert_eq!(all.into_value().as_array().map(Vec::len), Some(4));
    assert!(execution_plan_from_many(Vec::new()).is_none());

    let mut accumulator = StreamAccumulator::default();
    accumulator.collect_plans(&value);
    accumulator
        .apply_event(text_delta_event("x"))
        .expect("text");
    let response = accumulator.finish().expect("response");
    assert_eq!(
        response
            .execution_plan
            .expect("plan")
            .into_value()
            .as_array()
            .map(Vec::len),
        Some(4)
    );
}

#[test]
fn captures_response_id_from_completed_stream() {
    let mut accumulator = StreamAccumulator::default();
    accumulator
        .apply_event(text_delta_event("hello"))
        .expect("text delta");
    accumulator
        .apply_event(StreamEvent::Completed {
            response_id: "resp_123".to_string(),
            usage: None,
        })
        .expect("completed event");

    let response = accumulator.finish().expect("finish response");

    assert_eq!(response.response_id.as_deref(), Some("resp_123"));
}

#[test]
fn calls_keep_their_first_identifier_and_their_place() {
    let item = |call_id: &str, name: &str| OutputItem::FunctionCall {
        value: None,
        call_id: call_id.to_string(),
        id: None,
        name: name.to_string(),
        arguments: " ".to_string(),
    };
    let mut accumulator = StreamAccumulator::default();
    accumulator.apply_output_item(2, item("first", "two"));
    accumulator.apply_output_item(2, item("second", "too"));
    accumulator
        .apply_event(StreamEvent::ArgumentsDone {
            output_index: 4,
            name: Some("four".to_string()),
            item_id: "fc_4".to_string(),
            arguments: "not json".to_string(),
        })
        .expect("arguments");
    accumulator
        .apply_event(StreamEvent::OutputItem {
            output_index: 1,
            item: OutputItem::Reasoning {
                value: Some(json("{\"id\":\"rs\",\"type\":\"reasoning\"}")),
            },
        })
        .expect("reasoning");
    accumulator
        .apply_event(StreamEvent::Other)
        .expect("anything else");
    assert_eq!(accumulator.call_places(), 5);
    let fresh = (0..5).map(|n| format!("fresh_{n}")).collect();
    let response = accumulator.finish_with_ids(fresh).expect("response");
    assert_eq!(response.content, None);
    assert_eq!(response.tool_calls.len(), 2);
    assert_eq!(response.tool_calls[0].call_id, "first");
    assert_eq!(response.tool_calls[0].name, "too");
    assert_eq!(response.tool_calls[0].arguments.to_text(), "{}");
    assert_eq!(response.tool_calls[1].call_id, "fresh_4");
    assert_eq!(response.tool_calls[1].item_id.as_deref(), Some("fc_4"));
    assert_eq!(
        response.tool_calls[1].arguments.to_text(),
        "{\"raw_arguments\":\"not json\"}"
    );
    assert_eq!(response.response_items.len(), 1);
    assert_eq!(
        response.response_items[0].to_text(),
        "{\"type\":\"reasoning\"}"
    );
}

#[test]
fn calls_without_an_identifier_get_one() {
    let call = PartialToolCall {
        call_id: None,
        item_id: None,
        name: "read".to_string(),
        arguments: "{\"a\":1}".to_string(),
    };
    let done = call.finish();
    assert_eq!(done.call_id.len(), 36);
    assert_eq!(done.arguments.to_text(), "{\"a\":1}");
    let known = PartialToolCall {
        call_id: Some("c".to_string()),
        ..Default::default()
    };
    assert_eq!(known.finish().call_id, "c");
    assert_eq!(arguments_value("x", Ok(Json::Null)).to_text(), "null");
    assert_eq!(arguments_value("", Ok(Json::Null)).to_text(), "{}");
}

#[test]
fn failures_in_the_stream_are_reported() {
    let text = |s: &str| s.to_string();
    for (event, words) in [
        (
            StreamEvent::Failed { error: text("None") },
            "model response failed: None",
        ),
        (
            StreamEvent::Incomplete { details: text("Some(1)") },
            "model response incomplete: Some(1)",
        ),
        (
            StreamEvent::Error { message: text("lost") },
            "model stream error: lost",
        ),
    ] {
        let mut accumulator = StreamAccumulator::default();
        let failure = accumulator.apply_event(event).expect_err("failure");
        assert_eq!(failure.chain, vec![words.to_string()]);
        assert_eq!(
            accumulator.finish().expect_err("nothing came").message(),
            "model response contained neither content nor tool calls"
        );
    }
}

#[test]
fn usage_stays_unless_it_is_reported_again() {
    let mut accumulator = StreamAccumulator::default();
    accumulator.apply_event(text_delta_event("x")).expect("text");
    accumulator
        .apply_event(StreamEvent::Completed {
            response_id: "a".to_string(),
            usage: Some(Some(json("{\"total_tokens\":1}"))),
        })
        .expect("completed");
    accumulator
        .apply_event(StreamEvent::Completed {
            response_id: "b".to_string(),
            usage: None,
        })
        .expect("completed");
    let response = accumulator.finish().expect("response");
    assert_eq!(response.response_id.as_deref(), Some("b"));
    assert_eq!(
        response.usage.expect("usage").to_text(),
        "{\"total_tokens\":1}"
    );
}
