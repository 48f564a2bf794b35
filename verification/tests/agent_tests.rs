use std::collections::VecDeque;

use ferrix::agent::initial_history;
use ferrix::agent::initial_history_with_mcp;
use ferrix::agent::terminal_tag;
use ferrix::agent::tool_completed;
use ferrix::agent::usage_u64;
use ferrix::agent::AgentEvent;
use ferrix::agent::ModelUsageTotals;
use ferrix::agent::RunTurnError;
use ferrix::agent::RunTurnResult;
use ferrix::agent::SessionStats;
use ferrix::agent::ToolUsageTotals;
use ferrix::agent::TurnStats;
use ferrix::agent::MAX_AGENT_ITERATIONS;
use ferrix::failure::Failure;
use ferrix::json::Json;
use ferrix::mcp::McpServerInstructions;
use ferrix::model::ConversationMessage;
use ferrix::model::ModelMetadata;
use ferrix::model::ModelResponse;
use ferrix::model::PromptCacheSettings;
use ferrix::runs::RunRecorder;
use ferrix::tools::ToolCall;
use ferrix::tools::ToolRegistry;
use ferrix::tools::ToolResult;
use ferrix::turn::ModelAnswer;
use ferrix::turn::Turn;
use ferrix::turn::TurnAction;
use ferrix::turn::TurnEvent;
use serde_json::Value;

#[derive(Debug, Clone, PartialEq, Eq)]
struct CapturedRequest {
    message_count: usize,
    incremental: bool,
    previous_response_id: Option<String>,
}

struct MockModel {
    responses: VecDeque<Result<ModelResponse, Failure>>,
    store_responses: bool,
    captured_requests: Vec<CapturedRequest>,
}

impl MockModel {
    fn new(responses: Vec<ModelResponse>) -> Self {
        Self {
            responses: responses.into_iter().map(Ok).collect(),
            store_responses: false,
            captured_requests: Vec::new(),
        }
    }

    fn with_store_responses(responses: Vec<ModelResponse>) -> Self {
        Self {
            store_responses: true,
            ..Self::new(responses)
        }
    }
}

#[derive(Default)]
struct Log {
    streamed: String,
    lines: Vec<String>,
    events: Vec<AgentEvent>,
}

impl Log {
    fn records(&self) -> Vec<Value> {
        self.lines
            .iter()
            .map(|line| serde_json::from_str::<Value>(line).expect("parse event"))
            .collect()
    }
}

fn run_turn(
    model: &mut MockModel,
    user_input: &str,
    history: &mut Vec<ConversationMessage>,
    session_last_response_id: &mut Option<String>,
    log: &mut Log,
) -> Result<RunTurnResult, RunTurnError> {
    let tools = ToolRegistry::new("/workspace".to_string());
    let recorder = RunRecorder::new("/workspace");
    let metadata = ModelMetadata {
        provider: "test".to_string(),
        model: "test".to_string(),
        endpoint: "test".to_string(),
    };
    let prompt_cache = PromptCacheSettings {
        retention: None,
        key: None,
        store_responses: model.store_responses,
    };
    let mut turn = Turn::new(
        user_input,
        metadata,
        prompt_cache,
        model.store_responses,
        tools.definitions().len(),
        session_last_response_id,
    );
    loop {
        let event = match turn.action(history) {
            TurnAction::Record { kind, payload } => {
                log.lines.push(recorder.record(1, kind, payload));
                TurnEvent::Done
            }
            TurnAction::Emit(event) => {
                log.events.push(event);
                TurnEvent::Done
            }
            TurnAction::CallModel { messages, context } => {
                model.captured_requests.push(CapturedRequest {
                    message_count: messages.len(),
                    incremental: context.incremental,
                    previous_response_id: context.previous_response_id,
                });
                match model.responses.pop_front().expect("mock response") {
                    Ok(response) => TurnEvent::ModelAnswered(ModelAnswer {
                        streamed_text: response.content.clone().unwrap_or_default(),
                        response,
                        duration_ms: 3,
                    }),
                    Err(failure) => TurnEvent::ModelFailed(failure),
                }
            }
            TurnAction::ExecuteTool(call) => {
                let outcome = match tools.dispatch(&call) {
                    Ok(kind) => panic!("{kind:?} is not run here"),
                    Err(error) => Err(error),
                };
                TurnEvent::ToolFinished {
                    result: tools.execute(&call, outcome),
                    duration_ms: 2,
                }
            }
            TurnAction::Deliver { text } => {
                log.streamed.push_str(&text);
                TurnEvent::Done
            }
            TurnAction::Finish(result) => return Ok(result),
            TurnAction::Fail(error) => return Err(error),
        };
        assert!(turn.accepts(&event));
        turn = turn.advance(history, session_last_response_id, event);
    }
}

fn json(text: &str) -> Json {
    Json::parse(text).expect("json")
}

fn unknown_call(n: usize) -> ToolCall {
    ToolCall {
        call_id: format!("call_{n}"),
        item_id: Some(format!("fc_{n}")),
        name: "unknown".to_string(),
        arguments: json("{}"),
    }
}

fn answer(content: &str, response_id: Option<&str>) -> ModelResponse {
    ModelResponse {
        content: Some(content.to_string()),
        tool_calls: Vec::new(),
        response_items: Vec::new(),
        usage: None,
        execution_plan: None,
        response_id: response_id.map(str::to_string),
    }
}

fn tool_answer(response_id: Option<&str>) -> ModelResponse {
    ModelResponse {
        tool_calls: vec![unknown_call(1)],
        ..answer("tool preface", response_id)
    }
}

#[test]
fn initial_history_includes_mcp_server_instructions() {
    let history = initial_history_with_mcp(&[McpServerInstructions {
        server: "buildkite".to_string(),
        instructions: "Check builds before retrying jobs.".to_string(),
    }]);

    assert_eq!(history.len(), 1);
    let content = history[0].content.as_deref().expect("system prompt");
    assert!(content.contains("You are Ferrix"));
    assert!(content.contains("MCP server instructions provided at startup"));
    assert!(content.contains("Server: buildkite"));
    assert!(content.contains("Check builds before retrying jobs."));
    assert!(content.ends_with(
        "or user instructions.\n\nServer: buildkite\nCheck builds before retrying jobs."
    ));
}

#[test]
fn initial_history_omits_mcp_section_when_empty() {
    let history = initial_history();

    assert_eq!(history.len(), 1);
    let content = history[0].content.as_deref().expect("system prompt");
    assert!(content.contains("You are Ferrix"));
    assert!(!content.contains("MCP server instructions provided at startup"));
    assert!(content.starts_with(
        "You are Ferrix, a small coding agent. Use tools when you need to inspect, modify, or run the project. Prefer exact"
    ));
}

#[test]
fn suppresses_streamed_text_from_tool_call_iterations() {
    let mut model = MockModel::new(vec![
        ModelResponse {
            response_items: vec![json(
                r#"{
                    "type": "function_call",
                    "id": "fc_1",
                    "call_id": "call_1",
                    "name": "unknown",
                    "arguments": "{}"
                }"#,
            )],
            usage: Some(json(
                r#"{
                    "input_tokens": 10,
                    "output_tokens": 5,
                    "total_tokens": 15,
                    "input_tokens_details": { "cached_tokens": 3 },
                    "output_tokens_details": { "reasoning_tokens": 4 }
                }"#,
            )),
            ..tool_answer(Some("resp_tool"))
        },
        answer("final answer", Some("resp_final")),
    ]);
    let mut history = initial_history();
    let mut session_last_response_id = None;
    let mut log = Log::default();

    let result = run_turn(
        &mut model,
        "hello",
        &mut history,
        &mut session_last_response_id,
        &mut log,
    )
    .expect("run turn");

    assert_eq!(result.answer, "final answer");
    assert_eq!(result.stats.model_usage.model_calls, 2);
    assert_eq!(result.stats.tool_usage.tool_calls, 1);
    assert_eq!(result.stats.tool_usage.failed_tool_calls, 1);
    assert_eq!(log.streamed, "final answer");
    assert_eq!(session_last_response_id, None);
    assert!(log.events.iter().any(|event| {
        matches!(
            event,
            AgentEvent::ToolCompleted {
                tag,
                ok: false,
                ..
            } if tag == "[TOOL:unknown]"
        )
    }));

    let events = log.records();
    let kinds: Vec<&str> = events
        .iter()
        .map(|event| event["kind"].as_str().expect("kind"))
        .collect();
    assert_eq!(
        kinds,
        vec![
            "run_started",
            "model_request",
            "model_response",
            "tool_call",
            "tool_result",
            "model_request",
            "model_response",
            "run_completed"
        ]
    );
    let started_event = &events[0];
    assert_eq!(
        started_event["payload"]["prompt_cache"]["store_responses"],
        false
    );

    let tool_response_event = events
        .iter()
        .find(|event| {
            event["kind"] == "model_response"
                && event["payload"]["tool_call_count"].as_u64() == Some(1)
        })
        .expect("tool response event");

    assert_eq!(
        tool_response_event["payload"]["tool_calls"][0]["call_id"],
        "call_1"
    );
    assert_eq!(
        tool_response_event["payload"]["response_items"][0]["type"],
        "function_call"
    );
    assert!(tool_response_event["payload"]["duration_ms"]
        .as_u64()
        .is_some());
    assert_eq!(tool_response_event["payload"]["usage"]["total_tokens"], 15);

    let completed_event = events
        .iter()
        .find(|event| event["kind"] == "run_completed")
        .expect("run completed event");
    let payload = &completed_event["payload"];
    assert_eq!(payload["status"], "completed");
    assert_eq!(payload["model_usage"]["model_calls"], 2);
    assert!(payload["model_usage"]["duration_ms"].as_u64().is_some());
    assert_eq!(payload["model_usage"]["input_tokens"], 10);
    assert_eq!(payload["model_usage"]["output_tokens"], 5);
    assert_eq!(payload["model_usage"]["total_tokens"], 15);
    assert_eq!(payload["model_usage"]["cached_input_tokens"], 3);
    assert_eq!(payload["model_usage"]["reasoning_tokens"], 4);
    assert_eq!(
        payload["model_usage"]["missing_usage_iterations"],
        json("[2]").into_value()
    );

    let roles: Vec<&str> = history.iter().map(|m| m.role.as_str()).collect();
    assert_eq!(
        roles,
        vec!["system", "user", "assistant", "tool", "assistant"]
    );
    assert_eq!(history[3].tool_call_id.as_deref(), Some("call_1"));
    assert_eq!(
        history[3].content.as_deref(),
        Some("{\"error\":\"unknown tool `unknown`\"}")
    );
}

#[test]
fn records_model_usage_totals_on_max_iteration_failure() {
    let responses = (1..=MAX_AGENT_ITERATIONS)
        .map(|iteration| ModelResponse {
            content: Some(format!("tool preface {iteration}")),
            tool_calls: vec![unknown_call(iteration)],
            response_items: vec![json(&format!(
                r#"{{
                    "type": "function_call",
                    "id": "fc_{iteration}",
                    "call_id": "call_{iteration}",
                    "name": "unknown",
                    "arguments": "{{}}"
                }}"#
            ))],
            usage: Some(json(&format!(
                r#"{{
                    "input_tokens": {iteration},
                    "output_tokens": 1,
                    "total_tokens": {}
                }}"#,
                iteration + 1
            ))),
            execution_plan: None,
            response_id: None,
        })
        .collect();
    let mut model = MockModel::new(responses);
    let mut history = initial_history();
    let mut session_last_response_id = None;
    let mut log = Log::default();

    let error = run_turn(
        &mut model,
        "hello",
        &mut history,
        &mut session_last_response_id,
        &mut log,
    )
    .expect_err("max iteration error");

    assert_eq!(
        error.source.message(),
        format!("agent reached the maximum of {MAX_AGENT_ITERATIONS} iterations")
    );
    assert_eq!(error.stats.model_usage.model_calls, MAX_AGENT_ITERATIONS);
    assert_eq!(error.stats.tool_usage.tool_calls, MAX_AGENT_ITERATIONS);
    assert_eq!(
        error.stats.tool_usage.failed_tool_calls,
        MAX_AGENT_ITERATIONS
    );

    let events = log.records();
    let completed_event = events
        .iter()
        .find(|event| event["kind"] == "run_completed")
        .expect("run completed event");

    let payload = &completed_event["payload"];
    assert_eq!(payload["status"], "failed");
    assert_eq!(payload["reason"], "maximum agent iterations reached");
    assert_eq!(payload["model_usage"]["model_calls"], MAX_AGENT_ITERATIONS);
    assert_eq!(payload["model_usage"]["input_tokens"], 136);
    assert_eq!(payload["model_usage"]["output_tokens"], MAX_AGENT_ITERATIONS);
    assert_eq!(payload["model_usage"]["total_tokens"], 152);
    assert_eq!(
        payload["model_usage"]["missing_usage_iterations"],
        json("[]").into_value()
    );
    assert_eq!(log.streamed, "");
}

#[test]
fn uses_incremental_messages_when_store_responses_enabled() {
    let mut model = MockModel::with_store_responses(vec![
        tool_answer(Some("resp_tool")),
        answer("final answer", Some("resp_final")),
    ]);
    let mut history = initial_history();
    let mut session_last_response_id = None;
    let mut log = Log::default();

    let result = run_turn(
        &mut model,
        "hello",
        &mut history,
        &mut session_last_response_id,
        &mut log,
    )
    .expect("run turn");

    assert_eq!(result.answer, "final answer");
    let captured = &model.captured_requests;
    let requests: Vec<Value> = log
        .records()
        .into_iter()
        .filter(|event| event["kind"] == "model_request")
        .map(|event| event["payload"].clone())
        .collect();
    assert_eq!(captured.len(), 2);
    assert_eq!(captured[0].message_count, 2);
    assert!(requests[0]["tool_count"].as_u64() > Some(0));
    assert!(!captured[0].incremental);
    assert_eq!(captured[0].previous_response_id, None);
    assert_eq!(captured[1].message_count, 1);
    assert_eq!(requests[1]["tool_count"], requests[0]["tool_count"]);
    assert!(captured[1].incremental);
    assert_eq!(
        captured[1].previous_response_id.as_deref(),
        Some("resp_tool")
    );
    assert_eq!(requests[1]["message_count"], 1);
    assert_eq!(requests[1]["previous_response_id"], "resp_tool");
    assert_eq!(session_last_response_id.as_deref(), Some("resp_final"));

    model.responses.push_back(Ok(answer("more", None)));
    run_turn(
        &mut model,
        "again",
        &mut history,
        &mut session_last_response_id,
        &mut log,
    )
    .expect("second turn");
    assert_eq!(
        model.captured_requests[2].previous_response_id.as_deref(),
        Some("resp_final")
    );
    assert!(!model.captured_requests[2].incremental);
    assert_eq!(session_last_response_id, None);
}

#[test]
fn does_not_chain_response_ids_when_store_responses_disabled() {
    let mut model = MockModel::new(vec![
        answer("first", Some("resp_first")),
        answer("second", Some("resp_second")),
    ]);
    let mut history = initial_history();
    let mut session_last_response_id = None;
    let mut log = Log::default();

    for input in ["one", "two"] {
        run_turn(
            &mut model,
            input,
            &mut history,
            &mut session_last_response_id,
            &mut log,
        )
        .expect("turn");
    }

    assert_eq!(session_last_response_id, None);
    assert_eq!(
        model
            .captured_requests
            .into_iter()
            .map(|request| request.previous_response_id)
            .collect::<Vec<_>>(),
        vec![None, None]
    );
}

#[test]
fn falls_back_to_full_history_when_store_response_id_is_missing() {
    let mut model = MockModel::with_store_responses(vec![
        tool_answer(None),
        answer("final answer", Some("resp_final")),
    ]);
    let mut history = initial_history();
    let mut session_last_response_id = None;
    let mut log = Log::default();

    run_turn(
        &mut model,
        "hello",
        &mut history,
        &mut session_last_response_id,
        &mut log,
    )
    .expect("run turn");

    let captured = &model.captured_requests;
    assert_eq!(captured.len(), 2);
    assert_eq!(captured[0].message_count, 2);
    assert!(!captured[0].incremental);
    assert_eq!(captured[0].previous_response_id, None);
    assert_eq!(captured[1].message_count, 4);
    let tool_counts: Vec<Value> = log
        .records()
        .into_iter()
        .filter(|event| event["kind"] == "model_request")
        .map(|event| event["payload"]["tool_count"].clone())
        .collect();
    assert!(tool_counts[0].as_u64() > Some(0));
    assert_eq!(tool_counts[1], tool_counts[0]);
    assert!(!captured[1].incremental);
    assert_eq!(captured[1].previous_response_id, None);
}

#[test]
fn model_failures_end_the_turn_behind_a_record() {
    let mut model = MockModel::new(vec![tool_answer(None)]);
    model.responses.push_back(Err(Failure::caused(
        "model request failed".to_string(),
        "no route".to_string(),
    )));
    let mut history = initial_history();
    let mut session_last_response_id = Some("kept".to_string());
    let mut log = Log::default();

    let error = run_turn(
        &mut model,
        "hello",
        &mut history,
        &mut session_last_response_id,
        &mut log,
    )
    .expect_err("model failure");

    assert_eq!(
        error.source.chain,
        vec!["model completion failed", "model request failed", "no route"]
    );
    assert_eq!(error.stats.model_usage.model_calls, 1);
    assert_eq!(session_last_response_id.as_deref(), Some("kept"));
    assert_eq!(history.len(), 4);
    let last = log.records().pop().expect("record");
    assert_eq!(last["kind"], "run_completed");
    assert_eq!(last["payload"]["reason"], "model completion failed");
    assert_eq!(last["payload"]["model_usage"]["model_calls"], 1);
}

#[test]
fn plans_are_recorded_before_the_answer() {
    let mut model = MockModel::new(vec![ModelResponse {
        execution_plan: Some(json("{\"steps\":[1]}")),
        content: None,
        ..answer("", None)
    }]);
    let mut history = initial_history();
    let mut log = Log::default();
    let result = run_turn(&mut model, "hello", &mut history, &mut None, &mut log).expect("turn");
    assert_eq!(result.answer, "");
    assert_eq!(log.streamed, "");
    let records = log.records();
    assert_eq!(records[2]["kind"], "execution_plan");
    assert_eq!(records[2]["payload"]["extra"]["steps"][0], 1);
    assert_eq!(records[3]["payload"]["has_execution_plan"], true);
    assert_eq!(records[3]["payload"]["content"], Value::Null);
    assert_eq!(records[4]["payload"]["answer"], "");
}

#[test]
fn calls_of_one_answer_run_in_order() {
    let mut model = MockModel::with_store_responses(vec![
        ModelResponse {
            tool_calls: vec![unknown_call(1), unknown_call(2), unknown_call(3)],
            ..answer("", Some("resp"))
        },
        answer("done", None),
    ]);
    let mut history = initial_history();
    let mut log = Log::default();
    let result = run_turn(&mut model, "hello", &mut history, &mut None, &mut log).expect("turn");
    let ids: Vec<&str> = history
        .iter()
        .filter_map(|message| message.tool_call_id.as_deref())
        .collect();
    assert_eq!(ids, vec!["call_1", "call_2", "call_3"]);
    assert_eq!(model.captured_requests[1].message_count, 3);
    assert_eq!(result.stats.tool_usage.tool_calls, 3);
    assert_eq!(result.stats.tool_usage.duration_ms, 6);
    assert_eq!(result.stats.model_usage.duration_ms, 6);
    assert_eq!(log.events.len(), 2 + 6 + 2);
}

#[test]
fn events_must_fit_the_last_action() {
    let settings = || PromptCacheSettings {
        retention: None,
        key: None,
        store_responses: false,
    };
    let metadata = || ModelMetadata {
        provider: "p".to_string(),
        model: "m".to_string(),
        endpoint: "e".to_string(),
    };
    let turn = Turn::new("hi", metadata(), settings(), false, 0, &None);
    assert!(turn.accepts(&TurnEvent::Done));
    assert!(!turn.accepts(&TurnEvent::ModelFailed(Failure::new("x".to_string()))));
    let mut history = Vec::new();
    let mut session = None;
    let mut turn = turn.advance(&mut history, &mut session, TurnEvent::Done);
    turn = turn.advance(&mut history, &mut session, TurnEvent::Done);
    turn = turn.advance(&mut history, &mut session, TurnEvent::Done);
    assert!(matches!(
        turn.action(&history),
        TurnAction::CallModel { .. }
    ));
    assert!(!turn.accepts(&TurnEvent::Done));
    let answered = |usage: &str| {
        TurnEvent::ModelAnswered(ModelAnswer {
            response: ModelResponse {
                usage: Some(json(usage)),
                ..answer("x", None)
            },
            streamed_text: String::new(),
            duration_ms: u64::MAX,
        })
    };
    assert!(turn.accepts(&answered("{\"input_tokens\":18446744073709551615}")));
    turn = turn.advance(&mut history, &mut session, answered("{}"));
    assert!(matches!(turn.action(&history), TurnAction::Emit(_)));
}

#[test]
fn results_of_other_calls_are_not_taken() {
    let tools = ToolRegistry::new("/workspace".to_string());
    let settings = PromptCacheSettings {
        retention: None,
        key: None,
        store_responses: false,
    };
    let metadata = ModelMetadata {
        provider: "p".to_string(),
        model: "m".to_string(),
        endpoint: "e".to_string(),
    };
    let mut turn = Turn::new("hi", metadata, settings, false, 0, &None);
    let mut history = Vec::new();
    let mut session = None;
    for _ in 0..3 {
        turn = turn.advance(&mut history, &mut session, TurnEvent::Done);
    }
    let answered = TurnEvent::ModelAnswered(ModelAnswer {
        response: tool_answer(None),
        streamed_text: String::new(),
        duration_ms: 1,
    });
    turn = turn.advance(&mut history, &mut session, answered);
    for _ in 0..4 {
        turn = turn.advance(&mut history, &mut session, TurnEvent::Done);
    }
    let TurnAction::ExecuteTool(call) = turn.action(&history) else {
        panic!("a tool is to be run");
    };
    assert_eq!(call.call_id, "call_1");
    let finished = |call: &ToolCall| TurnEvent::ToolFinished {
        result: tools.execute(call, tools.dispatch(call).map(|kind| panic!("{kind:?}"))),
        duration_ms: 1,
    };
    let mut renamed = unknown_call(1);
    renamed.name = "other".to_string();
    assert!(!turn.accepts(&finished(&unknown_call(2))));
    assert!(!turn.accepts(&finished(&renamed)));
    assert!(turn.accepts(&finished(&call)));
}

#[test]
fn usage_is_read_along_a_path() {
    let usage = json("{\"a\":{\"b\":7,\"c\":-1},\"d\":\"8\"}");
    assert_eq!(usage_u64(&usage, &["a", "b"]), 7);
    assert_eq!(usage_u64(&usage, &["a", "c"]), 0);
    assert_eq!(usage_u64(&usage, &["d"]), 0);
    assert_eq!(usage_u64(&usage, &["d", "e"]), 0);
    assert_eq!(usage_u64(&Json::Unsigned(3), &[]), 3);
}

#[test]
fn sessions_add_up_their_turns() {
    let turn = |missing: Vec<usize>| TurnStats {
        model_usage: ModelUsageTotals {
            model_calls: 2,
            input_tokens: 5,
            missing_usage_iterations: missing,
            ..Default::default()
        },
        tool_usage: ToolUsageTotals {
            tool_calls: 3,
            failed_tool_calls: 1,
            duration_ms: 10,
        },
    };
    let mut session = SessionStats::default();
    assert!(session.can_add(&turn(vec![]), false));
    session.add_turn(&turn(vec![1]));
    session.add_failed_turn(&turn(vec![2, 3]));
    assert_eq!((session.turns, session.failed_turns), (2, 1));
    assert_eq!(session.model_usage.model_calls, 4);
    assert_eq!(session.model_usage.input_tokens, 10);
    assert_eq!(session.model_usage.missing_usage_iterations, vec![1, 2, 3]);
    assert_eq!(session.tool_usage.tool_calls, 6);
    assert_eq!(session.tool_usage.failed_tool_calls, 2);
    assert_eq!(session.tool_usage.duration_ms, 20);
    session.model_usage.total_tokens = u64::MAX;
    let mut more = turn(vec![]);
    more.model_usage.total_tokens = 1;
    assert!(!session.can_add(&more, true));
}

#[test]
fn calls_are_tagged() {
    let mut call = unknown_call(1);
    assert_eq!(terminal_tag(&call), "[TOOL:unknown]");
    call.name = "mcp_call".to_string();
    assert_eq!(terminal_tag(&call), "[MCP:unknown/unknown]");
    call.arguments = json("{\"server\":\"git\",\"tool\":\"status\"}");
    assert_eq!(terminal_tag(&call), "[MCP:git/status]");
    let result = ToolResult {
        call_id: "c".to_string(),
        name: "bash".to_string(),
        ok: true,
        content: String::new(),
        data: json(
            "{\"exit_code\":-2,\"stdout_bytes\":4,\"stderr_bytes\":\"x\",\"stderr_truncated\":true}",
        ),
    };
    match tool_completed(&call, &result, 9) {
        AgentEvent::ToolCompleted {
            tag,
            name,
            exit_code,
            stdout_bytes,
            stderr_bytes,
            truncated,
            duration_ms,
            ..
        } => {
            assert_eq!(tag, "[MCP:git/status]");
            assert_eq!(name, "bash");
            assert_eq!(exit_code, Some(-2));
            assert_eq!(stdout_bytes, Some(4));
            assert_eq!(stderr_bytes, None);
            assert!(truncated);
            assert_eq!(duration_ms, 9);
        }
        other => panic!("{other:?}"),
    }
}
