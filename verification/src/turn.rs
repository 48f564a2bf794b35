//! A turn as a machine: it says what is to be done next, and goes on with what
//! came of it.

use crate::agent::completion_event;
use crate::agent::no_tool_usage;
use crate::agent::no_usage;
use crate::agent::tag_of;
use crate::agent::terminal_tag;
use crate::agent::tool_completed;
use crate::agent::tool_usage_fits;
use crate::agent::usage_fits;
use crate::agent::usage_json;
use crate::agent::with_response;
use crate::agent::with_result;
use crate::agent::AgentEvent;
use crate::agent::AgentEventView;
use crate::agent::MAX_AGENT_ITERATIONS;
use crate::agent::ModelUsageTotals;
use crate::agent::RunTurnError;
use crate::agent::RunTurnResult;
use crate::agent::ToolUsageTotals;
use crate::agent::ToolUsageView;
use crate::agent::TurnStats;
use crate::agent::TurnStatsView;
use crate::agent::UsageView;
use crate::decimal::decimal;
use crate::decimal::digits;
use crate::failure::Failure;
use crate::json::copy_items;
use crate::json::json_print;
use crate::json::json_views;
use crate::json::len_of_put;
use crate::json::lookup_of_put;
use crate::json::no_entries;
use crate::json::optional_text_view;
use crate::json::or_null_view;
use crate::json::put;
use crate::json::Json;
use crate::json::JsonObject;
use crate::json::JsonView;
use crate::model::cache_settings_json;
use crate::model::content_or_empty;
use crate::model::conversation_items;
use crate::model::conversations_are_sent_message_by_message;
use crate::model::message_items;
use crate::model::message_views;
use crate::model::messages_are_sent_as_they_are;
use crate::model::metadata_json;
use crate::model::roles_differ;
use crate::model::text_message;
use crate::model::tool_calls_message;
use crate::model::tool_result_message;
use crate::model::tool_results_are_sent_as_they_are;
use crate::model::CacheSettingsView;
use crate::model::ContextView;
use crate::model::ConversationMessage;
use crate::model::InputItemView;
use crate::model::MessageView;
use crate::model::MetadataView;
use crate::model::ModelMetadata;
use crate::model::ModelResponse;
use crate::model::ModelTurnContext;
use crate::model::PromptCacheSettings;
use crate::model::ResponseView;
use crate::model::Role;
use crate::text::around;
use crate::text::copy_opt;
use crate::text::copy_strings;
use crate::text::middle_occurs;
use crate::text::occurs;
use crate::text::opt_view;
use crate::tools::answers_call;
use crate::tools::call_views;
use crate::tools::calls_to_json;
use crate::tools::copy_calls;
use crate::tools::tool_call_json;
use crate::tools::tool_calls_json;
use crate::tools::tool_result_json;
use crate::tools::ToolCall;
use crate::tools::ToolCallView;
use crate::tools::ToolResult;
use crate::tools::ToolResultView;
use vstd::prelude::*;

verus! {

/// What the model gave: its answer, the text that it streamed, and how long it
/// took.
#[derive(Debug)]
pub struct ModelAnswer {
    pub response: ModelResponse,
    pub streamed_text: String,
    pub duration_ms: u64,
}

/// What an answer of the model holds.
#[verifier::ext_equal]
pub struct AnswerView {
    pub response: ResponseView,
    pub streamed_text: Seq<char>,
    pub duration_ms: nat,
}

impl View for ModelAnswer {
    type V = AnswerView;

    open spec fn view(&self) -> AnswerView {
        AnswerView {
            response: self.response@,
            streamed_text: self.streamed_text@,
            duration_ms: self.duration_ms as nat,
        }
    }
}

/// The calls of one answer, while they are run one after the other. `start` is
/// where their results begin in the conversation.
#[derive(Debug)]
struct ToolRound {
    iteration: usize,
    calls: Vec<ToolCall>,
    at: usize,
    response_id: Option<String>,
    start: usize,
}

/// What a round of calls holds.
#[verifier::ext_equal]
pub struct RoundView {
    pub iteration: nat,
    pub calls: Seq<ToolCallView>,
    pub at: nat,
    pub response_id: Option<Seq<char>>,
    pub start: nat,
}

impl View for ToolRound {
    type V = RoundView;

    closed spec fn view(&self) -> RoundView {
        RoundView {
            iteration: self.iteration as nat,
            calls: call_views(self.calls@),
            at: self.at as nat,
            response_id: opt_view(self.response_id),
            start: self.start as nat,
        }
    }
}

/// Where a turn stands.
#[derive(Debug)]
enum Phase {
    Start,
    Announce { iteration: usize },
    Request { iteration: usize },
    Call { iteration: usize },
    Report { iteration: usize, answer: ModelAnswer },
    Plan { iteration: usize, answer: ModelAnswer },
    Respond { iteration: usize, answer: ModelAnswer },
    NoteCall { round: ToolRound },
    StartTool { round: ToolRound },
    RunTool { round: ToolRound },
    FinishTool { round: ToolRound, result: ToolResult, duration_ms: u64 },
    NoteResult { round: ToolRound, result: ToolResult },
    Deliver { answer: ModelAnswer },
    Close { text: String },
    Exhaust,
    GiveUp { failure: Failure },
    Answered { text: String },
    Failed { failure: Failure },
}

/// Where a turn stands: to record its start; to announce a call of the model, to
/// record and make it; to report the answer, to record its plan and the answer;
/// to record a call of a tool, to announce and run it, to report and record its
/// result; to deliver the text; to record the end, one way or another; and at
/// the end.
#[verifier::ext_equal]
pub enum PhaseView {
    Start,
    Announce { iteration: nat },
    Request { iteration: nat },
    Call { iteration: nat },
    Report { iteration: nat, answer: AnswerView },
    Plan { iteration: nat, answer: AnswerView },
    Respond { iteration: nat, answer: AnswerView },
    NoteCall { round: RoundView },
    StartTool { round: RoundView },
    RunTool { round: RoundView },
    FinishTool { round: RoundView, result: ToolResultView, duration_ms: nat },
    NoteResult { round: RoundView, result: ToolResultView },
    Deliver { answer: AnswerView },
    Close { text: Seq<char> },
    Exhaust,
    GiveUp { failure: Seq<Seq<char>> },
    Answered { text: Seq<char> },
    Failed { failure: Seq<Seq<char>> },
}

impl View for Phase {
    type V = PhaseView;

    closed spec fn view(&self) -> PhaseView {
        match self {
            Phase::Start => PhaseView::Start,
            Phase::Announce { iteration } => PhaseView::Announce { iteration: *iteration as nat },
            Phase::Request { iteration } => PhaseView::Request { iteration: *iteration as nat },
            Phase::Call { iteration } => PhaseView::Call { iteration: *iteration as nat },
            Phase::Report { iteration, answer } => PhaseView::Report {
                iteration: *iteration as nat,
                answer: answer@,
            },
            Phase::Plan { iteration, answer } => PhaseView::Plan {
                iteration: *iteration as nat,
                answer: answer@,
            },
            Phase::Respond { iteration, answer } => PhaseView::Respond {
                iteration: *iteration as nat,
                answer: answer@,
            },
            Phase::NoteCall { round } => PhaseView::NoteCall { round: round@ },
            Phase::StartTool { round } => PhaseView::StartTool { round: round@ },
            Phase::RunTool { round } => PhaseView::RunTool { round: round@ },
            Phase::FinishTool { round, result, duration_ms } => PhaseView::FinishTool {
                round: round@,
                result: result@,
                duration_ms: *duration_ms as nat,
            },
            Phase::NoteResult { round, result } => PhaseView::NoteResult {
                round: round@,
                result: result@,
            },
            Phase::Deliver { answer } => PhaseView::Deliver { answer: answer@ },
            Phase::Close { text } => PhaseView::Close { text: text@ },
            Phase::Exhaust => PhaseView::Exhaust,
            Phase::GiveUp { failure } => PhaseView::GiveUp { failure: failure@ },
            Phase::Answered { text } => PhaseView::Answered { text: text@ },
            Phase::Failed { failure } => PhaseView::Failed { failure: failure@ },
        }
    }
}

/// A turn.
#[derive(Debug)]
pub struct Turn {
    prompt: String,
    metadata: ModelMetadata,
    prompt_cache: PromptCacheSettings,
    store_responses: bool,
    tool_count: usize,
    model_usage: ModelUsageTotals,
    tool_usage: ToolUsageTotals,
    previous_response_id: Option<String>,
    incremental_from: Option<usize>,
    phase: Phase,
}

/// What a turn holds. `incremental_from` is where the messages begin that the
/// next request sends, where it does not send them all.
#[verifier::ext_equal]
pub struct TurnView {
    pub prompt: Seq<char>,
    pub metadata: MetadataView,
    pub prompt_cache: CacheSettingsView,
    pub store_responses: bool,
    pub tool_count: nat,
    pub model_usage: UsageView,
    pub tool_usage: ToolUsageView,
    pub previous_response_id: Option<Seq<char>>,
    pub incremental_from: Option<nat>,
    pub phase: PhaseView,
}

/// The view of an optional position.
pub open spec fn opt_nat(n: Option<usize>) -> Option<nat> {
    match n {
        Some(k) => Some(k as nat),
        None => None,
    }
}

impl View for Turn {
    type V = TurnView;

    closed spec fn view(&self) -> TurnView {
        TurnView {
            prompt: self.prompt@,
            metadata: self.metadata@,
            prompt_cache: self.prompt_cache@,
            store_responses: self.store_responses,
            tool_count: self.tool_count as nat,
            model_usage: self.model_usage@,
            tool_usage: self.tool_usage@,
            previous_response_id: opt_view(self.previous_response_id),
            incremental_from: opt_nat(self.incremental_from),
            phase: self.phase@,
        }
    }
}

/// What came of what was to be done.
#[derive(Debug)]
pub enum TurnEvent {
    Done,
    ModelAnswered(ModelAnswer),
    ModelFailed(Failure),
    ToolFinished { result: ToolResult, duration_ms: u64 },
}

/// What such an event holds.
#[verifier::ext_equal]
pub enum TurnEventView {
    Done,
    ModelAnswered(AnswerView),
    ModelFailed(Seq<Seq<char>>),
    ToolFinished { result: ToolResultView, duration_ms: nat },
}

impl View for TurnEvent {
    type V = TurnEventView;

    open spec fn view(&self) -> TurnEventView {
        match self {
            TurnEvent::Done => TurnEventView::Done,
            TurnEvent::ModelAnswered(answer) => TurnEventView::ModelAnswered(answer@),
            TurnEvent::ModelFailed(failure) => TurnEventView::ModelFailed(failure@),
            TurnEvent::ToolFinished { result, duration_ms } => TurnEventView::ToolFinished {
                result: result@,
                duration_ms: *duration_ms as nat,
            },
        }
    }
}

/// What is to be done next.
#[derive(Debug)]
pub enum TurnAction {
    Record { kind: &'static str, payload: Json },
    Emit(AgentEvent),
    CallModel { messages: Vec<ConversationMessage>, context: ModelTurnContext },
    ExecuteTool(ToolCall),
    Deliver { text: String },
    Finish(RunTurnResult),
    Fail(RunTurnError),
}

/// What such an action holds.
#[verifier::ext_equal]
pub enum TurnActionView {
    Record { kind: Seq<char>, payload: JsonView },
    Emit(AgentEventView),
    CallModel { messages: Seq<MessageView>, context: ContextView },
    ExecuteTool(ToolCallView),
    Deliver { text: Seq<char> },
    Finish { answer: Seq<char>, stats: TurnStatsView },
    Fail { source: Seq<Seq<char>>, stats: TurnStatsView },
}

impl View for TurnAction {
    type V = TurnActionView;

    open spec fn view(&self) -> TurnActionView {
        match self {
            TurnAction::Record { kind, payload } => TurnActionView::Record {
                kind: kind@,
                payload: payload@,
            },
            TurnAction::Emit(event) => TurnActionView::Emit(event@),
            TurnAction::CallModel { messages, context } => TurnActionView::CallModel {
                messages: message_views(messages@),
                context: context@,
            },
            TurnAction::ExecuteTool(call) => TurnActionView::ExecuteTool(call@),
            TurnAction::Deliver { text } => TurnActionView::Deliver { text: text@ },
            TurnAction::Finish(result) => TurnActionView::Finish {
                answer: result.answer@,
                stats: result.stats@,
            },
            TurnAction::Fail(error) => TurnActionView::Fail {
                source: error.source@,
                stats: error.stats@,
            },
        }
    }
}

/// A turn together with the conversation, and with the response that the session
/// goes on from.
#[verifier::ext_equal]
pub struct TurnState {
    pub turn: TurnView,
    pub history: Seq<MessageView>,
    pub session: Option<Seq<char>>,
}

/// A text that is kept only where responses are stored.
pub open spec fn if_stored(store_responses: bool, id: Option<Seq<char>>) -> Option<Seq<char>> {
    if store_responses {
        id
    } else {
        None
    }
}

/// A turn at its start.
pub open spec fn started(
    prompt: Seq<char>,
    metadata: MetadataView,
    prompt_cache: CacheSettingsView,
    store_responses: bool,
    tool_count: nat,
    session: Option<Seq<char>>,
) -> TurnView {
    TurnView {
        prompt,
        metadata,
        prompt_cache,
        store_responses,
        tool_count,
        model_usage: no_usage(),
        tool_usage: no_tool_usage(),
        previous_response_id: if_stored(store_responses, session),
        incremental_from: None,
        phase: PhaseView::Start,
    }
}

/// The messages that a request sends.
pub open spec fn messages_to_send(turn: TurnView, history: Seq<MessageView>) -> Seq<MessageView> {
    match turn.incremental_from {
        Some(from) => if from <= history.len() {
            history.skip(from as int)
        } else {
            history
        },
        None => history,
    }
}

/// What a request builds on.
pub open spec fn context_of(turn: TurnView) -> ContextView {
    ContextView {
        previous_response_id: turn.previous_response_id,
        incremental: turn.incremental_from is Some,
    }
}

/// What a turn has used.
pub open spec fn stats_of(turn: TurnView) -> TurnStatsView {
    TurnStatsView { model_usage: turn.model_usage, tool_usage: turn.tool_usage }
}

/// What is recorded at the start.
pub open spec fn run_started_json(turn: TurnView) -> JsonView {
    let e = no_entries();
    let e = put(e, "prompt"@, JsonView::Text(turn.prompt));
    let e = put(e, "model"@, metadata_json(turn.metadata));
    let e = put(e, "prompt_cache"@, cache_settings_json(turn.prompt_cache));
    JsonView::Object(e)
}

/// What is recorded of a request.
pub open spec fn model_request_json(
    turn: TurnView,
    history: Seq<MessageView>,
    iteration: nat,
) -> JsonView {
    let context = context_of(turn);
    let e = no_entries();
    let e = put(e, "iteration"@, JsonView::Integer(iteration as int));
    let e = put(
        e,
        "message_count"@,
        JsonView::Integer(messages_to_send(turn, history).len() as int),
    );
    let e = put(e, "tool_count"@, JsonView::Integer(turn.tool_count as int));
    let e = put(e, "incremental"@, JsonView::Bool(context.incremental));
    let e = put(e, "previous_response_id"@, optional_text_view(context.previous_response_id));
    JsonView::Object(e)
}

/// What is recorded of an execution plan.
pub open spec fn execution_plan_json(iteration: nat, plan: Option<JsonView>) -> JsonView {
    let e = no_entries();
    let e = put(e, "iteration"@, JsonView::Integer(iteration as int));
    let e = put(e, "extra"@, or_null_view(plan));
    JsonView::Object(e)
}

/// What is recorded of an answer of the model.
pub open spec fn model_response_json(iteration: nat, answer: AnswerView) -> JsonView {
    let response = answer.response;
    let e = no_entries();
    let e = put(e, "iteration"@, JsonView::Integer(iteration as int));
    let e = put(e, "content"@, optional_text_view(response.content));
    let e = put(e, "tool_call_count"@, JsonView::Integer(response.tool_calls.len() as int));
    let e = put(e, "tool_calls"@, tool_calls_json(response.tool_calls));
    let e = put(
        e,
        "response_item_count"@,
        JsonView::Integer(response.response_items.len() as int),
    );
    let e = put(e, "response_items"@, JsonView::List(response.response_items));
    let e = put(e, "duration_ms"@, JsonView::Integer(answer.duration_ms as int));
    let e = put(e, "usage"@, or_null_view(response.usage));
    let e = put(e, "response_id"@, optional_text_view(response.response_id));
    let e = put(e, "has_execution_plan"@, JsonView::Bool(response.execution_plan is Some));
    JsonView::Object(e)
}

/// What is recorded at the end of a turn that gave an answer.
pub open spec fn completed_json(answer: Seq<char>, usage: UsageView) -> JsonView {
    let e = no_entries();
    let e = put(e, "status"@, JsonView::Text("completed"@));
    let e = put(e, "answer"@, JsonView::Text(answer));
    let e = put(e, "model_usage"@, usage_json(usage));
    JsonView::Object(e)
}

/// What is recorded at the end of a turn that failed.
pub open spec fn failed_json(reason: Seq<char>, usage: UsageView) -> JsonView {
    let e = no_entries();
    let e = put(e, "status"@, JsonView::Text("failed"@));
    let e = put(e, "reason"@, JsonView::Text(reason));
    let e = put(e, "model_usage"@, usage_json(usage));
    JsonView::Object(e)
}

/// The words for a turn that ran out of iterations.
pub open spec fn exhausted_words() -> Seq<char> {
    "agent reached the maximum of "@ + digits(MAX_AGENT_ITERATIONS as nat) + " iterations"@
}

/// What a turn is to do next.
pub open spec fn action_of(turn: TurnView, history: Seq<MessageView>) -> TurnActionView {
    match turn.phase {
        PhaseView::Start => TurnActionView::Record {
            kind: "run_started"@,
            payload: run_started_json(turn),
        },
        PhaseView::Announce { iteration } => TurnActionView::Emit(
            AgentEventView::ModelStarted { iteration, model: turn.metadata.model },
        ),
        PhaseView::Request { iteration } => TurnActionView::Record {
            kind: "model_request"@,
            payload: model_request_json(turn, history, iteration),
        },
        PhaseView::Call { iteration } => TurnActionView::CallModel {
            messages: messages_to_send(turn, history),
            context: context_of(turn),
        },
        PhaseView::Report { iteration, answer } => TurnActionView::Emit(
            AgentEventView::ModelCompleted {
                iteration,
                model: turn.metadata.model,
                duration_ms: answer.duration_ms,
                usage_totals: turn.model_usage,
                tool_call_count: answer.response.tool_calls.len(),
            },
        ),
        PhaseView::Plan { iteration, answer } => TurnActionView::Record {
            kind: "execution_plan"@,
            payload: execution_plan_json(iteration, answer.response.execution_plan),
        },
        PhaseView::Respond { iteration, answer } => TurnActionView::Record {
            kind: "model_response"@,
            payload: model_response_json(iteration, answer),
        },
        PhaseView::NoteCall { round } => TurnActionView::Record {
            kind: "tool_call"@,
            payload: tool_call_json(round.calls[round.at as int]),
        },
        PhaseView::StartTool { round } => TurnActionView::Emit(
            AgentEventView::ToolStarted {
                tag: tag_of(round.calls[round.at as int]),
                name: round.calls[round.at as int].name,
                call_id: round.calls[round.at as int].call_id,
            },
        ),
        PhaseView::RunTool { round } => TurnActionView::ExecuteTool(round.calls[round.at as int]),
        PhaseView::FinishTool { round, result, duration_ms } => TurnActionView::Emit(
            completion_event(round.calls[round.at as int], result, duration_ms),
        ),
        PhaseView::NoteResult { round, result } => TurnActionView::Record {
            kind: "tool_result"@,
            payload: tool_result_json(result),
        },
        PhaseView::Deliver { answer } => TurnActionView::Deliver { text: answer.streamed_text },
        PhaseView::Close { text } => TurnActionView::Record {
            kind: "run_completed"@,
            payload: completed_json(text, turn.model_usage),
        },
        PhaseView::Exhaust => TurnActionView::Record {
            kind: "run_completed"@,
            payload: failed_json("maximum agent iterations reached"@, turn.model_usage),
        },
        PhaseView::GiveUp { failure } => TurnActionView::Record {
            kind: "run_completed"@,
            payload: failed_json("model completion failed"@, turn.model_usage),
        },
        PhaseView::Answered { text } => TurnActionView::Finish {
            answer: text,
            stats: stats_of(turn),
        },
        PhaseView::Failed { failure } => TurnActionView::Fail {
            source: failure,
            stats: stats_of(turn),
        },
    }
}

/// Whether a turn can go on with an event: it is one that the last action can
/// end in, a result of a tool answers the call that was run, and what the event
/// adds can be counted and recorded.
pub open spec fn can_step(turn: TurnView, event: TurnEventView) -> bool {
    match (turn.phase, event) {
        (PhaseView::Call { iteration }, TurnEventView::ModelAnswered(answer)) => {
            let usage = with_response(
                turn.model_usage,
                iteration as usize,
                answer.duration_ms,
                answer.response.usage,
            );
            usage_fits(usage) && usage.duration_ms <= u64::MAX
        },
        (PhaseView::Call { .. }, TurnEventView::ModelFailed(_)) => true,
        (PhaseView::Call { .. }, _) => false,
        (PhaseView::RunTool { round }, TurnEventView::ToolFinished { result, duration_ms }) => {
            answers_call(result, round.calls[round.at as int]) && tool_usage_fits(
                with_result(turn.tool_usage, result.ok, duration_ms),
            )
        },
        (PhaseView::RunTool { .. }, _) => false,
        (PhaseView::Answered { .. }, _) => false,
        (PhaseView::Failed { .. }, _) => false,
        (_, TurnEventView::Done) => true,
        (_, _) => false,
    }
}

/// A state in another phase.
pub open spec fn in_phase(state: TurnState, phase: PhaseView) -> TurnState {
    TurnState { turn: TurnView { phase, ..state.turn }, ..state }
}

/// The answer that a response gives.
pub open spec fn answer_text(response: ResponseView) -> Seq<char> {
    content_or_empty(response.content)
}

/// A state in which the answer has become part of the conversation.
pub open spec fn answered(state: TurnState, response: ResponseView) -> TurnState {
    TurnState {
        turn: TurnView {
            phase: PhaseView::Close { text: answer_text(response) },
            ..state.turn
        },
        history: state.history.push(text_message("assistant"@, answer_text(response))),
        session: if_stored(state.turn.store_responses, response.response_id),
    }
}

/// A state after the record of an answer: with calls to run, with text to
/// deliver, or with the answer taken in.
pub open spec fn after_response(state: TurnState, iteration: nat, answer: AnswerView) -> TurnState {
    let response = answer.response;
    if response.tool_calls.len() > 0 {
        TurnState {
            turn: TurnView {
                phase: PhaseView::NoteCall {
                    round: RoundView {
                        iteration,
                        calls: response.tool_calls,
                        at: 0,
                        response_id: response.response_id,
                        start: state.history.len() + 1,
                    },
                },
                ..state.turn
            },
            history: state.history.push(
                tool_calls_message(
                    response.content,
                    response.tool_calls,
                    response.response_items,
                ),
            ),
            ..state
        }
    } else if answer.streamed_text.len() > 0 {
        in_phase(state, PhaseView::Deliver { answer })
    } else {
        answered(state, response)
    }
}

/// A state after the last call of a round: the next request sends only the
/// results where the response is stored, and there is none after the last
/// iteration.
pub open spec fn after_round(state: TurnState, round: RoundView) -> TurnState {
    TurnState {
        turn: TurnView {
            incremental_from: if state.turn.store_responses && round.response_id is Some {
                Some(round.start)
            } else {
                None
            },
            phase: if round.iteration < MAX_AGENT_ITERATIONS {
                PhaseView::Announce { iteration: round.iteration + 1 }
            } else {
                PhaseView::Exhaust
            },
            ..state.turn
        },
        ..state
    }
}

/// A state after an event.
pub open spec fn step(state: TurnState, event: TurnEventView) -> TurnState {
    let turn = state.turn;
    match (turn.phase, event) {
        (PhaseView::Start, _) => TurnState {
            turn: TurnView { phase: PhaseView::Announce { iteration: 1 }, ..turn },
            history: state.history.push(text_message("user"@, turn.prompt)),
            ..state
        },
        (PhaseView::Announce { iteration }, _) => in_phase(
            state,
            PhaseView::Request { iteration },
        ),
        (PhaseView::Request { iteration }, _) => in_phase(state, PhaseView::Call { iteration }),
        (PhaseView::Call { iteration }, TurnEventView::ModelAnswered(answer)) => TurnState {
            turn: TurnView {
                model_usage: with_response(
                    turn.model_usage,
                    iteration as usize,
                    answer.duration_ms,
                    answer.response.usage,
                ),
                incremental_from: None,
                phase: PhaseView::Report { iteration, answer },
                ..turn
            },
            ..state
        },
        (PhaseView::Call { .. }, TurnEventView::ModelFailed(chain)) => in_phase(
            state,
            PhaseView::GiveUp { failure: seq!["model completion failed"@] + chain },
        ),
        (PhaseView::Report { iteration, answer }, _) => TurnState {
            turn: TurnView {
                previous_response_id: if_stored(
                    turn.store_responses,
                    answer.response.response_id,
                ),
                phase: if answer.response.execution_plan is Some {
                    PhaseView::Plan { iteration, answer }
                } else {
                    PhaseView::Respond { iteration, answer }
                },
                ..turn
            },
            ..state
        },
        (PhaseView::Plan { iteration, answer }, _) => in_phase(
            state,
            PhaseView::Respond { iteration, answer },
        ),
        (PhaseView::Respond { iteration, answer }, _) => after_response(state, iteration, answer),
        (PhaseView::NoteCall { round }, _) => in_phase(state, PhaseView::StartTool { round }),
        (PhaseView::StartTool { round }, _) => in_phase(state, PhaseView::RunTool { round }),
        (PhaseView::RunTool { round }, TurnEventView::ToolFinished { result, duration_ms }) => {
            TurnState {
                turn: TurnView {
                    tool_usage: with_result(turn.tool_usage, result.ok, duration_ms),
                    phase: PhaseView::FinishTool { round, result, duration_ms },
                    ..turn
                },
                ..state
            }
        },
        (PhaseView::FinishTool { round, result, duration_ms }, _) => in_phase(
            state,
            PhaseView::NoteResult { round, result },
        ),
        (PhaseView::NoteResult { round, result }, _) => {
            let noted = TurnState {
                history: state.history.push(
                    tool_result_message(result.call_id, json_print(result.data)),
                ),
                ..state
            };
            if round.at + 1 < round.calls.len() {
                in_phase(
                    noted,
                    PhaseView::NoteCall { round: RoundView { at: round.at + 1, ..round } },
                )
            } else {
                after_round(noted, round)
            }
        },
        (PhaseView::Deliver { answer }, _) => answered(state, answer.response),
        (PhaseView::Close { text }, _) => in_phase(state, PhaseView::Answered { text }),
        (PhaseView::Exhaust, _) => in_phase(
            state,
            PhaseView::Failed { failure: seq![exhausted_words()] },
        ),
        (PhaseView::GiveUp { failure }, _) => in_phase(state, PhaseView::Failed { failure }),
        (_, _) => state,
    }
}

/// Whether an iteration is one that a turn may have.
pub open spec fn is_iteration(iteration: nat) -> bool {
    1 <= iteration <= MAX_AGENT_ITERATIONS
}

/// How often the model has answered, where that is known by the phase.
pub open spec fn answers_so_far(phase: PhaseView) -> Option<nat> {
    match phase {
        PhaseView::Start => Some(0),
        PhaseView::Announce { iteration } => Some((iteration - 1) as nat),
        PhaseView::Request { iteration } => Some((iteration - 1) as nat),
        PhaseView::Call { iteration } => Some((iteration - 1) as nat),
        PhaseView::Report { iteration, .. } => Some(iteration),
        PhaseView::Plan { iteration, .. } => Some(iteration),
        PhaseView::Respond { iteration, .. } => Some(iteration),
        PhaseView::NoteCall { round } => Some(round.iteration),
        PhaseView::StartTool { round } => Some(round.iteration),
        PhaseView::RunTool { round } => Some(round.iteration),
        PhaseView::FinishTool { round, .. } => Some(round.iteration),
        PhaseView::NoteResult { round, .. } => Some(round.iteration),
        PhaseView::Exhaust => Some(MAX_AGENT_ITERATIONS as nat),
        _ => None,
    }
}

/// The round of calls that a phase is in.
pub open spec fn round_of(phase: PhaseView) -> Option<RoundView> {
    match phase {
        PhaseView::NoteCall { round } => Some(round),
        PhaseView::StartTool { round } => Some(round),
        PhaseView::RunTool { round } => Some(round),
        PhaseView::FinishTool { round, .. } => Some(round),
        PhaseView::NoteResult { round, .. } => Some(round),
        _ => None,
    }
}

/// The iteration that a phase is in.
pub open spec fn iteration_of(phase: PhaseView) -> Option<nat> {
    match phase {
        PhaseView::Announce { iteration } => Some(iteration),
        PhaseView::Request { iteration } => Some(iteration),
        PhaseView::Call { iteration } => Some(iteration),
        PhaseView::Report { iteration, .. } => Some(iteration),
        PhaseView::Plan { iteration, .. } => Some(iteration),
        PhaseView::Respond { iteration, .. } => Some(iteration),
        _ => match round_of(phase) {
            Some(round) => Some(round.iteration),
            None => None,
        },
    }
}

/// What holds of every turn: its iterations and its counts are within bounds; a
/// round has a call to run, and a result in hand answers that call; response
/// identifiers are used only where responses are stored, and a request that sends
/// only new messages names the response before them; and text is delivered only
/// of an answer without calls.
pub open spec fn turn_ok(turn: TurnView) -> bool {
    &&& usage_fits(turn.model_usage)
    &&& turn.model_usage.duration_ms <= u64::MAX
    &&& tool_usage_fits(turn.tool_usage)
    &&& turn.tool_usage.failed_tool_calls <= turn.tool_usage.tool_calls
    &&& turn.model_usage.model_calls <= MAX_AGENT_ITERATIONS
    &&& answers_so_far(turn.phase) matches Some(n) ==> turn.model_usage.model_calls == n
    &&& iteration_of(turn.phase) matches Some(iteration) ==> is_iteration(iteration)
    &&& round_of(turn.phase) matches Some(round) ==> round.at < round.calls.len()
        && turn.previous_response_id == if_stored(turn.store_responses, round.response_id)
    &&& turn.phase matches PhaseView::FinishTool { round, result, .. } ==> answers_call(
        result,
        round.calls[round.at as int],
    )
    &&& turn.phase matches PhaseView::NoteResult { round, result } ==> answers_call(
        result,
        round.calls[round.at as int],
    )
    &&& turn.phase matches PhaseView::Plan { answer, .. } ==> turn.previous_response_id
        == if_stored(turn.store_responses, answer.response.response_id)
    &&& turn.phase matches PhaseView::Respond { answer, .. } ==> turn.previous_response_id
        == if_stored(turn.store_responses, answer.response.response_id)
    &&& !turn.store_responses ==> turn.previous_response_id is None
    &&& turn.incremental_from is Some ==> turn.previous_response_id is Some && !(
    turn.phase is Start || turn.phase is Report)
    &&& turn.phase matches PhaseView::Deliver { answer } ==> answer.response.tool_calls.len() == 0
        && answer.streamed_text.len() > 0
}

/// Every step keeps what holds of every turn.
pub proof fn step_keeps_turn_ok(state: TurnState, event: TurnEventView)
    requires
        turn_ok(state.turn),
        can_step(state.turn, event),
    ensures
        turn_ok(step(state, event).turn),
{
}

/// A copy of the messages from a position on.
fn copy_messages(messages: &Vec<ConversationMessage>, from: usize) -> (r: Vec<ConversationMessage>)
    requires
        from <= messages@.len(),
    ensures
        message_views(r@) == message_views(messages@).skip(from as int),
{
    let mut out: Vec<ConversationMessage> = Vec::new();
    for i in from..messages.len()
        invariant
            from <= messages@.len(),
            out@.len() == i - from,
            forall|j: int| 0 <= j < out@.len() ==> (#[trigger] out@[j])@ == messages@[from + j]@,
    {
        out.push(messages[i].clone());
    }
    assert(message_views(out@) =~= message_views(messages@).skip(from as int));
    out
}

fn json_list(items: &Vec<Json>) -> (r: Json)
    ensures
        r@ == JsonView::List(json_views(items@)),
{
    let list = Json::List(copy_items(items));
    assert(list@->List_0 =~= json_views(items@));
    list
}

fn model_response_payload(iteration: usize, answer: &ModelAnswer) -> (r: Json)
    ensures
        r@ == model_response_json(iteration as nat, answer@),
{
    let response = &answer.response;
    Json::Object(
        JsonObject::new().with("iteration", Json::Unsigned(iteration as u64)).with(
            "content",
            Json::optional_text(&response.content),
        ).with("tool_call_count", Json::Unsigned(response.tool_calls.len() as u64)).with(
            "tool_calls",
            calls_to_json(&response.tool_calls),
        ).with("response_item_count", Json::Unsigned(response.response_items.len() as u64)).with(
            "response_items",
            json_list(&response.response_items),
        ).with("duration_ms", Json::Unsigned(answer.duration_ms)).with(
            "usage",
            Json::or_null(&response.usage),
        ).with("response_id", Json::optional_text(&response.response_id)).with(
            "has_execution_plan",
            Json::Bool(response.execution_plan.is_some()),
        ),
    )
}

impl Turn {
    #[verifier::type_invariant]
    closed spec fn is_ok(self) -> bool {
        turn_ok(self@)
    }

    /// A turn at its start. `session_last_response_id` is the response that the
    /// session goes on from.
    pub fn new(
        prompt: &str,
        metadata: ModelMetadata,
        prompt_cache: PromptCacheSettings,
        store_responses: bool,
        tool_count: usize,
        session_last_response_id: &Option<String>,
    ) -> (r: Turn)
        ensures
            r@ == started(
                prompt@,
                metadata@,
                prompt_cache@,
                store_responses,
                tool_count as nat,
                opt_view(*session_last_response_id),
            ),
    {
        Turn {
            prompt: prompt.to_owned(),
            metadata,
            prompt_cache,
            store_responses,
            tool_count,
            model_usage: ModelUsageTotals::default(),
            tool_usage: ToolUsageTotals::default(),
            previous_response_id: if store_responses {
                copy_opt(session_last_response_id)
            } else {
                None
            },
            incremental_from: None,
            phase: Phase::Start,
        }
    }

    fn messages(&self, history: &Vec<ConversationMessage>) -> (r: Vec<ConversationMessage>)
        ensures
            message_views(r@) == messages_to_send(self@, message_views(history@)),
    {
        assert(message_views(history@).skip(0) =~= message_views(history@));
        match self.incremental_from {
            Some(from) => {
                if from <= history.len() {
                    copy_messages(history, from)
                } else {
                    copy_messages(history, 0)
                }
            },
            None => copy_messages(history, 0),
        }
    }

    fn context(&self) -> (r: ModelTurnContext)
        ensures
            r@ == context_of(self@),
    {
        ModelTurnContext {
            previous_response_id: copy_opt(&self.previous_response_id),
            incremental: self.incremental_from.is_some(),
        }
    }

    fn stats(&self) -> (r: TurnStats)
        ensures
            r@ == stats_of(self@),
    {
        TurnStats { model_usage: self.model_usage.clone(), tool_usage: self.tool_usage.clone() }
    }

    fn failed_payload(&self, reason: &str) -> (r: Json)
        ensures
            r@ == failed_json(reason@, self@.model_usage),
    {
        proof {
            use_type_invariant(self);
        }
        Json::Object(
            JsonObject::new().with("status", Json::text("failed")).with(
                "reason",
                Json::text(reason),
            ).with("model_usage", self.model_usage.to_json()),
        )
    }

    fn request_payload(&self, history: &Vec<ConversationMessage>, iteration: usize) -> (r: Json)
        ensures
            r@ == model_request_json(self@, message_views(history@), iteration as nat),
    {
        let messages = self.messages(history);
        assert(message_views(messages@).len() == messages@.len());
        let context = self.context();
        Json::Object(
            JsonObject::new().with("iteration", Json::Unsigned(iteration as u64)).with(
                "message_count",
                Json::Unsigned(messages.len() as u64),
            ).with("tool_count", Json::Unsigned(self.tool_count as u64)).with(
                "incremental",
                Json::Bool(context.incremental),
            ).with(
                "previous_response_id",
                Json::optional_text(&context.previous_response_id),
            ),
        )
    }

    /// What is to be done next.
    pub fn action(&self, history: &Vec<ConversationMessage>) -> (r: TurnAction)
        ensures
            r@ == action_of(self@, message_views(history@)),
    {
        proof {
            use_type_invariant(self);
        }
        match &self.phase {
            Phase::Start => TurnAction::Record {
                kind: "run_started",
                payload: Json::Object(
                    JsonObject::new().with("prompt", Json::text(self.prompt.as_str())).with(
                        "model",
                        self.metadata.to_json(),
                    ).with("prompt_cache", self.prompt_cache.to_json()),
                ),
            },
            Phase::Announce { iteration } => TurnAction::Emit(
                AgentEvent::ModelStarted {
                    iteration: *iteration,
                    model: self.metadata.model.clone(),
                },
            ),
            Phase::Request { iteration } => TurnAction::Record {
                kind: "model_request",
                payload: self.request_payload(history, *iteration),
            },
            Phase::Call { iteration } => TurnAction::CallModel {
                messages: self.messages(history),
                context: self.context(),
            },
            Phase::Report { iteration, answer } => TurnAction::Emit(
                AgentEvent::ModelCompleted {
                    iteration: *iteration,
                    model: self.metadata.model.clone(),
                    duration_ms: answer.duration_ms as u128,
                    usage_totals: self.model_usage.clone(),
                    tool_call_count: answer.response.tool_calls.len(),
                },
            ),
            Phase::Plan { iteration, answer } => TurnAction::Record {
                kind: "execution_plan",
                payload: Json::Object(
                    JsonObject::new().with("iteration", Json::Unsigned(*iteration as u64)).with(
                        "extra",
                        Json::or_null(&answer.response.execution_plan),
                    ),
                ),
            },
            Phase::Respond { iteration, answer } => TurnAction::Record {
                kind: "model_response",
                payload: model_response_payload(*iteration, answer),
            },
            Phase::NoteCall { round } => TurnAction::Record {
                kind: "tool_call",
                payload: round.calls[round.at].to_json(),
            },
            Phase::StartTool { round } => {
                let call = &round.calls[round.at];
                TurnAction::Emit(
                    AgentEvent::ToolStarted {
                        tag: terminal_tag(call),
                        name: call.name.clone(),
                        call_id: call.call_id.clone(),
                    },
                )
            },
            Phase::RunTool { round } => TurnAction::ExecuteTool(round.calls[round.at].clone()),
            Phase::FinishTool { round, result, duration_ms } => TurnAction::Emit(
                tool_completed(&round.calls[round.at], result, *duration_ms as u128),
            ),
            Phase::NoteResult { round, result } => TurnAction::Record {
                kind: "tool_result",
                payload: result.to_json(),
            },
            Phase::Deliver { answer } => TurnAction::Deliver { text: answer.streamed_text.clone() },
            Phase::Close { text } => TurnAction::Record {
                kind: "run_completed",
                payload: Json::Object(
                    JsonObject::new().with("status", Json::text("completed")).with(
                        "answer",
                        Json::text(text.as_str()),
                    ).with("model_usage", self.model_usage.to_json()),
                ),
            },
            Phase::Exhaust => TurnAction::Record {
                kind: "run_completed",
                payload: self.failed_payload("maximum agent iterations reached"),
            },
            Phase::GiveUp { failure } => TurnAction::Record {
                kind: "run_completed",
                payload: self.failed_payload("model completion failed"),
            },
            Phase::Answered { text } => TurnAction::Finish(
                RunTurnResult { answer: text.clone(), stats: self.stats() },
            ),
            Phase::Failed { failure } => TurnAction::Fail(
                RunTurnError {
                    source: Failure { chain: copy_strings(&failure.chain) },
                    stats: self.stats(),
                },
            ),
        }
    }

    /// Whether the turn can go on with an event.
    pub fn accepts(&self, event: &TurnEvent) -> (r: bool)
        ensures
            r == can_step(self@, event@),
    {
        proof {
            use_type_invariant(self);
        }
        match (&self.phase, event) {
            (Phase::Call { iteration }, TurnEvent::ModelAnswered(answer)) => {
                self.model_usage.can_add_response(
                    *iteration,
                    answer.duration_ms as u128,
                    answer.response.usage.as_ref(),
                ) && self.model_usage.duration_ms + answer.duration_ms as u128 <= u64::MAX as u128
            },
            (Phase::Call { .. }, TurnEvent::ModelFailed(_)) => true,
            (Phase::Call { .. }, _) => false,
            (Phase::RunTool { round }, TurnEvent::ToolFinished { result, duration_ms }) => {
                result.answers(&round.calls[round.at]) && self.tool_usage.can_add_result(
                    result.ok,
                    *duration_ms as u128,
                )
            },
            (Phase::RunTool { .. }, _) => false,
            (Phase::Answered { .. }, _) => false,
            (Phase::Failed { .. }, _) => false,
            (_, TurnEvent::Done) => true,
            (_, _) => false,
        }
    }
}

/// Puts a message at the end of the conversation.
fn push_message(history: &mut Vec<ConversationMessage>, message: ConversationMessage)
    ensures
        message_views(final(history)@) == message_views(old(history)@).push(message@),
{
    let ghost before = message_views(history@);
    let ghost given = message@;
    history.push(message);
    assert(message_views(history@) =~= before.push(given));
}

/// The state that a turn, a conversation and a session make up.
pub open spec fn state_of(
    turn: TurnView,
    history: Seq<ConversationMessage>,
    session: Option<String>,
) -> TurnState {
    TurnState { turn, history: message_views(history), session: opt_view(session) }
}

impl Turn {
    /// Takes the answer into the conversation and the session.
    fn take_in_answer(
        response: ModelResponse,
        store_responses: bool,
        history: &mut Vec<ConversationMessage>,
        session_last_response_id: &mut Option<String>,
    ) -> (r: Phase)
        ensures
            r@ == (PhaseView::Close { text: answer_text(response@) }),
            message_views(final(history)@) == message_views(old(history)@).push(
                text_message("assistant"@, answer_text(response@)),
            ),
            opt_view(*final(session_last_response_id)) == if_stored(
                store_responses,
                response@.response_id,
            ),
    {
        let text = match response.content {
            Some(content) => content,
            None => String::new(),
        };
        assert(text@ =~= answer_text(response@));
        push_message(history, ConversationMessage::assistant(text.as_str()));
        *session_last_response_id = if store_responses {
            response.response_id
        } else {
            None
        };
        Phase::Close { text }
    }

    /// Goes on with what came of the last action.
    pub fn advance(
        self,
        history: &mut Vec<ConversationMessage>,
        session_last_response_id: &mut Option<String>,
        event: TurnEvent,
    ) -> (r: Turn)
        requires
            can_step(self@, event@),
        ensures
            state_of(r@, final(history)@, *final(session_last_response_id)) == step(
                state_of(self@, old(history)@, *old(session_last_response_id)),
                event@,
            ),
            self@.phase is Start ==> {
                &&& final(history)@.len() == old(history)@.len() + 1
                &&& final(history)@.last().role@ == "user"@
                &&& final(history)@.last().content matches Some(text) && text@ == self@.prompt
            },
    {
        let ghost before = state_of(self@, history@, *session_last_response_id);
        let ghost after = step(before, event@);
        proof {
            use_type_invariant(&self);
            step_keeps_turn_ok(before, event@);
        }
        let store_responses = self.store_responses;
        let mut model_usage = self.model_usage;
        let mut tool_usage = self.tool_usage;
        let mut previous_response_id = self.previous_response_id;
        let mut incremental_from = self.incremental_from;
        let phase: Phase = match (self.phase, event) {
            (Phase::Start, _) => {
                push_message(history, ConversationMessage::user(self.prompt.as_str()));
                Phase::Announce { iteration: 1 }
            },
            (Phase::Announce { iteration }, _) => Phase::Request { iteration },
            (Phase::Request { iteration }, _) => Phase::Call { iteration },
            (Phase::Call { iteration }, TurnEvent::ModelAnswered(answer)) => {
                model_usage.add_response(
                    iteration,
                    answer.duration_ms as u128,
                    answer.response.usage.as_ref(),
                );
                incremental_from = None;
                Phase::Report { iteration, answer }
            },
            (Phase::Call { iteration }, TurnEvent::ModelFailed(failure)) => Phase::GiveUp {
                failure: failure.context("model completion failed".to_owned()),
            },
            (Phase::Report { iteration, answer }, _) => {
                previous_response_id = if store_responses {
                    copy_opt(&answer.response.response_id)
                } else {
                    None
                };
                if answer.response.execution_plan.is_some() {
                    Phase::Plan { iteration, answer }
                } else {
                    Phase::Respond { iteration, answer }
                }
            },
            (Phase::Plan { iteration, answer }, _) => Phase::Respond { iteration, answer },
            (Phase::Respond { iteration, answer }, _) => {
                if answer.response.tool_calls.len() > 0 {
                    let response = answer.response;
                    let calls = copy_calls(&response.tool_calls);
                    let response_id = copy_opt(&response.response_id);
                    push_message(
                        history,
                        ConversationMessage::assistant_tool_calls(
                            response.content,
                            response.tool_calls,
                            response.response_items,
                        ),
                    );
                    assert(message_views(history@).len() == history@.len());
                    Phase::NoteCall {
                        round: ToolRound {
                            iteration,
                            calls,
                            at: 0,
                            response_id,
                            start: history.len(),
                        },
                    }
                } else if !answer.streamed_text.as_str().is_empty() {
                    Phase::Deliver { answer }
                } else {
                    Turn::take_in_answer(
                        answer.response,
                        store_responses,
                        history,
                        session_last_response_id,
                    )
                }
            },
            (Phase::NoteCall { round }, _) => Phase::StartTool { round },
            (Phase::StartTool { round }, _) => Phase::RunTool { round },
            (Phase::RunTool { round }, TurnEvent::ToolFinished { result, duration_ms }) => {
                tool_usage.add_result(result.ok, duration_ms as u128);
                Phase::FinishTool { round, result, duration_ms }
            },
            (Phase::FinishTool { round, result, duration_ms }, _) => Phase::NoteResult {
                round,
                result,
            },
            (Phase::NoteResult { round, result }, _) => {
                push_message(
                    history,
                    ConversationMessage::tool_result(
                        result.call_id.as_str(),
                        result.data.to_text().as_str(),
                    ),
                );
                assert(round_of(before.turn.phase) == Some(round@));
                assert(round@.calls.len() == round.calls@.len());
                let count: usize = round.calls.len();
                if round.at + 1 < count {
                    Phase::NoteCall {
                        round: ToolRound {
                            iteration: round.iteration,
                            calls: round.calls,
                            at: round.at + 1,
                            response_id: round.response_id,
                            start: round.start,
                        },
                    }
                } else {
                    incremental_from = if store_responses && round.response_id.is_some() {
                        Some(round.start)
                    } else {
                        None
                    };
                    if round.iteration < MAX_AGENT_ITERATIONS {
                        Phase::Announce { iteration: round.iteration + 1 }
                    } else {
                        Phase::Exhaust
                    }
                }
            },
            (Phase::Deliver { answer }, _) => Turn::take_in_answer(
                answer.response,
                store_responses,
                history,
                session_last_response_id,
            ),
            (Phase::Close { text }, _) => Phase::Answered { text },
            (Phase::Exhaust, _) => Phase::Failed {
                failure: Failure::new(
                    around(
                        "agent reached the maximum of ",
                        decimal(MAX_AGENT_ITERATIONS as u128).as_str(),
                        " iterations",
                    ),
                ),
            },
            (Phase::GiveUp { failure }, _) => Phase::Failed { failure },
            (phase, _) => phase,
        };
        proof {
            assert(phase@ =~= after.turn.phase);
            assert(model_usage@ =~= after.turn.model_usage);
            assert(tool_usage@ =~= after.turn.tool_usage);
            if before.turn.phase is Start {
                assert(message_views(history@) == after.history);
                let last = history@.len() - 1;
                assert(message_views(history@)[last] == history@[last]@);
            }
        }
        Turn {
            prompt: self.prompt,
            metadata: self.metadata,
            prompt_cache: self.prompt_cache,
            store_responses,
            tool_count: self.tool_count,
            model_usage,
            tool_usage,
            previous_response_id,
            incremental_from,
            phase,
        }
    }
}

/// Whether the messages from a position on are results of tools.
pub open spec fn results_from(history: Seq<MessageView>, from: nat) -> bool {
    forall|k: int| from <= k < history.len() ==> (#[trigger] history[k]).role == "tool"@
}

/// Whether the messages from a position on answer the first calls of a list, one
/// after the other, each by the identifier of its call.
pub open spec fn calls_answered(
    history: Seq<MessageView>,
    from: nat,
    calls: Seq<ToolCallView>,
    upto: nat,
) -> bool {
    forall|k: int|
        0 <= k < upto ==> (#[trigger] history[from + k]).tool_call_id == Some(calls[k].call_id)
}

/// What holds of a turn and its conversation: while calls are run, the
/// conversation ends in the message that asked for them and one result for each
/// call that is done, under that call's identifier; and a request that sends only
/// new messages sends results.
pub open spec fn state_ok(state: TurnState) -> bool {
    &&& turn_ok(state.turn)
    &&& round_of(state.turn.phase) matches Some(round) ==> {
        &&& round.start >= 1
        &&& round.start + round.at == state.history.len()
        &&& state.history[round.start - 1].role == "assistant"@
        &&& state.history[round.start - 1].tool_calls == round.calls
        &&& results_from(state.history, round.start)
        &&& calls_answered(state.history, round.start, round.calls, round.at)
    }
    &&& state.turn.incremental_from matches Some(from) ==> {
        ||| !(state.turn.phase is Announce || state.turn.phase is Request
            || state.turn.phase is Call)
        ||| from < state.history.len() && results_from(state.history, from)
    }
}

/// A turn and its conversation are in order at the start.
pub proof fn turns_start_in_order(
    prompt: Seq<char>,
    metadata: MetadataView,
    prompt_cache: CacheSettingsView,
    store_responses: bool,
    tool_count: nat,
    history: Seq<MessageView>,
    session: Option<Seq<char>>,
)
    ensures
        state_ok(
            TurnState {
                turn: started(
                    prompt,
                    metadata,
                    prompt_cache,
                    store_responses,
                    tool_count,
                    session,
                ),
                history,
                session,
            },
        ),
{
}

/// Every step keeps a turn and its conversation in order.
pub proof fn step_keeps_state_ok(state: TurnState, event: TurnEventView)
    requires
        state_ok(state),
        can_step(state.turn, event),
    ensures
        state_ok(step(state, event)),
{
    step_keeps_turn_ok(state, event);
    let after = step(state, event);
    match state.turn.phase {
        PhaseView::NoteResult { round, result } => {
            assert(forall|k: int|
                0 <= k < state.history.len() ==> after.history[k] == state.history[k]);
            assert(after.history[round.start - 1] == state.history[round.start - 1]);
            assert(after.history[state.history.len() as int].role == "tool"@);
            assert forall|k: int| round.start <= k < after.history.len() implies (
            #[trigger] after.history[k]).role == "tool"@ by {
                if k < state.history.len() {
                    assert(state.history[k].role == "tool"@);
                }
            }
            assert(results_from(after.history, round.start));
            lemma_next_call_is_answered(state);
        },
        _ => {},
    }
}

/// The message that records a result answers the call that was run.
proof fn lemma_next_call_is_answered(state: TurnState)
    requires
        state_ok(state),
        state.turn.phase is NoteResult,
    ensures
        ({
            let round = state.turn.phase->NoteResult_round;
            calls_answered(
                step(state, TurnEventView::Done).history,
                round.start,
                round.calls,
                round.at + 1,
            )
        }),
{
    let round = state.turn.phase->NoteResult_round;
    let after = step(state, TurnEventView::Done);
    assert(round_of(state.turn.phase) == Some(round));
    assert forall|k: int| 0 <= k < round.at + 1 implies (#[trigger] after.history[round.start
        + k]).tool_call_id == Some(round.calls[k].call_id) by {
        if k < round.at {
            assert(after.history[round.start + k] == state.history[round.start + k]);
        }
    }
}

/// A step never takes back or changes what was said: it adds one message at
/// most.
pub proof fn history_only_grows(state: TurnState, event: TurnEventView)
    ensures
        state.history.len() <= step(state, event).history.len() <= state.history.len() + 1,
        step(state, event).history.take(state.history.len() as int) == state.history,
{
    let after = step(state, event).history;
    assert(after.take(state.history.len() as int) =~= state.history);
}

/// The model is called with the whole conversation, unless its responses are
/// stored: then, after tools have run, with their results alone and the response
/// that asked for them.
pub proof fn requests_send_all_or_new_results(state: TurnState)
    requires
        state_ok(state),
        state.turn.phase is Call,
    ensures
        action_of(state.turn, state.history) matches TurnActionView::CallModel {
            messages,
            context,
        } && if context.incremental {
            &&& state.turn.store_responses
            &&& context.previous_response_id is Some
            &&& messages.len() > 0
            &&& results_from(messages, 0)
        } else {
            messages == state.history
        },
{
    match state.turn.incremental_from {
        Some(from) => {
            let sent = state.history.skip(from as int);
            assert forall|k: int| 0 <= k < sent.len() implies (#[trigger] sent[k]).role
                == "tool"@ by {
                assert(sent[k] == state.history[from + k]);
            }
        },
        None => {},
    }
}

/// Where responses are not stored, no request names an earlier response, each
/// sends the whole conversation, and the answer leaves the session without a
/// response to go on from.
pub proof fn nothing_is_chained_unless_stored(state: TurnState, event: TurnEventView)
    requires
        turn_ok(state.turn),
        !state.turn.store_responses,
    ensures
        state.turn.phase is Call ==> action_of(state.turn, state.history) == (
        TurnActionView::CallModel {
            messages: state.history,
            context: ContextView { previous_response_id: None, incremental: false },
        }),
        step(state, event).turn.phase is Close && !(state.turn.phase is Close) ==> step(
            state,
            event,
        ).session is None,
{
}

/// The answer to a turn makes the session go on from its response, where
/// responses are stored.
pub proof fn answers_are_chained_where_stored(state: TurnState, event: TurnEventView)
    requires
        turn_ok(state.turn),
        state.turn.store_responses,
        state.turn.phase is Deliver,
    ensures
        step(state, event).session == state.turn.phase->Deliver_answer.response.response_id,
        step(state, event).turn.phase is Close,
{
}

/// Text that the model streamed reaches the user only from an answer that asks
/// for no tools.
pub proof fn only_final_text_is_delivered(turn: TurnView, history: Seq<MessageView>)
    requires
        turn_ok(turn),
    ensures
        action_of(turn, history) is Deliver ==> turn.phase is Deliver
            && turn.phase->Deliver_answer.response.tool_calls.len() == 0 && action_of(
            turn,
            history,
        ) == (TurnActionView::Deliver { text: turn.phase->Deliver_answer.streamed_text }),
{
}

/// In one turn the model answers as often as the limit allows at most, and is
/// not called again after that.
pub proof fn model_calls_are_limited(turn: TurnView, history: Seq<MessageView>)
    requires
        turn_ok(turn),
    ensures
        turn.model_usage.model_calls <= MAX_AGENT_ITERATIONS,
        action_of(turn, history) is CallModel ==> turn.model_usage.model_calls
            < MAX_AGENT_ITERATIONS,
{
}

/// A turn comes to its end only behind the record of it, and what it ends in is
/// what was recorded.
pub proof fn turns_end_behind_a_record(state: TurnState, event: TurnEventView)
    requires
        can_step(state.turn, event),
    ensures
        step(state, event).turn.phase matches PhaseView::Answered { text } ==> action_of(
            state.turn,
            state.history,
        ) == (TurnActionView::Record {
            kind: "run_completed"@,
            payload: completed_json(text, state.turn.model_usage),
        }),
        step(state, event).turn.phase is Failed ==> exists|reason: Seq<char>|
            action_of(state.turn, state.history) == (TurnActionView::Record {
                kind: "run_completed"@,
                payload: #[trigger] failed_json(reason, state.turn.model_usage),
            }),
{
}

/// Each call of a round is answered by one message, which carries the call's
/// identifier and the data of its result, before the next call is taken up; and
/// at the end of the round each of its calls is answered, in their order.
pub proof fn each_call_is_answered(state: TurnState)
    requires
        state_ok(state),
        state.turn.phase is NoteResult,
    ensures
        ({
            let round = state.turn.phase->NoteResult_round;
            let result = state.turn.phase->NoteResult_result;
            let after = step(state, TurnEventView::Done);
            &&& after.history == state.history.push(
                tool_result_message(
                    round.calls[round.at as int].call_id,
                    json_print(result.data),
                ),
            )
            &&& round.at + 1 < round.calls.len() ==> round_of(after.turn.phase) == Some(
                RoundView { at: round.at + 1, ..round },
            )
            &&& round.at + 1 == round.calls.len() ==> after.history.len() == round.start
                + round.calls.len() && calls_answered(
                after.history,
                round.start,
                round.calls,
                round.calls.len(),
            )
        }),
{
    lemma_next_call_is_answered(state);
}

/// How much of a turn is left: iterations, calls of the round, and steps.
pub open spec fn remaining(turn: TurnView) -> (nat, nat, nat) {
    match turn.phase {
        PhaseView::Start => (MAX_AGENT_ITERATIONS as nat + 1, 0, 0),
        PhaseView::Announce { iteration } => ((MAX_AGENT_ITERATIONS + 1 - iteration) as nat, 1, 5),
        PhaseView::Request { iteration } => ((MAX_AGENT_ITERATIONS + 1 - iteration) as nat, 1, 4),
        PhaseView::Call { iteration } => ((MAX_AGENT_ITERATIONS + 1 - iteration) as nat, 1, 3),
        PhaseView::Report { iteration, .. } => (
            (MAX_AGENT_ITERATIONS + 1 - iteration) as nat,
            1,
            2,
        ),
        PhaseView::Plan { iteration, .. } => (
            (MAX_AGENT_ITERATIONS + 1 - iteration) as nat,
            1,
            1,
        ),
        PhaseView::Respond { iteration, .. } => (
            (MAX_AGENT_ITERATIONS + 1 - iteration) as nat,
            1,
            0,
        ),
        _ => match round_of(turn.phase) {
            Some(round) => (
                (MAX_AGENT_ITERATIONS - round.iteration) as nat,
                (round.calls.len() - round.at) as nat + 1,
                match turn.phase {
                    PhaseView::NoteCall { .. } => 4,
                    PhaseView::StartTool { .. } => 3,
                    PhaseView::RunTool { .. } => 2,
                    PhaseView::FinishTool { .. } => 1,
                    _ => 0,
                },
            ),
            None => (
                0,
                0,
                match turn.phase {
                    PhaseView::Deliver { .. } => 2,
                    PhaseView::Close { .. } => 1,
                    PhaseView::Exhaust => 1,
                    PhaseView::GiveUp { .. } => 1,
                    _ => 0,
                },
            ),
        },
    }
}

/// Whether less is left by the first number that differs.
pub open spec fn is_less(a: (nat, nat, nat), b: (nat, nat, nat)) -> bool {
    a.0 < b.0 || (a.0 == b.0 && (a.1 < b.1 || (a.1 == b.1 && a.2 < b.2)))
}

/// Every step brings a turn closer to its end, so no turn runs forever.
pub proof fn steps_lead_to_the_end(state: TurnState, event: TurnEventView)
    requires
        turn_ok(state.turn),
        can_step(state.turn, event),
    ensures
        is_less(remaining(step(state, event).turn), remaining(state.turn)),
{
    step_keeps_turn_ok(state, event);
}

/// Whether a turn can go on with each of a list of events in turn.
pub open spec fn can_run(state: TurnState, events: Seq<TurnEventView>) -> bool
    decreases events.len(),
{
    events.len() > 0 ==> can_run(state, events.drop_last()) && can_step(
        run(state, events.drop_last()).turn,
        events.last(),
    )
}

/// A state after a list of events.
pub open spec fn run(state: TurnState, events: Seq<TurnEventView>) -> TurnState
    decreases events.len(),
{
    if events.len() == 0 {
        state
    } else {
        step(run(state, events.drop_last()), events.last())
    }
}

/// Whatever comes of its actions, a turn and its conversation stay in order, and
/// the conversation keeps all that was said before.
pub proof fn runs_stay_in_order(state: TurnState, events: Seq<TurnEventView>)
    requires
        state_ok(state),
        can_run(state, events),
    ensures
        state_ok(run(state, events)),
        state.history.len() <= run(state, events).history.len(),
        run(state, events).history.take(state.history.len() as int) == state.history,
    decreases events.len(),
{
    if events.len() == 0 {
        assert(state.history.take(state.history.len() as int) =~= state.history);
    } else {
        let before = run(state, events.drop_last());
        runs_stay_in_order(state, events.drop_last());
        step_keeps_state_ok(before, events.last());
        history_only_grows(before, events.last());
        let after = run(state, events);
        assert(after.history.take(state.history.len() as int) =~= before.history.take(
            state.history.len() as int,
        )) by {
            assert(after.history.take(before.history.len() as int) == before.history);
            assert forall|k: int| 0 <= k < state.history.len() implies after.history[k]
                == before.history[k] by {
                assert(after.history.take(before.history.len() as int)[k] == after.history[k]);
            }
        }
    }
}

/// A state after an action that is simply done.
pub open spec fn done(state: TurnState) -> TurnState {
    step(state, TurnEventView::Done)
}

/// The prompt enters the conversation: the step out of the start keeps all that was
/// said and adds one message, the user's, whose content is the prompt.
pub proof fn prompts_enter_the_conversation(state: TurnState, event: TurnEventView)
    requires
        state.turn.phase is Start,
    ensures
        ({
            let after = step(state, event).history;
            &&& after.len() == state.history.len() + 1
            &&& after.drop_last() == state.history
            &&& after.last().role == "user"@
            &&& after.last().content == Some(state.turn.prompt)
            &&& after.last().tool_calls.len() == 0
            &&& after.last().response_items.len() == 0
            &&& after.last().tool_call_id is None
        }),
{
    assert(step(state, event).history.drop_last() =~= state.history);
}

/// Every turn calls the model first with the conversation so far and, behind it, a
/// message of the user whose content is the prompt that the turn was made with. The
/// call goes on from the session's response where responses are stored.
pub proof fn the_first_call_asks_the_prompt(
    prompt: Seq<char>,
    metadata: MetadataView,
    prompt_cache: CacheSettingsView,
    store_responses: bool,
    tool_count: nat,
    history: Seq<MessageView>,
    session: Option<Seq<char>>,
)
    ensures
        ({
            let turn = started(
                prompt,
                metadata,
                prompt_cache,
                store_responses,
                tool_count,
                session,
            );
            let calling = done(done(done(TurnState { turn, history, session })));
            action_of(calling.turn, calling.history) matches TurnActionView::CallModel {
                messages,
                context,
            } && {
                &&& messages.len() == history.len() + 1
                &&& messages.drop_last() == history
                &&& messages.last().role == "user"@
                &&& messages.last().content == Some(prompt)
                &&& messages.last().tool_calls.len() == 0
                &&& !context.incremental
                &&& store_responses ==> context.previous_response_id == session
                &&& !store_responses ==> context.previous_response_id is None
            }
        }),
{
    let turn = started(prompt, metadata, prompt_cache, store_responses, tool_count, session);
    let first = TurnState { turn, history, session };
    let calling = done(done(done(first)));
    assert(calling.history.drop_last() =~= history);
}

/// What a turn does before it first calls the model: it records the prompt, the
/// model and the settings of its cache, and says that the model is called for the
/// first time.
pub proof fn turns_begin_with_a_record(
    prompt: Seq<char>,
    metadata: MetadataView,
    prompt_cache: CacheSettingsView,
    store_responses: bool,
    tool_count: nat,
    history: Seq<MessageView>,
    session: Option<Seq<char>>,
)
    ensures
        ({
            let turn = started(
                prompt,
                metadata,
                prompt_cache,
                store_responses,
                tool_count,
                session,
            );
            let first = TurnState { turn, history, session };
            let second = done(first);
            &&& turn.phase is Start
            &&& turn.store_responses == store_responses
            &&& turn.tool_count == tool_count
            &&& turn.model_usage.model_calls == 0
            &&& turn.model_usage.duration_ms == 0
            &&& turn.model_usage.total_tokens == 0
            &&& turn.tool_usage.tool_calls == 0
            &&& turn.tool_usage.failed_tool_calls == 0
            &&& turn.tool_usage.duration_ms == 0
            &&& action_of(turn, history) matches TurnActionView::Record { kind, payload } && {
                &&& kind == "run_started"@
                &&& payload.get("prompt"@) == Some(JsonView::Text(prompt))
                &&& payload.get("model"@) == Some(metadata_json(metadata))
                &&& payload.get("prompt_cache"@) == Some(cache_settings_json(prompt_cache))
                &&& payload->Object_0.len() == 3
            }
            &&& action_of(second.turn, second.history) == TurnActionView::Emit(
                AgentEventView::ModelStarted { iteration: 1, model: metadata.model },
            )
        }),
{
    broadcast use lookup_of_put, len_of_put;

    reveal_strlit("prompt");
    reveal_strlit("model");
    reveal_strlit("prompt_cache");
    assert("prompt"@.len() == 6 && "model"@.len() == 5 && "prompt_cache"@.len() == 12);
}

/// Before each call of the model, the model's name and the iteration are told, and
/// the request is recorded: its iteration, how many messages it sends, how many
/// tools it offers, and what it goes on from. The call then sends just those
/// messages.
pub proof fn calls_are_recorded_first(state: TurnState)
    requires
        state.turn.phase is Announce,
    ensures
        ({
            let n = state.turn.phase->Announce_iteration;
            let noting = done(state);
            let calling = done(noting);
            &&& action_of(state.turn, state.history) == TurnActionView::Emit(
                AgentEventView::ModelStarted { iteration: n, model: state.turn.metadata.model },
            )
            &&& calling.history == state.history
            &&& calling.turn.phase == (PhaseView::Call { iteration: n })
            &&& action_of(calling.turn, calling.history) matches TurnActionView::CallModel {
                messages,
                context,
            } && (action_of(noting.turn, noting.history) matches TurnActionView::Record {
                kind,
                payload,
            } && {
                &&& kind == "model_request"@
                &&& payload.get("iteration"@) == Some(JsonView::Integer(n as int))
                &&& payload.get("message_count"@) == Some(
                    JsonView::Integer(messages.len() as int),
                )
                &&& payload.get("tool_count"@) == Some(
                    JsonView::Integer(state.turn.tool_count as int),
                )
                &&& payload.get("incremental"@) == Some(JsonView::Bool(context.incremental))
                &&& payload.get("previous_response_id"@) == Some(
                    match context.previous_response_id {
                        Some(id) => JsonView::Text(id),
                        None => JsonView::Null,
                    },
                )
                &&& payload->Object_0.len() == 5
            })
        }),
{
    broadcast use lookup_of_put, len_of_put;

    reveal_strlit("iteration");
    reveal_strlit("message_count");
    reveal_strlit("tool_count");
    reveal_strlit("incremental");
    reveal_strlit("previous_response_id");
    assert("iteration"@.len() == 9 && "message_count"@.len() == 13 && "tool_count"@.len() == 10
        && "incremental"@.len() == 11 && "previous_response_id"@.len() == 20);
}

/// Whether a payload tells an answer of the model: all that it holds, each under
/// its name, and nothing else.
pub open spec fn tells_answer(payload: JsonView, iteration: nat, answer: AnswerView) -> bool {
    let response = answer.response;
    &&& payload.get("iteration"@) == Some(JsonView::Integer(iteration as int))
    &&& payload.get("content"@) == Some(
        match response.content {
            Some(text) => JsonView::Text(text),
            None => JsonView::Null,
        },
    )
    &&& payload.get("tool_call_count"@) == Some(
        JsonView::Integer(response.tool_calls.len() as int),
    )
    &&& payload.get("tool_calls"@) == Some(tool_calls_json(response.tool_calls))
    &&& payload.get("response_item_count"@) == Some(
        JsonView::Integer(response.response_items.len() as int),
    )
    &&& payload.get("response_items"@) == Some(JsonView::List(response.response_items))
    &&& payload.get("duration_ms"@) == Some(JsonView::Integer(answer.duration_ms as int))
    &&& payload.get("usage"@) == Some(
        match response.usage {
            Some(usage) => usage,
            None => JsonView::Null,
        },
    )
    &&& payload.get("response_id"@) == Some(
        match response.response_id {
            Some(id) => JsonView::Text(id),
            None => JsonView::Null,
        },
    )
    &&& payload.get("has_execution_plan"@) == Some(
        JsonView::Bool(response.execution_plan is Some),
    )
    &&& payload->Object_0.len() == 10
}

#[verifier::rlimit(40)]
proof fn lemma_answer_is_told(iteration: nat, answer: AnswerView)
    ensures
        tells_answer(model_response_json(iteration, answer), iteration, answer),
{
    broadcast use lookup_of_put, len_of_put;

    reveal_strlit("iteration");
    reveal_strlit("content");
    reveal_strlit("tool_call_count");
    reveal_strlit("tool_calls");
    reveal_strlit("response_item_count");
    reveal_strlit("response_items");
    reveal_strlit("duration_ms");
    reveal_strlit("usage");
    reveal_strlit("response_id");
    reveal_strlit("has_execution_plan");
    assert("iteration"@.len() == 9 && "content"@.len() == 7 && "tool_call_count"@.len() == 15
        && "tool_calls"@.len() == 10 && "response_item_count"@.len() == 19
        && "response_items"@.len() == 14 && "duration_ms"@.len() == 11 && "usage"@.len() == 5
        && "response_id"@.len() == 11 && "has_execution_plan"@.len() == 18);
    assert("duration_ms"@[0] == 'd' && "response_id"@[0] == 'r');
}

/// An answer of the model is told and recorded before anything comes of it: first
/// its time, the totals with it, and how many calls it asks for; then its plan,
/// where it has one; then all that it holds. The conversation stays as it was.
#[verifier::rlimit(40)]
pub proof fn answers_are_recorded(state: TurnState, answer: AnswerView)
    requires
        state.turn.phase is Call,
    ensures
        ({
            let n = state.turn.phase->Call_iteration;
            let telling = step(state, TurnEventView::ModelAnswered(answer));
            let next = done(telling);
            let recording = if answer.response.execution_plan is Some {
                done(next)
            } else {
                next
            };
            &&& action_of(telling.turn, telling.history) == TurnActionView::Emit(
                AgentEventView::ModelCompleted {
                    iteration: n,
                    model: state.turn.metadata.model,
                    duration_ms: answer.duration_ms,
                    usage_totals: telling.turn.model_usage,
                    tool_call_count: answer.response.tool_calls.len(),
                },
            )
            &&& telling.turn.model_usage == with_response(
                state.turn.model_usage,
                n as usize,
                answer.duration_ms,
                answer.response.usage,
            )
            &&& answer.response.execution_plan matches Some(plan) ==> (action_of(
                next.turn,
                next.history,
            ) matches TurnActionView::Record { kind, payload } && kind == "execution_plan"@
                && payload.get("iteration"@) == Some(JsonView::Integer(n as int)) && payload.get(
                "extra"@,
            ) == Some(plan) && payload->Object_0.len() == 2)
            &&& action_of(recording.turn, recording.history) matches TurnActionView::Record {
                kind,
                payload,
            } && kind == "model_response"@ && tells_answer(payload, n, answer)
            &&& recording.turn.phase == (PhaseView::Respond { iteration: n, answer })
            &&& recording.turn.model_usage == telling.turn.model_usage
            &&& recording.turn.tool_usage == state.turn.tool_usage
            &&& recording.history == state.history
            &&& recording.session == state.session
            &&& state.turn.store_responses ==> recording.turn.previous_response_id
                == answer.response.response_id
            &&& !state.turn.store_responses ==> recording.turn.previous_response_id is None
        }),
{
    broadcast use lookup_of_put, len_of_put;

    let n = state.turn.phase->Call_iteration;
    lemma_answer_is_told(n, answer);
    reveal_strlit("iteration");
    reveal_strlit("extra");
    assert("iteration"@.len() == 9 && "extra"@.len() == 5);
}

/// Whether a payload tells how a turn ended: its status, one more text, and the
/// totals.
pub open spec fn tells_end(
    payload: JsonView,
    status: Seq<char>,
    key: Seq<char>,
    text: Seq<char>,
    usage: UsageView,
) -> bool {
    &&& payload.get("status"@) == Some(JsonView::Text(status))
    &&& payload.get(key) == Some(JsonView::Text(text))
    &&& payload.get("model_usage"@) == Some(usage_json(usage))
    &&& payload->Object_0.len() == 3
}

proof fn lemma_end_is_told(text: Seq<char>, usage: UsageView)
    ensures
        tells_end(completed_json(text, usage), "completed"@, "answer"@, text, usage),
        tells_end(failed_json(text, usage), "failed"@, "reason"@, text, usage),
{
    broadcast use lookup_of_put, len_of_put;

    reveal_strlit("status");
    reveal_strlit("answer");
    reveal_strlit("reason");
    reveal_strlit("model_usage");
    assert("status"@.len() == 6 && "answer"@.len() == 6 && "reason"@.len() == 6
        && "model_usage"@.len() == 11);
    assert("status"@[0] == 's' && "answer"@[0] == 'a' && "reason"@[0] == 'r');
}

/// An answer without calls is the answer of the turn. What was streamed of it is
/// delivered first; then it joins the conversation as a message of the model, and
/// the session goes on from its response where responses are stored; the record
/// of the turn's end tells it; and the turn ends in it, with what the turn has
/// used.
#[verifier::rlimit(40)]
pub proof fn answers_end_the_turn(state: TurnState)
    requires
        state.turn.phase is Respond,
        state.turn.phase->Respond_answer.response.tool_calls.len() == 0,
    ensures
        ({
            let answer = state.turn.phase->Respond_answer;
            let text = match answer.response.content {
                Some(content) => content,
                None => Seq::empty(),
            };
            let next = done(state);
            let closing = if answer.streamed_text.len() > 0 {
                done(next)
            } else {
                next
            };
            let end = done(closing);
            &&& answer.streamed_text.len() > 0 ==> action_of(next.turn, next.history) == (
            TurnActionView::Deliver { text: answer.streamed_text })
            &&& closing.history.len() == state.history.len() + 1
            &&& closing.history.drop_last() == state.history
            &&& closing.history.last().role == "assistant"@
            &&& closing.history.last().content == Some(text)
            &&& closing.history.last().tool_calls.len() == 0
            &&& closing.history.last().response_items.len() == 0
            &&& action_of(closing.turn, closing.history) matches TurnActionView::Record {
                kind,
                payload,
            } && kind == "run_completed"@ && tells_end(
                payload,
                "completed"@,
                "answer"@,
                text,
                state.turn.model_usage,
            )
            &&& end.history == closing.history
            &&& state.turn.store_responses ==> end.session == answer.response.response_id
            &&& !state.turn.store_responses ==> end.session is None
            &&& action_of(end.turn, end.history) matches TurnActionView::Finish {
                answer: given,
                stats,
            } && given == text && stats.model_usage == state.turn.model_usage && stats.tool_usage
                == state.turn.tool_usage
        }),
{
    let answer = state.turn.phase->Respond_answer;
    let text = answer_text(answer.response);
    lemma_end_is_told(text, state.turn.model_usage);
    let next = done(state);
    let closing = if answer.streamed_text.len() > 0 {
        done(next)
    } else {
        next
    };
    assert(closing.history.drop_last() =~= state.history);
}

/// An answer that asks for tools joins the conversation whole, as one message of
/// the model, and its calls are taken up from the first on. Nothing that was
/// streamed of it is delivered.
pub proof fn calls_join_the_conversation(state: TurnState)
    requires
        state.turn.phase is Respond,
        state.turn.phase->Respond_answer.response.tool_calls.len() > 0,
    ensures
        ({
            let response = state.turn.phase->Respond_answer.response;
            let after = done(state);
            &&& after.history.len() == state.history.len() + 1
            &&& after.history.drop_last() == state.history
            &&& after.history.last().role == "assistant"@
            &&& after.history.last().content == response.content
            &&& after.history.last().tool_calls == response.tool_calls
            &&& after.history.last().response_items == response.response_items
            &&& after.history.last().tool_call_id is None
            &&& after.session == state.session
            &&& after.turn.model_usage == state.turn.model_usage
            &&& after.turn.tool_usage == state.turn.tool_usage
            &&& after.turn.phase matches PhaseView::NoteCall { round } && round.calls
                == response.tool_calls && round.at == 0 && round.iteration
                == state.turn.phase->Respond_iteration && round.response_id
                == response.response_id && round.start == after.history.len()
        }),
{
    assert(done(state).history.drop_last() =~= state.history);
}

/// A call is recorded, told and run, and its result told and recorded, each as it
/// is; the result is counted; and the text of its data joins the conversation as
/// the answer to that call. Then comes the next call of the round, or, behind the
/// last one, the next iteration, or the end where there is none.
#[verifier::rlimit(40)]
pub proof fn each_call_is_run_and_reported(
    state: TurnState,
    result: ToolResultView,
    duration_ms: nat,
)
    requires
        state.turn.phase is NoteCall,
    ensures
        ({
            let round = state.turn.phase->NoteCall_round;
            let call = round.calls[round.at as int];
            let starting = done(state);
            let running = done(starting);
            let telling = step(running, TurnEventView::ToolFinished { result, duration_ms });
            let noting = done(telling);
            let after = done(noting);
            &&& action_of(state.turn, state.history) == (TurnActionView::Record {
                kind: "tool_call"@,
                payload: tool_call_json(call),
            })
            &&& action_of(starting.turn, starting.history) == TurnActionView::Emit(
                AgentEventView::ToolStarted {
                    tag: tag_of(call),
                    name: call.name,
                    call_id: call.call_id,
                },
            )
            &&& action_of(running.turn, running.history) == TurnActionView::ExecuteTool(call)
            &&& action_of(telling.turn, telling.history) == TurnActionView::Emit(
                completion_event(call, result, duration_ms),
            )
            &&& action_of(noting.turn, noting.history) == (TurnActionView::Record {
                kind: "tool_result"@,
                payload: tool_result_json(result),
            })
            &&& noting.history == state.history
            &&& after.history.len() == state.history.len() + 1
            &&& after.history.drop_last() == state.history
            &&& after.history.last().role == "tool"@
            &&& after.history.last().content == Some(json_print(result.data))
            &&& after.history.last().tool_call_id == Some(result.call_id)
            &&& after.history.last().tool_calls.len() == 0
            &&& after.turn.model_usage == state.turn.model_usage
            &&& after.turn.tool_usage.tool_calls == state.turn.tool_usage.tool_calls + 1
            &&& after.turn.tool_usage.duration_ms == state.turn.tool_usage.duration_ms
                + duration_ms
            &&& after.turn.tool_usage.failed_tool_calls == state.turn.tool_usage.failed_tool_calls
                + if result.ok {
                0int
            } else {
                1
            }
            &&& after.session == state.session
            &&& round.at + 1 < round.calls.len() ==> (after.turn.phase matches PhaseView::NoteCall {
                round: next,
            } && next.at == round.at + 1 && next.calls == round.calls && next.iteration
                == round.iteration && next.start == round.start && next.response_id
                == round.response_id)
            &&& round.at + 1 >= round.calls.len() ==> if round.iteration < 16 {
                after.turn.phase == (PhaseView::Announce { iteration: round.iteration + 1 })
            } else {
                after.turn.phase is Exhaust
            }
            &&& round.at + 1 >= round.calls.len() ==> after.turn.incremental_from == if
                state.turn.store_responses && round.response_id is Some {
                Some(round.start)
            } else {
                None
            }
        }),
{
    let starting = done(state);
    let running = done(starting);
    let telling = step(running, TurnEventView::ToolFinished { result, duration_ms });
    let after = done(done(telling));
    assert(after.history.drop_last() =~= state.history);
}

/// Where responses are stored, the call of the model behind a round sends the
/// results of that round and nothing before them; otherwise it sends the whole
/// conversation.
pub proof fn what_is_sent_after_a_round(state: TurnState)
    requires
        state.turn.phase is Call,
    ensures
        action_of(state.turn, state.history) matches TurnActionView::CallModel {
            messages,
            context,
        } && {
            &&& context.previous_response_id == state.turn.previous_response_id
            &&& state.turn.incremental_from is None ==> messages == state.history
                && !context.incremental
            &&& state.turn.incremental_from matches Some(from) ==> context.incremental && (from
                <= state.history.len() ==> messages.len() == state.history.len() - from
                && forall|i: int|
                0 <= i < messages.len() ==> #[trigger] messages[i] == state.history[from + i])
        },
{
}

/// A failure of the model ends the turn: the record of its end says that the model
/// failed, and the turn fails with that and, behind it, all that the failure told,
/// and with what the turn has used. The conversation stays as it was.
pub proof fn model_failures_end_the_turn(state: TurnState, chain: Seq<Seq<char>>)
    requires
        state.turn.phase is Call,
    ensures
        ({
            let closing = step(state, TurnEventView::ModelFailed(chain));
            let end = done(closing);
            &&& action_of(closing.turn, closing.history) matches TurnActionView::Record {
                kind,
                payload,
            } && kind == "run_completed"@ && tells_end(
                payload,
                "failed"@,
                "reason"@,
                "model completion failed"@,
                state.turn.model_usage,
            )
            &&& end.history == state.history
            &&& end.session == state.session
            &&& action_of(end.turn, end.history) matches TurnActionView::Fail { source, stats } && {
                &&& source.len() == chain.len() + 1
                &&& source[0] == "model completion failed"@
                &&& source.skip(1) == chain
                &&& stats.model_usage == state.turn.model_usage
                &&& stats.tool_usage == state.turn.tool_usage
            }
        }),
{
    lemma_end_is_told("model completion failed"@, state.turn.model_usage);
    assert((seq!["model completion failed"@] + chain).skip(1) =~= chain);
}

/// A turn that has used up its iterations fails: the record of its end says so, and
/// the failure names the limit.
pub proof fn used_up_turns_fail(state: TurnState)
    requires
        state.turn.phase is Exhaust,
    ensures
        ({
            let end = done(state);
            &&& action_of(state.turn, state.history) matches TurnActionView::Record {
                kind,
                payload,
            } && kind == "run_completed"@ && tells_end(
                payload,
                "failed"@,
                "reason"@,
                "maximum agent iterations reached"@,
                state.turn.model_usage,
            )
            &&& end.history == state.history
            &&& end.session == state.session
            &&& action_of(end.turn, end.history) matches TurnActionView::Fail { source, stats } && {
                &&& source.len() == 1
                &&& occurs(source[0], digits(16))
                &&& stats.model_usage == state.turn.model_usage
                &&& stats.tool_usage == state.turn.tool_usage
            }
        }),
{
    lemma_end_is_told("maximum agent iterations reached"@, state.turn.model_usage);
    middle_occurs("agent reached the maximum of "@, digits(16), " iterations"@);
}

/// What a turn was made with stays what it is, whatever comes of its actions: its
/// prompt, its model, its settings and how many tools it offers.
pub proof fn turns_keep_what_they_were_made_with(state: TurnState, event: TurnEventView)
    ensures
        ({
            let after = step(state, event).turn;
            &&& after.prompt == state.turn.prompt
            &&& after.metadata == state.turn.metadata
            &&& after.prompt_cache == state.turn.prompt_cache
            &&& after.store_responses == state.turn.store_responses
            &&& after.tool_count == state.turn.tool_count
        }),
{
}

/// A turn goes on with what can come of its action: while the model is called, with
/// its answer, as long as that can be counted, or with its failure; while a tool
/// runs, with a result that answers the call; at its end with nothing; and
/// otherwise with the action being done.
pub proof fn turns_go_on_with_what_was_asked(turn: TurnView, event: TurnEventView)
    ensures
        turn.phase is Answered || turn.phase is Failed ==> !can_step(turn, event),
        turn.phase is Call && event is ModelFailed ==> can_step(turn, event),
        turn.phase is Call && can_step(turn, event) ==> event is ModelAnswered
            || event is ModelFailed,
        turn.phase is RunTool && can_step(turn, event) ==> event is ToolFinished
            && event->ToolFinished_result.call_id
            == turn.phase->RunTool_round.calls[turn.phase->RunTool_round.at as int].call_id
            && event->ToolFinished_result.name
            == turn.phase->RunTool_round.calls[turn.phase->RunTool_round.at as int].name,
        !(turn.phase is Call || turn.phase is RunTool || turn.phase is Answered
            || turn.phase is Failed) ==> (can_step(turn, event) <==> event is Done),
        turn.phase is Call && event is ModelAnswered && turn_ok(turn)
            && event->ModelAnswered_0.response.usage is None ==> (can_step(turn, event)
            <==> turn.model_usage.duration_ms + event->ModelAnswered_0.duration_ms <= u64::MAX),
        turn.phase is RunTool && event is ToolFinished && event->ToolFinished_result.call_id
            == turn.phase->RunTool_round.calls[turn.phase->RunTool_round.at as int].call_id
            && event->ToolFinished_result.name
            == turn.phase->RunTool_round.calls[turn.phase->RunTool_round.at as int].name
            && turn.tool_usage.tool_calls < usize::MAX && turn.tool_usage.failed_tool_calls
            < usize::MAX && turn.tool_usage.duration_ms + event->ToolFinished_duration_ms
            <= u128::MAX ==> can_step(turn, event),
{
}

/// What an action holds is what its parts hold, each by itself.
pub proof fn actions_hold_their_parts(action: TurnAction)
    ensures
        action matches TurnAction::Record { kind, payload } ==> action@ == (
        TurnActionView::Record { kind: kind@, payload: payload@ }),
        action matches TurnAction::CallModel { messages, context } ==> (
        action@ matches TurnActionView::CallModel { messages: sent, context: built } && built
            == context@ && sent.len() == messages@.len() && forall|i: int|
            0 <= i < messages@.len() ==> #[trigger] sent[i] == messages@[i]@),
        action matches TurnAction::ExecuteTool(call) ==> action@ == TurnActionView::ExecuteTool(
            call@,
        ),
        action matches TurnAction::Deliver { text } ==> action@ == (TurnActionView::Deliver {
            text: text@,
        }),
        action matches TurnAction::Finish(result) ==> action@ == (TurnActionView::Finish {
            answer: result.answer@,
            stats: result.stats@,
        }),
        action matches TurnAction::Fail(error) ==> action@ == (TurnActionView::Fail {
            source: error.source@,
            stats: error.stats@,
        }),
{
}

/// How many of some events are answers of the model.
pub open spec fn answers_among(events: Seq<TurnEventView>) -> nat
    decreases events.len(),
{
    if events.len() == 0 {
        0
    } else {
        answers_among(events.drop_last()) + if events.last() is ModelAnswered {
            1nat
        } else {
            0
        }
    }
}

/// How many of some events are results of tools, or only of those that failed.
pub open spec fn results_among(events: Seq<TurnEventView>, failed_only: bool) -> nat
    decreases events.len(),
{
    if events.len() == 0 {
        0
    } else {
        results_among(events.drop_last(), failed_only) + if events.last() is ToolFinished && !(
        failed_only && events.last()->ToolFinished_result.ok) {
            1nat
        } else {
            0
        }
    }
}

/// How long the answers of the model and the results of tools among some events
/// took.
pub open spec fn time_among(events: Seq<TurnEventView>) -> (nat, nat)
    decreases events.len(),
{
    if events.len() == 0 {
        (0, 0)
    } else {
        let before = time_among(events.drop_last());
        match events.last() {
            TurnEventView::ModelAnswered(answer) => (before.0 + answer.duration_ms, before.1),
            TurnEventView::ToolFinished { duration_ms, .. } => (
                before.0,
                before.1 + duration_ms,
            ),
            _ => before,
        }
    }
}

/// However a turn goes, what it has used is what came: as many calls of the model as
/// it answered, as many tool calls as there were results, as many failed ones as
/// failed, and the time that all of them took.
pub proof fn turns_use_what_came(state: TurnState, events: Seq<TurnEventView>)
    requires
        can_run(state, events),
    ensures
        ({
            let after = run(state, events).turn;
            &&& after.model_usage.model_calls == state.turn.model_usage.model_calls
                + answers_among(events)
            &&& after.tool_usage.tool_calls == state.turn.tool_usage.tool_calls + results_among(
                events,
                false,
            )
            &&& after.tool_usage.failed_tool_calls == state.turn.tool_usage.failed_tool_calls
                + results_among(events, true)
            &&& after.model_usage.duration_ms == state.turn.model_usage.duration_ms + time_among(
                events,
            ).0
            &&& after.tool_usage.duration_ms == state.turn.tool_usage.duration_ms + time_among(
                events,
            ).1
        }),
    decreases events.len(),
{
    if events.len() > 0 {
        turns_use_what_came(state, events.drop_last());
    }
}

/// The prompt reaches the model: what is sent for the conversation once the prompt
/// is in it ends in a message of the user with that prompt.
pub proof fn prompts_reach_the_model(state: TurnState, event: TurnEventView)
    requires
        state.turn.phase is Start,
        conversation_items(state.history) is Ok,
    ensures
        conversation_items(step(state, event).history) matches Ok(parts) && parts.len()
            == conversation_items(state.history)->Ok_0.len() + 1 && parts.last() == (
        InputItemView::Message { role: Role::User, content: state.turn.prompt }),
{
    let after = step(state, event).history;
    prompts_enter_the_conversation(state, event);
    messages_are_sent_as_they_are(after.last());
    conversations_are_sent_message_by_message(state.history, after.last());
    assert(after =~= state.history.push(after.last()));
    roles_differ();
    let before = conversation_items(state.history)->Ok_0;
    let parts = conversation_items(after)->Ok_0;
    assert(parts[before.len() + 0int] == message_items(after.last())->Ok_0[0]);
}

/// The result of a tool reaches the model: what is sent for the conversation once
/// the result is noted ends in the output of its call, with the text of its data.
pub proof fn results_reach_the_model(state: TurnState, event: TurnEventView)
    requires
        state.turn.phase is NoteResult,
        conversation_items(state.history) is Ok,
    ensures
        conversation_items(step(state, event).history) matches Ok(parts) && parts.len()
            == conversation_items(state.history)->Ok_0.len() + 1 && parts.last() == (
        InputItemView::FunctionCallOutput {
            call_id: state.turn.phase->NoteResult_result.call_id,
            output: json_print(state.turn.phase->NoteResult_result.data),
        }),
{
    let after = step(state, event).history;
    tool_results_are_sent_as_they_are(after.last());
    conversations_are_sent_message_by_message(state.history, after.last());
    assert(after =~= state.history.push(after.last()));
    let before = conversation_items(state.history)->Ok_0;
    let parts = conversation_items(after)->Ok_0;
    assert(parts[before.len() + 0int] == message_items(after.last())->Ok_0[0]);
}

} // verus!
