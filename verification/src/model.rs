//! The conversation with a model: messages, requests, and what comes back as a
//! stream of events.

use crate::config::either;
use crate::config::model_settings;
use crate::config::opt_float;
use crate::config::workspace_view;
use crate::config::EnvValueView;
use crate::config::Environment;
use crate::config::FerrixConfig;
use crate::config::Float32;
use crate::config::FloatView;
use crate::config::ModelConfig;
use crate::config::ModelConfigView;
use crate::config::PromptCacheRetention;
use crate::config::PromptCacheView;
use crate::config::ReasoningEffort;
use crate::failure::Failure;
use crate::json::copy_items;
use crate::json::json_print;
use crate::json::json_read;
use crate::json::json_views;
use crate::json::len_of_put;
use crate::json::lookup;
use crate::json::lookup_after_take_out;
use crate::json::lookup_of_put;
use crate::json::no_entries;
use crate::json::opt_json;
use crate::json::optional_text_view;
use crate::json::put;
use crate::json::take_out;
use crate::json::value_view;
use crate::json::Json;
use crate::json::JsonObject;
use crate::json::JsonView;
use crate::runs::fresh_id;
use crate::runs::is_uuid_v4;
use crate::text::around;
use crate::text::ascii_lower;
use crate::text::copy_opt;
use crate::text::is_blank;
use crate::text::is_white;
use crate::text::lower_char;
use crate::text::middle_occurs;
use crate::text::occurs;
use crate::text::occurs_at;
use crate::text::opt_view;
use crate::text::same;
use crate::text::trimmed;
use crate::text::trimmed_text_is_bare;
use crate::text::views;
use crate::tools::call_views;
use crate::tools::copy_calls;
use crate::tools::definition_views;
use crate::tools::ToolCall;
use crate::tools::ToolCallView;
use crate::tools::ToolDefinition;
use crate::tools::ToolDefinitionView;
use vstd::prelude::*;

verus! {

/// A message of the conversation.
#[derive(Debug)]
pub struct ConversationMessage {
    pub role: String,
    pub content: Option<String>,
    pub tool_calls: Vec<ToolCall>,
    pub response_items: Vec<Json>,
    pub tool_call_id: Option<String>,
}

/// What a message holds.
#[verifier::ext_equal]
pub struct MessageView {
    pub role: Seq<char>,
    pub content: Option<Seq<char>>,
    pub tool_calls: Seq<ToolCallView>,
    pub response_items: Seq<JsonView>,
    pub tool_call_id: Option<Seq<char>>,
}

impl View for ConversationMessage {
    type V = MessageView;

    open spec fn view(&self) -> MessageView {
        MessageView {
            role: self.role@,
            content: opt_view(self.content),
            tool_calls: call_views(self.tool_calls@),
            response_items: json_views(self.response_items@),
            tool_call_id: opt_view(self.tool_call_id),
        }
    }
}

impl Clone for ConversationMessage {
    fn clone(&self) -> (r: ConversationMessage)
        ensures
            r@ == self@,
    {
        ConversationMessage {
            role: self.role.clone(),
            content: copy_opt(&self.content),
            tool_calls: copy_calls(&self.tool_calls),
            response_items: copy_items(&self.response_items),
            tool_call_id: copy_opt(&self.tool_call_id),
        }
    }
}

/// The views of a list of messages.
pub open spec fn message_views(messages: Seq<ConversationMessage>) -> Seq<MessageView> {
    messages.map_values(|message: ConversationMessage| message@)
}

/// A message that is nothing but text.
pub open spec fn text_message(role: Seq<char>, content: Seq<char>) -> MessageView {
    MessageView {
        role,
        content: Some(content),
        tool_calls: Seq::empty(),
        response_items: Seq::empty(),
        tool_call_id: None,
    }
}

/// A message in which the model asks for tools.
pub open spec fn tool_calls_message(
    content: Option<Seq<char>>,
    tool_calls: Seq<ToolCallView>,
    response_items: Seq<JsonView>,
) -> MessageView {
    MessageView { role: "assistant"@, content, tool_calls, response_items, tool_call_id: None }
}

/// A message that gives the model a tool's result.
pub open spec fn tool_result_message(call_id: Seq<char>, content: Seq<char>) -> MessageView {
    MessageView {
        role: "tool"@,
        content: Some(content),
        tool_calls: Seq::empty(),
        response_items: Seq::empty(),
        tool_call_id: Some(call_id),
    }
}

impl ConversationMessage {
    fn text(role: &str, content: &str) -> (r: ConversationMessage)
        ensures
            r@ == text_message(role@, content@),
    {
        let r = ConversationMessage {
            role: role.to_owned(),
            content: Some(content.to_owned()),
            tool_calls: Vec::new(),
            response_items: Vec::new(),
            tool_call_id: None,
        };
        assert(r@ =~= text_message(role@, content@));
        r
    }

    /// A message of the system.
    pub fn system(content: &str) -> (r: ConversationMessage)
        ensures
            r@ == text_message("system"@, content@),
    {
        ConversationMessage::text("system", content)
    }

    /// A message of the user.
    pub fn user(content: &str) -> (r: ConversationMessage)
        ensures
            r@ == text_message("user"@, content@),
    {
        ConversationMessage::text("user", content)
    }

    /// A message of the model.
    pub fn assistant(content: &str) -> (r: ConversationMessage)
        ensures
            r@ == text_message("assistant"@, content@),
    {
        ConversationMessage::text("assistant", content)
    }

    /// A message in which the model asks for tools.
    pub fn assistant_tool_calls(
        content: Option<String>,
        tool_calls: Vec<ToolCall>,
        response_items: Vec<Json>,
    ) -> (r: ConversationMessage)
        ensures
            r@ == tool_calls_message(
                opt_view(content),
                call_views(tool_calls@),
                json_views(response_items@),
            ),
    {
        ConversationMessage {
            role: "assistant".to_owned(),
            content,
            tool_calls,
            response_items,
            tool_call_id: None,
        }
    }

    /// A message that gives the model a tool's result.
    pub fn tool_result(call_id: &str, content: &str) -> (r: ConversationMessage)
        ensures
            r@ == tool_result_message(call_id@, content@),
    {
        let r = ConversationMessage {
            role: "tool".to_owned(),
            content: Some(content.to_owned()),
            tool_calls: Vec::new(),
            response_items: Vec::new(),
            tool_call_id: Some(call_id.to_owned()),
        };
        assert(r@ =~= tool_result_message(call_id@, content@));
        r
    }
}

/// Which model answers, and where.
#[derive(Debug)]
pub struct ModelMetadata {
    pub provider: String,
    pub model: String,
    pub endpoint: String,
}

/// What the metadata hold.
#[verifier::ext_equal]
pub struct MetadataView {
    pub provider: Seq<char>,
    pub model: Seq<char>,
    pub endpoint: Seq<char>,
}

impl View for ModelMetadata {
    type V = MetadataView;

    open spec fn view(&self) -> MetadataView {
        MetadataView { provider: self.provider@, model: self.model@, endpoint: self.endpoint@ }
    }
}

/// The JSON object of the metadata.
pub open spec fn metadata_json(metadata: MetadataView) -> JsonView {
    let e = no_entries();
    let e = put(e, "provider"@, JsonView::Text(metadata.provider));
    let e = put(e, "model"@, JsonView::Text(metadata.model));
    let e = put(e, "endpoint"@, JsonView::Text(metadata.endpoint));
    JsonView::Object(e)
}

impl ModelMetadata {
    /// The metadata as a JSON object.
    pub fn to_json(&self) -> (r: Json)
        ensures
            r@ == metadata_json(self@),
    {
        Json::Object(
            JsonObject::new().with("provider", Json::text(self.provider.as_str())).with(
                "model",
                Json::text(self.model.as_str()),
            ).with("endpoint", Json::text(self.endpoint.as_str())),
        )
    }
}

/// How prompts are cached, as it is written into the record of a run.
#[derive(Debug)]
pub struct PromptCacheSettings {
    pub retention: Option<String>,
    pub key: Option<String>,
    pub store_responses: bool,
}

/// What these settings hold.
#[verifier::ext_equal]
pub struct CacheSettingsView {
    pub retention: Option<Seq<char>>,
    pub key: Option<Seq<char>>,
    pub store_responses: bool,
}

impl View for PromptCacheSettings {
    type V = CacheSettingsView;

    open spec fn view(&self) -> CacheSettingsView {
        CacheSettingsView {
            retention: opt_view(self.retention),
            key: opt_view(self.key),
            store_responses: self.store_responses,
        }
    }
}

/// The JSON object of the settings.
pub open spec fn cache_settings_json(settings: CacheSettingsView) -> JsonView {
    let e = no_entries();
    let e = put(e, "retention"@, optional_text_view(settings.retention));
    let e = put(e, "key"@, optional_text_view(settings.key));
    let e = put(e, "store_responses"@, JsonView::Bool(settings.store_responses));
    JsonView::Object(e)
}

impl PromptCacheSettings {
    /// The settings as a JSON object.
    pub fn to_json(&self) -> (r: Json)
        ensures
            r@ == cache_settings_json(self@),
    {
        Json::Object(
            JsonObject::new().with("retention", Json::optional_text(&self.retention)).with(
                "key",
                Json::optional_text(&self.key),
            ).with("store_responses", Json::Bool(self.store_responses)),
        )
    }
}

/// What a request builds on: the response before it, and whether only the
/// messages since then are sent.
#[derive(Debug)]
pub struct ModelTurnContext {
    pub previous_response_id: Option<String>,
    pub incremental: bool,
}

/// What the context holds.
#[verifier::ext_equal]
pub struct ContextView {
    pub previous_response_id: Option<Seq<char>>,
    pub incremental: bool,
}

impl View for ModelTurnContext {
    type V = ContextView;

    open spec fn view(&self) -> ContextView {
        ContextView {
            previous_response_id: opt_view(self.previous_response_id),
            incremental: self.incremental,
        }
    }
}

impl Default for ModelTurnContext {
    fn default() -> (r: ModelTurnContext)
        ensures
            r@ == (ContextView { previous_response_id: None, incremental: false }),
    {
        ModelTurnContext { previous_response_id: None, incremental: false }
    }
}

/// A model's answer.
#[derive(Debug)]
pub struct ModelResponse {
    pub content: Option<String>,
    pub tool_calls: Vec<ToolCall>,
    pub response_items: Vec<Json>,
    pub usage: Option<Json>,
    pub execution_plan: Option<Json>,
    pub response_id: Option<String>,
}

/// What an answer holds.
#[verifier::ext_equal]
pub struct ResponseView {
    pub content: Option<Seq<char>>,
    pub tool_calls: Seq<ToolCallView>,
    pub response_items: Seq<JsonView>,
    pub usage: Option<JsonView>,
    pub execution_plan: Option<JsonView>,
    pub response_id: Option<Seq<char>>,
}

impl View for ModelResponse {
    type V = ResponseView;

    open spec fn view(&self) -> ResponseView {
        ResponseView {
            content: opt_view(self.content),
            tool_calls: call_views(self.tool_calls@),
            response_items: json_views(self.response_items@),
            usage: opt_json(self.usage),
            execution_plan: opt_json(self.execution_plan),
            response_id: opt_view(self.response_id),
        }
    }
}

/// Who speaks in a message of a request.
#[derive(Debug, Clone, Copy, PartialEq, Eq, Structural)]
pub enum Role {
    System,
    User,
    Assistant,
}

/// A part of what is sent to the model. A call's arguments are the text of
/// their JSON; a stored item is sent back as it came.
#[derive(Debug)]
pub enum InputItem {
    Message { role: Role, content: String },
    FunctionCall { call_id: String, id: Option<String>, name: String, arguments: String },
    FunctionCallOutput { call_id: String, output: String },
    Stored(Json),
}

/// What such a part holds.
#[verifier::ext_equal]
pub enum InputItemView {
    Message { role: Role, content: Seq<char> },
    FunctionCall {
        call_id: Seq<char>,
        id: Option<Seq<char>>,
        name: Seq<char>,
        arguments: Seq<char>,
    },
    FunctionCallOutput { call_id: Seq<char>, output: Seq<char> },
    Stored(JsonView),
}

impl View for InputItem {
    type V = InputItemView;

    open spec fn view(&self) -> InputItemView {
        match self {
            InputItem::Message { role, content } => InputItemView::Message {
                role: *role,
                content: content@,
            },
            InputItem::FunctionCall { call_id, id, name, arguments } => InputItemView::FunctionCall {
                call_id: call_id@,
                id: opt_view(*id),
                name: name@,
                arguments: arguments@,
            },
            InputItem::FunctionCallOutput { call_id, output } => InputItemView::FunctionCallOutput {
                call_id: call_id@,
                output: output@,
            },
            InputItem::Stored(item) => InputItemView::Stored(item@),
        }
    }
}

/// The views of a list of parts.
pub open spec fn item_views(items: Seq<InputItem>) -> Seq<InputItemView> {
    items.map_values(|item: InputItem| item@)
}

/// Why a stored value is not an item that a request can hold, where it is none.
pub uninterp spec fn stored_item_fault(value: JsonView) -> Option<Seq<char>>;

/// `serde_json::from_value`, read as an item of `async_openai`. Whether the value
/// is one, and the words of why not, depend on the value alone.
#[verifier::external_body]
fn check_stored_item(value: &serde_json::Value) -> (r: Result<(), String>)
    ensures
        stored_item_fault(value_view(*value)) == (match r {
            Ok(_) => None,
            Err(words) => Some(words@),
        }),
{
    serde_json::from_value::<async_openai::types::responses::Item>(value.clone())
        .map(|_| ())
        .map_err(|error| error.to_string())
}

/// The part for a call that the model made.
pub open spec fn function_call_item(call: ToolCallView) -> InputItemView {
    InputItemView::FunctionCall {
        call_id: call.call_id,
        id: call.item_id,
        name: call.name,
        arguments: json_print(call.arguments),
    }
}

/// The parts for stored items, each of which must be one that a request can
/// hold. The first that is not is reported.
pub open spec fn stored_items(items: Seq<JsonView>) -> Result<Seq<InputItemView>, Seq<Seq<char>>>
    decreases items.len(),
{
    if items.len() == 0 {
        Ok(Seq::empty())
    } else {
        match stored_items(items.drop_last()) {
            Err(chain) => Err(chain),
            Ok(before) => match stored_item_fault(items.last()) {
                None => Ok(before.push(InputItemView::Stored(items.last()))),
                Some(words) => Err(seq!["failed to parse stored response item"@, words]),
            },
        }
    }
}

/// The text of a message, empty where it has none.
pub open spec fn content_or_empty(content: Option<Seq<char>>) -> Seq<char> {
    match content {
        Some(text) => text,
        None => Seq::empty(),
    }
}

/// The parts that a message of the model starts with: its text, unless empty.
pub open spec fn answer_items(content: Option<Seq<char>>) -> Seq<InputItemView> {
    match content {
        Some(text) => if text.len() > 0 {
            seq![InputItemView::Message { role: Role::Assistant, content: text }]
        } else {
            Seq::empty()
        },
        None => Seq::empty(),
    }
}

/// The parts that are sent for a message.
pub open spec fn message_items(message: MessageView) -> Result<Seq<InputItemView>, Seq<Seq<char>>> {
    if message.role == "system"@ {
        Ok(
            seq![
                InputItemView::Message {
                    role: Role::System,
                    content: content_or_empty(message.content),
                },
            ],
        )
    } else if message.role == "user"@ {
        Ok(
            seq![
                InputItemView::Message {
                    role: Role::User,
                    content: content_or_empty(message.content),
                },
            ],
        )
    } else if message.role == "assistant"@ {
        let text = answer_items(message.content);
        if message.tool_calls.len() > 0 {
            Ok(
                text + message.tool_calls.map_values(
                    |call: ToolCallView| function_call_item(call),
                ),
            )
        } else {
            match stored_items(message.response_items) {
                Ok(items) => Ok(text + items),
                Err(chain) => Err(chain),
            }
        }
    } else if message.role == "tool"@ {
        match message.tool_call_id {
            Some(call_id) => Ok(
                seq![
                    InputItemView::FunctionCallOutput {
                        call_id,
                        output: content_or_empty(message.content),
                    },
                ],
            ),
            None => Err(seq!["tool message missing tool_call_id"@]),
        }
    } else {
        Err(seq!["unsupported conversation role `"@ + message.role + "`"@])
    }
}

/// The parts that are sent for a conversation. The first message that cannot be
/// sent is reported.
pub open spec fn conversation_items(messages: Seq<MessageView>) -> Result<
    Seq<InputItemView>,
    Seq<Seq<char>>,
>
    decreases messages.len(),
{
    if messages.len() == 0 {
        Ok(Seq::empty())
    } else {
        match conversation_items(messages.drop_last()) {
            Err(chain) => Err(chain),
            Ok(before) => match message_items(messages.last()) {
                Ok(items) => Ok(before + items),
                Err(chain) => Err(chain),
            },
        }
    }
}

/// The view of parts that may not be had.
pub open spec fn items_view(items: Result<Vec<InputItem>, Failure>) -> Result<
    Seq<InputItemView>,
    Seq<Seq<char>>,
> {
    match items {
        Ok(list) => Ok(item_views(list@)),
        Err(failure) => Err(failure@),
    }
}

fn content_text(content: &Option<String>) -> (r: String)
    ensures
        r@ == content_or_empty(opt_view(*content)),
{
    match content {
        Some(text) => text.clone(),
        None => String::new(),
    }
}

fn only_item(item: InputItem) -> (r: Vec<InputItem>)
    ensures
        item_views(r@) == seq![item@],
{
    let mut items: Vec<InputItem> = Vec::new();
    items.push(item);
    assert(item_views(items@) =~= seq![item@]);
    items
}

/// The part for a call that the model made.
pub fn response_function_call_item(call: &ToolCall) -> (r: InputItem)
    ensures
        r@ == function_call_item(call@),
{
    InputItem::FunctionCall {
        call_id: call.call_id.clone(),
        id: copy_opt(&call.item_id),
        name: call.name.clone(),
        arguments: call.arguments.to_text(),
    }
}

/// The part for a stored item, given whether a request can hold it, or the
/// words of why not.
pub fn stored_item(item: Json, checked: Result<(), String>) -> (r: Result<InputItem, Failure>)
    ensures
        match checked {
            Ok(_) => r matches Ok(part) && part@ == InputItemView::Stored(item@),
            Err(words) => r matches Err(failure) && failure@ == seq![
                "failed to parse stored response item"@,
                words@,
            ],
        },
{
    match checked {
        Ok(_) => Ok(InputItem::Stored(item)),
        Err(words) => Err(
            Failure::caused("failed to parse stored response item".to_owned(), words),
        ),
    }
}

/// Appends the parts for stored items.
fn push_stored_items(items: &mut Vec<InputItem>, stored: &Vec<Json>) -> (r: Result<(), Failure>)
    ensures
        match stored_items(json_views(stored@)) {
            Ok(added) => r is Ok && item_views(final(items)@) == item_views(old(items)@) + added,
            Err(chain) => r matches Err(failure) && failure@ == chain,
        },
{
    let ghost before = item_views(items@);
    let ghost all = json_views(stored@);
    assert(all.take(0) =~= Seq::<JsonView>::empty());
    for i in 0..stored.len()
        invariant
            all == json_views(stored@),
            stored_items(all.take(i as int)) is Ok,
            item_views(items@) == before + stored_items(all.take(i as int))->Ok_0,
    {
        let ghost upto = all.take(i + 1);
        proof {
            assert(upto.drop_last() =~= all.take(i as int));
            assert(upto.last() == stored@[i as int]@);
        }
        let ghost so_far = item_views(items@);
        let checked = check_stored_item(&stored[i].clone().into_value());
        match stored_item(stored[i].clone(), checked) {
            Ok(item) => {
                items.push(item);
                assert(item_views(items@) =~= so_far.push(
                    InputItemView::Stored(stored@[i as int]@),
                ));
            },
            Err(failure) => {
                proof {
                    lemma_stored_fault_stays(all, i + 1);
                }
                return Err(failure);
            },
        }
    }
    assert(all.take(all.len() as int) =~= all);
    Ok(())
}

proof fn lemma_stored_fault_stays(items: Seq<JsonView>, upto: int)
    requires
        0 <= upto <= items.len(),
        stored_items(items.take(upto)) is Err,
    ensures
        stored_items(items) == stored_items(items.take(upto)),
    decreases items.len() - upto,
{
    if upto == items.len() {
        assert(items.take(upto) =~= items);
    } else {
        assert(items.take(upto + 1).drop_last() =~= items.take(upto));
        lemma_stored_fault_stays(items, upto + 1);
    }
}

/// The parts that are sent for a message.
fn parts_of_message(message: &ConversationMessage) -> (r: Result<
    Vec<InputItem>,
    Failure,
>)
    ensures
        items_view(r) == message_items(message@),
{
    let role = message.role.as_str();
    if same(role, "system") {
        Ok(
            only_item(
                InputItem::Message { role: Role::System, content: content_text(&message.content) },
            ),
        )
    } else if same(role, "user") {
        Ok(
            only_item(
                InputItem::Message { role: Role::User, content: content_text(&message.content) },
            ),
        )
    } else if same(role, "assistant") {
        let mut items: Vec<InputItem> = Vec::new();
        match &message.content {
            Some(content) => {
                if !content.as_str().is_empty() {
                    items.push(
                        InputItem::Message { role: Role::Assistant, content: content.clone() },
                    );
                }
            },
            None => {},
        }
        let ghost text = answer_items(message@.content);
        assert(item_views(items@) =~= text);
        if message.tool_calls.len() > 0 {
            let ghost calls = message@.tool_calls.map_values(
                |call: ToolCallView| function_call_item(call),
            );
            for i in 0..message.tool_calls.len()
                invariant
                    calls == message@.tool_calls.map_values(
                        |call: ToolCallView| function_call_item(call),
                    ),
                    item_views(items@) == text + calls.take(i as int),
            {
                let ghost so_far = item_views(items@);
                items.push(response_function_call_item(&message.tool_calls[i]));
                assert(item_views(items@) =~= so_far.push(calls[i as int]));
                assert(calls.take(i + 1) =~= calls.take(i as int).push(calls[i as int]));
            }
            assert(calls.take(calls.len() as int) =~= calls);
        } else {
            match push_stored_items(&mut items, &message.response_items) {
                Ok(_) => {},
                Err(failure) => {
                    return Err(failure);
                },
            }
        }
        Ok(items)
    } else if same(role, "tool") {
        match &message.tool_call_id {
            Some(call_id) => Ok(
                only_item(
                    InputItem::FunctionCallOutput {
                        call_id: call_id.clone(),
                        output: content_text(&message.content),
                    },
                ),
            ),
            None => Err(Failure::new("tool message missing tool_call_id".to_owned())),
        }
    } else {
        Err(Failure::new(around("unsupported conversation role `", role, "`")))
    }
}

/// The parts that are sent for a message.
pub fn response_input_items_for_message(message: &ConversationMessage) -> (r: Result<
    Vec<InputItem>,
    Failure,
>)
    ensures
        items_view(r) == message_items(message@),
        message.role@ == "tool"@ && message.tool_call_id is Some ==> (r matches Ok(items)
            && items@.len() == 1 && (items@[0] matches InputItem::FunctionCallOutput {
            call_id,
            output,
        } && call_id@ == message.tool_call_id->Some_0@ && (message.content matches Some(text)
            ==> output@ == text@))),
        message.role@ == "user"@ ==> (r matches Ok(items) && items@.len() == 1 && (
        items@[0] matches InputItem::Message { role, content } && role == Role::User && (
        message.content matches Some(text) ==> content@ == text@))),
        message.role@ == "system"@ ==> (r matches Ok(items) && items@.len() == 1 && (
        items@[0] matches InputItem::Message { role, content } && role == Role::System && (
        message.content matches Some(text) ==> content@ == text@))),
{
    let parts = parts_of_message(message);
    proof {
        if message@.role == "tool"@ {
            tool_results_are_sent_as_they_are(message@);
        }
        if message@.role == "user"@ || message@.role == "system"@ {
            messages_are_sent_as_they_are(message@);
        }
        if parts is Ok && parts->Ok_0@.len() > 0 {
            assert(item_views(parts->Ok_0@)[0] == parts->Ok_0@[0]@);
        }
        roles_differ();
    }
    parts
}

proof fn lemma_conversation_fault_stays(messages: Seq<MessageView>, upto: int)
    requires
        0 <= upto <= messages.len(),
        conversation_items(messages.take(upto)) is Err,
    ensures
        conversation_items(messages) == conversation_items(messages.take(upto)),
    decreases messages.len() - upto,
{
    if upto == messages.len() {
        assert(messages.take(upto) =~= messages);
    } else {
        assert(messages.take(upto + 1).drop_last() =~= messages.take(upto));
        lemma_conversation_fault_stays(messages, upto + 1);
    }
}

/// The parts that are sent for a conversation.
pub fn response_input_items(messages: &[ConversationMessage]) -> (r: Result<
    Vec<InputItem>,
    Failure,
>)
    ensures
        items_view(r) == conversation_items(message_views(messages@)),
{
    let ghost all = message_views(messages@);
    let mut items: Vec<InputItem> = Vec::new();
    assert(all.take(0) =~= Seq::<MessageView>::empty());
    assert(item_views(items@) =~= Seq::<InputItemView>::empty());
    for i in 0..messages.len()
        invariant
            all == message_views(messages@),
            conversation_items(all.take(i as int)) == Ok::<Seq<InputItemView>, Seq<Seq<char>>>(
                item_views(items@),
            ),
    {
        proof {
            let upto = all.take(i + 1);
            assert(upto.drop_last() =~= all.take(i as int));
            assert(upto.last() == messages@[i as int]@);
        }
        let ghost so_far = item_views(items@);
        match response_input_items_for_message(&messages[i]) {
            Ok(mut added) => {
                let ghost more = item_views(added@);
                items.append(&mut added);
                assert(item_views(items@) =~= so_far + more);
            },
            Err(failure) => {
                proof {
                    lemma_conversation_fault_stays(all, i + 1);
                }
                return Err(failure);
            },
        }
    }
    assert(all.take(all.len() as int) =~= all);
    Ok(items)
}

/// The parts of two conversations, one behind the other.
pub open spec fn joined_items(
    first: Result<Seq<InputItemView>, Seq<Seq<char>>>,
    second: Result<Seq<InputItemView>, Seq<Seq<char>>>,
) -> Result<Seq<InputItemView>, Seq<Seq<char>>> {
    match (first, second) {
        (Err(chain), _) => Err(chain),
        (_, Err(chain)) => Err(chain),
        (Ok(a), Ok(b)) => Ok(a + b),
    }
}

/// What is sent for two conversations joined is what is sent for each of them,
/// joined; and where one of them cannot be sent, the first fault is reported.
pub proof fn items_of_joined_conversations(first: Seq<MessageView>, second: Seq<MessageView>)
    ensures
        conversation_items(first + second) == joined_items(
            conversation_items(first),
            conversation_items(second),
        ),
    decreases second.len(),
{
    if second.len() == 0 {
        assert(first + second =~= first);
        match conversation_items(first) {
            Ok(items) => {
                assert(items + Seq::<InputItemView>::empty() =~= items);
            },
            Err(_) => {},
        }
    } else {
        let front = second.drop_last();
        items_of_joined_conversations(first, front);
        assert((first + second).drop_last() =~= first + front);
        assert((first + second).last() == second.last());
        match (conversation_items(first), conversation_items(front), message_items(second.last())) {
            (Ok(a), Ok(b), Ok(c)) => {
                assert(a + b + c =~= a + (b + c));
            },
            _ => {},
        }
    }
}

/// A tool as a request offers it. The model must keep to its schema.
#[derive(Debug)]
pub struct FunctionTool {
    pub name: String,
    pub description: String,
    pub parameters: Json,
    pub strict: bool,
}

/// What an offered tool holds.
#[verifier::ext_equal]
pub struct FunctionToolView {
    pub name: Seq<char>,
    pub description: Seq<char>,
    pub parameters: JsonView,
    pub strict: bool,
}

impl View for FunctionTool {
    type V = FunctionToolView;

    open spec fn view(&self) -> FunctionToolView {
        FunctionToolView {
            name: self.name@,
            description: self.description@,
            parameters: self.parameters@,
            strict: self.strict,
        }
    }
}

/// A tool as a request offers it.
pub open spec fn offered(tool: ToolDefinitionView) -> FunctionToolView {
    FunctionToolView {
        name: tool.name,
        description: tool.description,
        parameters: tool.parameters,
        strict: true,
    }
}

/// The views of a list of offered tools.
pub open spec fn function_views(tools: Seq<FunctionTool>) -> Seq<FunctionToolView> {
    tools.map_values(|tool: FunctionTool| tool@)
}

/// A tool as a request offers it.
pub fn response_tool(tool: &ToolDefinition) -> (r: FunctionTool)
    ensures
        r@ == offered(tool@),
{
    FunctionTool {
        name: tool.name.clone(),
        description: tool.description.clone(),
        parameters: tool.parameters.clone(),
        strict: true,
    }
}

/// A request to the Responses API. `auto_tool_choice` leaves it to the model
/// whether it calls a tool.
#[derive(Debug)]
pub struct ResponseRequest {
    pub model: String,
    pub input: Vec<InputItem>,
    pub tools: Option<Vec<FunctionTool>>,
    pub auto_tool_choice: bool,
    pub stream: bool,
    pub store: bool,
    pub previous_response_id: Option<String>,
    pub prompt_cache_key: Option<String>,
    pub prompt_cache_retention: Option<PromptCacheRetention>,
    pub max_output_tokens: Option<u32>,
    pub temperature: Option<Float32>,
    pub top_p: Option<Float32>,
    pub reasoning_effort: Option<ReasoningEffort>,
}

/// What a request holds.
#[verifier::ext_equal]
pub struct RequestView {
    pub model: Seq<char>,
    pub input: Seq<InputItemView>,
    pub tools: Option<Seq<FunctionToolView>>,
    pub auto_tool_choice: bool,
    pub stream: bool,
    pub store: bool,
    pub previous_response_id: Option<Seq<char>>,
    pub prompt_cache_key: Option<Seq<char>>,
    pub prompt_cache_retention: Option<PromptCacheRetention>,
    pub max_output_tokens: Option<u32>,
    pub temperature: Option<FloatView>,
    pub top_p: Option<FloatView>,
    pub reasoning_effort: Option<ReasoningEffort>,
}

impl View for ResponseRequest {
    type V = RequestView;

    open spec fn view(&self) -> RequestView {
        RequestView {
            model: self.model@,
            input: item_views(self.input@),
            tools: match self.tools {
                Some(tools) => Some(function_views(tools@)),
                None => None,
            },
            auto_tool_choice: self.auto_tool_choice,
            stream: self.stream,
            store: self.store,
            previous_response_id: opt_view(self.previous_response_id),
            prompt_cache_key: opt_view(self.prompt_cache_key),
            prompt_cache_retention: self.prompt_cache_retention,
            max_output_tokens: self.max_output_tokens,
            temperature: opt_float(self.temperature),
            top_p: opt_float(self.top_p),
            reasoning_effort: self.reasoning_effort,
        }
    }
}

/// The configuration of an `async_openai` client.
#[verifier::external_type_specification]
#[verifier::external_body]
pub struct ExOpenAIConfig(async_openai::config::OpenAIConfig);

/// The headers that a client sends besides its own, under their names in lower
/// case.
pub uninterp spec fn client_headers(config: async_openai::config::OpenAIConfig) -> Map<
    Seq<char>,
    Seq<char>,
>;

/// The base URL of a client.
pub uninterp spec fn client_base(config: async_openai::config::OpenAIConfig) -> Seq<char>;

/// The key of a client.
pub uninterp spec fn client_key(config: async_openai::config::OpenAIConfig) -> Seq<char>;

/// No headers at all.
pub open spec fn no_headers() -> Map<Seq<char>, Seq<char>> {
    Map::empty()
}

/// `OpenAIConfig::new`. It has no further headers. The rest it takes from the
/// environment, and nothing is said of it.
#[verifier::external_body]
fn new_client_config() -> (r: async_openai::config::OpenAIConfig)
    ensures
        client_headers(r) == no_headers(),
{
    async_openai::config::OpenAIConfig::new()
}

/// `OpenAIConfig::with_api_base` sets the base URL and keeps the rest.
#[verifier::external_body]
fn with_client_base(config: async_openai::config::OpenAIConfig, base: &str) -> (r:
    async_openai::config::OpenAIConfig)
    ensures
        client_base(r) == base@,
        client_key(r) == client_key(config),
        client_headers(r) == client_headers(config),
{
    config.with_api_base(base)
}

/// `OpenAIConfig::with_api_key` sets the key and keeps the rest.
#[verifier::external_body]
fn with_client_key(config: async_openai::config::OpenAIConfig, key: &str) -> (r:
    async_openai::config::OpenAIConfig)
    ensures
        client_base(r) == client_base(config),
        client_key(r) == key@,
        client_headers(r) == client_headers(config),
{
    config.with_api_key(key)
}

/// Whether a text can be the value of a header: it holds no control characters
/// but tabs.
pub open spec fn is_header_value(value: Seq<char>) -> bool {
    forall|i: int|
        0 <= i < value.len() ==> (#[trigger] value[i]) == '\t' || (value[i] as u32 >= 32
            && value[i] as u32 != 127)
}

/// Whether a text is the name of one of the headers that OpenRouter reads.
pub open spec fn is_openrouter_header(name: Seq<char>) -> bool {
    name == "HTTP-Referer"@ || name == "X-OpenRouter-Title"@ || name == "X-OpenRouter-Categories"@
}

/// `OpenAIConfig::with_header` adds a header in place of one of the same name,
/// and refuses a value that no header can have.
#[verifier::external_body]
fn with_client_header(
    config: async_openai::config::OpenAIConfig,
    name: &'static str,
    value: &str,
) -> (r: Result<async_openai::config::OpenAIConfig, String>)
    requires
        is_openrouter_header(name@),
    ensures
        r is Ok <==> is_header_value(value@),
        r matches Ok(c) ==> client_base(c) == client_base(config) && client_key(c) == client_key(
            config,
        ) && client_headers(c) == client_headers(config).insert(ascii_lower(name@), value@),
        r matches Err(words) ==> words@
            == "invalid args: Invalid header value: failed to parse header value"@,
{
    config.with_header(name, value).map_err(|error| error.to_string())
}

/// The headers with one more, or why that one cannot be sent.
pub open spec fn header_added(
    headers: Result<Map<Seq<char>, Seq<char>>, Seq<Seq<char>>>,
    name: Seq<char>,
    value: Option<Seq<char>>,
    refusal: Seq<char>,
) -> Result<Map<Seq<char>, Seq<char>>, Seq<Seq<char>>> {
    match (headers, value) {
        (Ok(map), Some(text)) => if is_header_value(text) {
            Ok(map.insert(ascii_lower(name), text))
        } else {
            Err(
                seq![
                    refusal,
                    "invalid args: Invalid header value: failed to parse header value"@,
                ],
            )
        },
        _ => headers,
    }
}

/// The headers that a client sends for these settings.
pub open spec fn headers_for(config: ModelConfigView) -> Result<
    Map<Seq<char>, Seq<char>>,
    Seq<Seq<char>>,
> {
    let referer = header_added(
        Ok(no_headers()),
        "HTTP-Referer"@,
        config.openrouter.referer,
        "invalid OpenRouter referer header"@,
    );
    let title = header_added(
        referer,
        "X-OpenRouter-Title"@,
        config.openrouter.title,
        "invalid OpenRouter title header"@,
    );
    header_added(
        title,
        "X-OpenRouter-Categories"@,
        config.openrouter.categories,
        "invalid OpenRouter categories header"@,
    )
}

fn add_header(
    config: async_openai::config::OpenAIConfig,
    name: &'static str,
    value: &Option<String>,
    refusal: &str,
) -> (r: Result<async_openai::config::OpenAIConfig, Failure>)
    requires
        is_openrouter_header(name@),
    ensures
        header_added(Ok(client_headers(config)), name@, opt_view(*value), refusal@) == (match r {
            Ok(c) => Ok::<Map<Seq<char>, Seq<char>>, Seq<Seq<char>>>(client_headers(c)),
            Err(failure) => Err(failure@),
        }),
        r matches Ok(c) ==> client_base(c) == client_base(config) && client_key(c) == client_key(
            config,
        ),
{
    match value {
        Some(text) => match with_client_header(config, name, text.as_str()) {
            Ok(c) => Ok(c),
            Err(words) => Err(Failure::caused(refusal.to_owned(), words)),
        },
        None => Ok(config),
    }
}

/// The configuration of the client for the settings of a model.
pub fn openai_config(config: &ModelConfig) -> (r: Result<
    async_openai::config::OpenAIConfig,
    Failure,
>)
    ensures
        headers_for(config@) == (match r {
            Ok(c) => Ok::<Map<Seq<char>, Seq<char>>, Seq<Seq<char>>>(client_headers(c)),
            Err(failure) => Err(failure@),
        }),
        r matches Ok(c) ==> client_base(c) == config@.api_base && client_key(c)
            == content_or_empty(config@.api_key),
{
    let key = content_text(&config.api_key);
    let client = with_client_key(
        with_client_base(new_client_config(), config.api_base.as_str()),
        key.as_str(),
    );
    let client = match add_header(
        client,
        "HTTP-Referer",
        &config.openrouter.referer,
        "invalid OpenRouter referer header",
    ) {
        Ok(c) => c,
        Err(failure) => {
            return Err(failure);
        },
    };
    let client = match add_header(
        client,
        "X-OpenRouter-Title",
        &config.openrouter.title,
        "invalid OpenRouter title header",
    ) {
        Ok(c) => c,
        Err(failure) => {
            return Err(failure);
        },
    };
    add_header(
        client,
        "X-OpenRouter-Categories",
        &config.openrouter.categories,
        "invalid OpenRouter categories header",
    )
}

/// A model behind an API that speaks OpenAI's protocol.
#[derive(Debug)]
pub struct OpenAiCompatibleModel {
    pub client: async_openai::config::OpenAIConfig,
    pub provider: String,
    pub model: String,
    pub api_base: String,
    pub endpoint: String,
    pub api_key: Option<String>,
    pub api_key_env_var: &'static str,
    pub reasoning_effort: Option<ReasoningEffort>,
    pub max_output_tokens: Option<u32>,
    pub temperature: Option<Float32>,
    pub top_p: Option<Float32>,
    pub prompt_cache_retention: Option<PromptCacheRetention>,
    pub prompt_cache_key: Option<String>,
    pub store_responses: bool,
}

/// Whether a model follows the settings.
pub open spec fn follows(model: OpenAiCompatibleModel, config: ModelConfigView) -> bool {
    &&& model.provider@ == config.provider
    &&& model.model@ == config.model
    &&& model.api_base@ == config.api_base
    &&& model.endpoint@ == config.endpoint
    &&& opt_view(model.api_key) == config.api_key
    &&& model.api_key_env_var@ == config.api_key_env_var
    &&& model.reasoning_effort == config.reasoning_effort
    &&& model.max_output_tokens == config.max_output_tokens
    &&& opt_float(model.temperature) == config.temperature
    &&& opt_float(model.top_p) == config.top_p
    &&& model.prompt_cache_retention == config.prompt_cache.retention
    &&& opt_view(model.prompt_cache_key) == config.prompt_cache.key
    &&& model.store_responses == config.prompt_cache.store_responses
    &&& client_base(model.client) == config.api_base
    &&& client_key(model.client) == content_or_empty(config.api_key)
}

/// The name of a retention.
pub open spec fn retention_label(retention: PromptCacheRetention) -> Seq<char> {
    match retention {
        PromptCacheRetention::InMemory => "in_memory"@,
        PromptCacheRetention::Hours24 => "24h"@,
    }
}

/// The name of a retention.
pub fn prompt_cache_retention_label(retention: PromptCacheRetention) -> (r: String)
    ensures
        r@ == retention_label(retention),
{
    match retention {
        PromptCacheRetention::InMemory => "in_memory".to_owned(),
        PromptCacheRetention::Hours24 => "24h".to_owned(),
    }
}

/// The tools of a request: none at all where there are none to offer.
pub open spec fn offered_tools(tools: Seq<ToolDefinitionView>) -> Option<Seq<FunctionToolView>> {
    if tools.len() > 0 {
        Some(tools.map_values(|tool: ToolDefinitionView| offered(tool)))
    } else {
        None
    }
}

/// The request that a model is sent.
pub open spec fn request_for(
    model: OpenAiCompatibleModel,
    messages: Seq<MessageView>,
    tools: Seq<ToolDefinitionView>,
    context: ContextView,
) -> Result<RequestView, Seq<Seq<char>>> {
    match conversation_items(messages) {
        Err(chain) => Err(chain),
        Ok(input) => Ok(
            RequestView {
                model: model.model@,
                input,
                tools: offered_tools(tools),
                auto_tool_choice: tools.len() > 0,
                stream: true,
                store: model.store_responses,
                previous_response_id: context.previous_response_id,
                prompt_cache_key: opt_view(model.prompt_cache_key),
                prompt_cache_retention: model.prompt_cache_retention,
                max_output_tokens: model.max_output_tokens,
                temperature: opt_float(model.temperature),
                top_p: opt_float(model.top_p),
                reasoning_effort: model.reasoning_effort,
            },
        ),
    }
}

/// The view of a request that may not be made.
pub open spec fn request_view(request: Result<ResponseRequest, Failure>) -> Result<
    RequestView,
    Seq<Seq<char>>,
> {
    match request {
        Ok(r) => Ok(r@),
        Err(failure) => Err(failure@),
    }
}

fn copy_float(n: &Option<Float32>) -> (r: Option<Float32>)
    ensures
        opt_float(r) == opt_float(*n),
{
    match n {
        Some(f) => Some(f.clone()),
        None => None,
    }
}

/// Settings with a key for the prompt cache, unless they have one.
pub open spec fn with_cache_key(settings: ModelConfigView, key: Option<Seq<char>>) -> ModelConfigView {
    ModelConfigView {
        prompt_cache: PromptCacheView {
            key: either(settings.prompt_cache.key, key),
            ..settings.prompt_cache
        },
        ..settings
    }
}

/// Whether a model, or a failure, is what a configuration and the environment
/// come to.
pub open spec fn model_made(
    config: FerrixConfig,
    env: Map<Seq<char>, EnvValueView>,
    key: Option<Seq<char>>,
    made: Result<OpenAiCompatibleModel, Failure>,
) -> bool {
    match model_settings(workspace_view(config.model), env) {
        Err(chain) => made matches Err(failure) && failure@ == chain,
        Ok(settings) => match headers_for(with_cache_key(settings, key)) {
            Err(chain) => made matches Err(failure) && failure@ == chain,
            Ok(headers) => made matches Ok(model) && follows(model, with_cache_key(settings, key))
                && client_headers(model.client) == headers,
        },
    }
}

impl OpenAiCompatibleModel {
    /// The model for some settings. It fails where a header cannot be sent.
    pub fn from_config(config: ModelConfig) -> (r: Result<OpenAiCompatibleModel, Failure>)
        ensures
            headers_for(config@) == (match r {
                Ok(model) => Ok::<Map<Seq<char>, Seq<char>>, Seq<Seq<char>>>(
                    client_headers(model.client),
                ),
                Err(failure) => Err(failure@),
            }),
            r matches Ok(model) ==> follows(model, config@),
    {
        let client = match openai_config(&config) {
            Ok(client) => client,
            Err(failure) => {
                return Err(failure);
            },
        };
        let prompt_cache = config.prompt_cache;
        Ok(
            OpenAiCompatibleModel {
                client,
                provider: config.provider,
                model: config.model,
                api_base: config.api_base,
                endpoint: config.endpoint,
                api_key: config.api_key,
                api_key_env_var: config.api_key_env_var,
                reasoning_effort: config.reasoning_effort,
                max_output_tokens: config.max_output_tokens,
                temperature: config.temperature,
                top_p: config.top_p,
                prompt_cache_retention: prompt_cache.retention,
                prompt_cache_key: prompt_cache.key,
                store_responses: prompt_cache.store_responses,
            },
        )
    }

    /// The model for what a configuration and the environment say.
    pub fn from_workspace(config: FerrixConfig, env: &Environment) -> (r: Result<
        OpenAiCompatibleModel,
        Failure,
    >)
        ensures
            model_made(config, env@, None, r),
    {
        OpenAiCompatibleModel::from_workspace_with_cache_key(config, env, None)
    }

    /// The model for what a configuration and the environment say, with a key
    /// for the prompt cache where they name none.
    pub fn from_workspace_with_cache_key(
        config: FerrixConfig,
        env: &Environment,
        session_cache_key: Option<String>,
    ) -> (r: Result<OpenAiCompatibleModel, Failure>)
        ensures
            model_made(config, env@, opt_view(session_cache_key), r),
    {
        match ModelConfig::from_workspace(config, env) {
            Ok(settings) => OpenAiCompatibleModel::from_config(
                settings.with_prompt_cache_key(session_cache_key),
            ),
            Err(failure) => Err(failure),
        }
    }

    /// The request for a conversation.
    pub fn response_request(
        &self,
        messages: &[ConversationMessage],
        tools: &[ToolDefinition],
        context: &ModelTurnContext,
    ) -> (r: Result<ResponseRequest, Failure>)
        ensures
            request_view(r) == request_for(
                *self,
                message_views(messages@),
                definition_views(tools@),
                context@,
            ),
    {
        let input = match response_input_items(messages) {
            Ok(items) => items,
            Err(failure) => {
                return Err(failure);
            },
        };
        let ghost definitions = definition_views(tools@);
        let mut offers: Vec<FunctionTool> = Vec::new();
        for i in 0..tools.len()
            invariant
                offers@.len() == i,
                forall|j: int| 0 <= j < i ==> (#[trigger] offers@[j])@ == offered(tools@[j]@),
        {
            offers.push(response_tool(&tools[i]));
        }
        assert(function_views(offers@) =~= definitions.map_values(
            |tool: ToolDefinitionView| offered(tool),
        ));
        let some_tools = tools.len() > 0;
        Ok(
            ResponseRequest {
                model: self.model.clone(),
                input,
                tools: if some_tools {
                    Some(offers)
                } else {
                    None
                },
                auto_tool_choice: some_tools,
                stream: true,
                store: self.store_responses,
                previous_response_id: copy_opt(&context.previous_response_id),
                prompt_cache_key: copy_opt(&self.prompt_cache_key),
                prompt_cache_retention: self.prompt_cache_retention,
                max_output_tokens: self.max_output_tokens,
                temperature: copy_float(&self.temperature),
                top_p: copy_float(&self.top_p),
                reasoning_effort: self.reasoning_effort,
            },
        )
    }

    /// The request that starts a streamed completion. Without a key there is
    /// none.
    pub fn start_completion(
        &self,
        messages: &[ConversationMessage],
        tools: &[ToolDefinition],
        context: &ModelTurnContext,
    ) -> (r: Result<ResponseRequest, Failure>)
        ensures
            request_view(r) == (if self.api_key is None {
                Err(seq!["set "@ + self.api_key_env_var@ + " to call the model"@])
            } else {
                request_for(
                    *self,
                    message_views(messages@),
                    definition_views(tools@),
                    context@,
                )
            }),
    {
        if self.api_key.is_none() {
            return Err(
                Failure::new(around("set ", self.api_key_env_var, " to call the model")),
            );
        }
        self.response_request(messages, tools, context)
    }

    /// How prompts are cached.
    pub fn prompt_cache_settings(&self) -> (r: PromptCacheSettings)
        ensures
            r@ == (CacheSettingsView {
                retention: match self.prompt_cache_retention {
                    Some(retention) => Some(retention_label(retention)),
                    None => None,
                },
                key: opt_view(self.prompt_cache_key),
                store_responses: self.store_responses,
            }),
    {
        PromptCacheSettings {
            retention: match self.prompt_cache_retention {
                Some(retention) => Some(prompt_cache_retention_label(retention)),
                None => None,
            },
            key: copy_opt(&self.prompt_cache_key),
            store_responses: self.store_responses,
        }
    }

    /// Which model answers, and where.
    pub fn metadata(&self) -> (r: ModelMetadata)
        ensures
            r@ == (MetadataView {
                provider: self.provider@,
                model: self.model@,
                endpoint: self.endpoint@,
            }),
    {
        ModelMetadata {
            provider: self.provider.clone(),
            model: self.model.clone(),
            endpoint: self.endpoint.clone(),
        }
    }

    /// Whether the provider keeps the responses.
    pub fn store_responses(&self) -> (r: bool)
        ensures
            r == self.store_responses,
    {
        self.store_responses
    }
}

/// A call as far as the stream has told of it.
#[derive(Debug)]
pub struct PartialToolCall {
    pub call_id: Option<String>,
    pub item_id: Option<String>,
    pub name: String,
    pub arguments: String,
}

/// What a partial call holds.
#[verifier::ext_equal]
pub struct PartialCallView {
    pub call_id: Option<Seq<char>>,
    pub item_id: Option<Seq<char>>,
    pub name: Seq<char>,
    pub arguments: Seq<char>,
}

impl View for PartialToolCall {
    type V = PartialCallView;

    open spec fn view(&self) -> PartialCallView {
        PartialCallView {
            call_id: opt_view(self.call_id),
            item_id: opt_view(self.item_id),
            name: self.name@,
            arguments: self.arguments@,
        }
    }
}

/// A call of which nothing is known.
pub open spec fn blank_call() -> PartialCallView {
    PartialCallView {
        call_id: None,
        item_id: None,
        name: Seq::empty(),
        arguments: Seq::empty(),
    }
}

impl Default for PartialToolCall {
    fn default() -> (r: PartialToolCall)
        ensures
            r@ == blank_call(),
    {
        let r = PartialToolCall {
            call_id: None,
            item_id: None,
            name: String::new(),
            arguments: String::new(),
        };
        assert(r@ =~= blank_call());
        r
    }
}

/// The views of a list of partial calls.
pub open spec fn partial_views(calls: Seq<PartialToolCall>) -> Seq<PartialCallView> {
    calls.map_values(|call: PartialToolCall| call@)
}

/// What the arguments of a call are: an empty object where nothing is written,
/// what the text reads as, or an object that holds the text as it is.
pub open spec fn arguments_of(
    text: Seq<char>,
    read: Result<JsonView, Seq<char>>,
) -> JsonView {
    if trimmed(text).len() == 0 {
        JsonView::Object(no_entries())
    } else {
        match read {
            Ok(value) => value,
            Err(_) => JsonView::Object(
                put(no_entries(), "raw_arguments"@, JsonView::Text(text)),
            ),
        }
    }
}

/// What the arguments of a call are, given what their text reads as.
pub fn arguments_value(text: &str, read: Result<Json, String>) -> (r: Json)
    ensures
        r@ == arguments_of(
            text@,
            match read {
                Ok(value) => Ok(value@),
                Err(words) => Err(words@),
            },
        ),
{
    if is_blank(text) {
        return Json::Object(JsonObject::new());
    }
    match read {
        Ok(value) => value,
        Err(_) => Json::Object(JsonObject::new().with("raw_arguments", Json::text(text))),
    }
}

/// A call once the stream has ended. One that came without an identifier takes
/// the fresh one.
pub open spec fn finished_call(call: PartialCallView, fresh: Seq<char>) -> ToolCallView {
    ToolCallView {
        call_id: match call.call_id {
            Some(id) => id,
            None => fresh,
        },
        item_id: call.item_id,
        name: call.name,
        arguments: arguments_of(call.arguments, json_read(call.arguments)),
    }
}

impl PartialToolCall {
    /// The call once the stream has ended, with a fresh identifier where it
    /// came without one.
    pub fn finish_with_id(self, fresh: String) -> (r: ToolCall)
        ensures
            r@ == finished_call(self@, fresh@),
    {
        let arguments = arguments_value(
            self.arguments.as_str(),
            Json::parse(self.arguments.as_str()),
        );
        ToolCall {
            call_id: match self.call_id {
                Some(id) => id,
                None => fresh,
            },
            item_id: self.item_id,
            name: self.name,
            arguments,
        }
    }

    /// The call once the stream has ended. One that came without an identifier
    /// gets one.
    pub fn finish(self) -> (r: ToolCall)
        ensures
            r@ == finished_call(self@, r@.call_id),
            self@.call_id is None ==> is_uuid_v4(r@.call_id),
    {
        self.finish_with_id(fresh_id())
    }
}

/// The plans in the first `upto` values of a list, one value after the other.
pub open spec fn list_plans(items: Seq<JsonView>, upto: nat) -> Seq<JsonView>
    decreases items, upto,
{
    if upto == 0 || upto > items.len() {
        Seq::empty()
    } else {
        list_plans(items, (upto - 1) as nat) + plans_in(items[upto - 1])
    }
}

/// The plans in the values of the first `upto` entries of an object.
pub open spec fn entry_plans(entries: Seq<(Seq<char>, JsonView)>, upto: nat) -> Seq<JsonView>
    decreases entries, upto,
{
    if upto == 0 || upto > entries.len() {
        Seq::empty()
    } else {
        proof {
            assert(decreases_to!(entries => entries[upto - 1]));
            assert(decreases_to!(entries[upto - 1] => entries[upto - 1].1));
        }
        entry_plans(entries, (upto - 1) as nat) + plans_in(entries[upto - 1].1)
    }
}

/// What stands in an object under `execution_plan`, and the object itself where
/// it is of that type.
pub open spec fn own_plans(entries: Seq<(Seq<char>, JsonView)>) -> Seq<JsonView> {
    let under_key = match lookup(entries, "execution_plan"@) {
        Some(plan) => seq![plan],
        None => Seq::empty(),
    };
    if lookup(entries, "type"@) == Some(JsonView::Text("execution_plan"@)) {
        under_key.push(JsonView::Object(entries))
    } else {
        under_key
    }
}

/// The execution plans in a value, from the outside in.
pub open spec fn plans_in(value: JsonView) -> Seq<JsonView>
    decreases value, 0nat,
{
    match value {
        JsonView::Object(entries) => own_plans(entries) + entry_plans(
            value->Object_0,
            entries.len(),
        ),
        JsonView::List(items) => list_plans(value->List_0, items.len()),
        _ => Seq::empty(),
    }
}

/// Collects the execution plans in a value, from the outside in.
pub fn collect_execution_plans(value: &Json, plans: &mut Vec<Json>)
    ensures
        json_views(final(plans)@) == json_views(old(plans)@) + plans_in(value@),
    decreases value@,
{
    let ghost before = json_views(plans@);
    match value {
        Json::Object(object) => {
            let ghost entries = object@;
            let ghost mut own: Seq<JsonView> = Seq::empty();
            match object.get("execution_plan") {
                Some(plan) => {
                    plans.push(plan.clone());
                    proof {
                        own = seq![plan@];
                    }
                },
                None => {},
            }
            assert(json_views(plans@) =~= before + own);
            let of_type = match object.get("type") {
                Some(Json::Text(kind)) => same(kind.as_str(), "execution_plan"),
                _ => false,
            };
            if of_type {
                plans.push(Json::Object(object.clone()));
                proof {
                    own = own.push(JsonView::Object(entries));
                }
            }
            assert(json_views(plans@) =~= before + own);
            assert(own =~= own_plans(entries));
            let count: usize = object.len();
            for i in 0..count
                invariant
                    count == entries.len(),
                    value@ == JsonView::Object(entries),
                    entries == object@,
                    json_views(plans@) == before + own + entry_plans(entries, i as nat),
            {
                let ghost so_far = json_views(plans@);
                proof {
                    assert(decreases_to!(value@ => value@->Object_0));
                    assert(decreases_to!(entries => entries[i as int]));
                    assert(decreases_to!(entries[i as int] => entries[i as int].1));
                }
                collect_execution_plans(object.value_at(i), plans);
                assert(json_views(plans@) =~= before + own + (entry_plans(entries, i as nat)
                    + plans_in(entries[i as int].1)));
            }
            assert(json_views(plans@) =~= before + plans_in(value@));
        },
        Json::List(items) => {
            let ghost list = value@->List_0;
            for i in 0..items.len()
                invariant
                    value@ == JsonView::List(list),
                    list.len() == items@.len(),
                    forall|j: int| 0 <= j < items@.len() ==> list[j] == (#[trigger] items@[j])@,
                    json_views(plans@) == before + list_plans(list, i as nat),
            {
                proof {
                    assert(decreases_to!(value@ => value@->List_0));
                    assert(decreases_to!(list => list[i as int]));
                }
                collect_execution_plans(&items[i], plans);
                assert(json_views(plans@) =~= before + (list_plans(list, i as nat) + plans_in(
                    list[i as int],
                )));
            }
        },
        _ => {
            assert(json_views(plans@) =~= before + plans_in(value@));
        },
    }
}

/// The plan that an answer reports: none, the only one, or the list of them.
pub open spec fn plan_of(plans: Seq<JsonView>) -> Option<JsonView> {
    if plans.len() == 0 {
        None
    } else if plans.len() == 1 {
        Some(plans[0])
    } else {
        Some(JsonView::List(plans))
    }
}

/// The plan that an answer reports.
pub fn execution_plan_from_many(plans: Vec<Json>) -> (r: Option<Json>)
    ensures
        opt_json(r) == plan_of(json_views(plans@)),
{
    let ghost all = json_views(plans@);
    if plans.len() == 0 {
        None
    } else if plans.len() == 1 {
        let mut plans = plans;
        assert(all[0] == plans@[0]@);
        plans.pop()
    } else {
        let list = Json::List(plans);
        assert(list@->List_0 =~= all);
        Some(list)
    }
}

/// An item of the model's output in the form in which it can be sent back.
pub open spec fn item_for_input(item: JsonView) -> JsonView {
    match item {
        JsonView::Object(entries) => JsonView::Object(take_out(entries, "id"@)),
        _ => item,
    }
}

/// Takes the identifier out of an item, so that it can be sent back.
pub fn response_item_for_input(item: Json) -> (r: Json)
    ensures
        r@ == item_for_input(item@),
{
    match item {
        Json::Object(object) => Json::Object(object.without("id")),
        other => other,
    }
}

/// An item of the model's output. The JSON form of a call or of reasoning is
/// there where it could be written.
#[derive(Debug)]
pub enum OutputItem {
    FunctionCall {
        value: Option<Json>,
        call_id: String,
        id: Option<String>,
        name: String,
        arguments: String,
    },
    Reasoning { value: Option<Json> },
    Other,
}

/// An event of the model's stream, as far as the answer depends on it. `usage`
/// is there where a response reports one, and holds its JSON form where that
/// could be written.
#[derive(Debug)]
pub enum StreamEvent {
    TextDelta { delta: String },
    TextDone { text: String },
    ArgumentsDelta { output_index: u32, delta: String },
    ArgumentsDone { output_index: u32, name: Option<String>, item_id: String, arguments: String },
    OutputItem { output_index: u32, item: OutputItem },
    Completed { response_id: String, usage: Option<Option<Json>> },
    Failed { error: String },
    Incomplete { details: String },
    Error { message: String },
    Other,
}

/// The piece of text that an event hands on to whoever follows the stream.
pub fn streamed(event: &StreamEvent) -> (r: Option<&str>)
    ensures
        match event {
            StreamEvent::TextDelta { delta } => r matches Some(text) && text@ == delta@,
            _ => r is None,
        },
{
    match event {
        StreamEvent::TextDelta { delta } => Some(delta.as_str()),
        _ => None,
    }
}

/// An answer as far as the stream has told of it.
#[derive(Debug)]
pub struct StreamAccumulator {
    content: String,
    tool_calls: Vec<PartialToolCall>,
    response_items: Vec<Json>,
    usage: Option<Json>,
    execution_plans: Vec<Json>,
    response_id: Option<String>,
}

/// What an accumulator holds.
#[verifier::ext_equal]
pub struct AccumulatorView {
    pub content: Seq<char>,
    pub tool_calls: Seq<PartialCallView>,
    pub response_items: Seq<JsonView>,
    pub usage: Option<JsonView>,
    pub execution_plans: Seq<JsonView>,
    pub response_id: Option<Seq<char>>,
}

impl View for StreamAccumulator {
    type V = AccumulatorView;

    closed spec fn view(&self) -> AccumulatorView {
        AccumulatorView {
            content: self.content@,
            tool_calls: partial_views(self.tool_calls@),
            response_items: json_views(self.response_items@),
            usage: opt_json(self.usage),
            execution_plans: json_views(self.execution_plans@),
            response_id: opt_view(self.response_id),
        }
    }
}

/// An accumulator before the first event.
pub open spec fn nothing_yet() -> AccumulatorView {
    AccumulatorView {
        content: Seq::empty(),
        tool_calls: Seq::empty(),
        response_items: Seq::empty(),
        usage: None,
        execution_plans: Seq::empty(),
        response_id: None,
    }
}

/// A list with at least `len` items, filled up at its end.
pub open spec fn filled<A>(list: Seq<A>, len: nat, filler: A) -> Seq<A>
    decreases len - list.len(),
{
    if list.len() >= len {
        list
    } else {
        filled(list.push(filler), len, filler)
    }
}

/// The call at a place of the output.
pub open spec fn call_at(calls: Seq<PartialCallView>, index: nat) -> PartialCallView {
    if index < calls.len() {
        calls[index as int]
    } else {
        blank_call()
    }
}

/// The calls with one of them changed, blank ones before it where there were
/// fewer.
pub open spec fn with_call(calls: Seq<PartialCallView>, index: nat, call: PartialCallView) -> Seq<
    PartialCallView,
> {
    filled(calls, index + 1, blank_call()).update(index as int, call)
}

/// The stored items with one of them replaced, nulls before it where there were
/// fewer.
pub open spec fn with_item(items: Seq<JsonView>, index: nat, item: JsonView) -> Seq<JsonView> {
    filled(items, index + 1, JsonView::Null).update(index as int, item)
}

/// The JSON form of an item that is kept, where there is one.
pub open spec fn kept_value(item: OutputItem) -> Option<JsonView> {
    match item {
        OutputItem::FunctionCall { value, .. } => opt_json(value),
        OutputItem::Reasoning { value } => opt_json(value),
        OutputItem::Other => None,
    }
}

/// An accumulator after an item of the output. The first identifier of a call
/// stays; what else is said of it is replaced.
pub open spec fn with_output_item(
    acc: AccumulatorView,
    index: nat,
    item: OutputItem,
) -> AccumulatorView {
    let response_items = match kept_value(item) {
        Some(value) => with_item(acc.response_items, index, item_for_input(value)),
        None => acc.response_items,
    };
    let tool_calls = match item {
        OutputItem::FunctionCall { value, call_id, id, name, arguments } => with_call(
            acc.tool_calls,
            index,
            PartialCallView {
                call_id: match call_at(acc.tool_calls, index).call_id {
                    Some(first) => Some(first),
                    None => Some(call_id@),
                },
                item_id: opt_view(id),
                name: name@,
                arguments: arguments@,
            },
        ),
        _ => acc.tool_calls,
    };
    AccumulatorView { response_items, tool_calls, ..acc }
}

/// An accumulator after an event, or why the answer has failed.
pub open spec fn after_event(acc: AccumulatorView, event: StreamEvent) -> Result<
    AccumulatorView,
    Seq<Seq<char>>,
> {
    match event {
        StreamEvent::TextDelta { delta } => Ok(
            AccumulatorView { content: acc.content + delta@, ..acc },
        ),
        StreamEvent::TextDone { text } => Ok(AccumulatorView { content: text@, ..acc }),
        StreamEvent::ArgumentsDelta { output_index, delta } => {
            let call = call_at(acc.tool_calls, output_index as nat);
            Ok(
                AccumulatorView {
                    tool_calls: with_call(
                        acc.tool_calls,
                        output_index as nat,
                        PartialCallView { arguments: call.arguments + delta@, ..call },
                    ),
                    ..acc
                },
            )
        },
        StreamEvent::ArgumentsDone { output_index, name, item_id, arguments } => {
            let call = call_at(acc.tool_calls, output_index as nat);
            Ok(
                AccumulatorView {
                    tool_calls: with_call(
                        acc.tool_calls,
                        output_index as nat,
                        PartialCallView {
                            call_id: call.call_id,
                            item_id: match call.item_id {
                                Some(first) => Some(first),
                                None => Some(item_id@),
                            },
                            name: match name {
                                Some(n) => n@,
                                None => call.name,
                            },
                            arguments: arguments@,
                        },
                    ),
                    ..acc
                },
            )
        },
        StreamEvent::OutputItem { output_index, item } => Ok(
            with_output_item(acc, output_index as nat, item),
        ),
        StreamEvent::Completed { response_id, usage } => Ok(
            AccumulatorView {
                response_id: Some(response_id@),
                usage: match usage {
                    Some(reported) => opt_json(reported),
                    None => acc.usage,
                },
                ..acc
            },
        ),
        StreamEvent::Failed { error } => Err(seq!["model response failed: "@ + error@]),
        StreamEvent::Incomplete { details } => Err(
            seq!["model response incomplete: "@ + details@],
        ),
        StreamEvent::Error { message } => Err(seq!["model stream error: "@ + message@]),
        StreamEvent::Other => Ok(acc),
    }
}

/// The calls that are named, finished, each with the fresh identifier at its
/// place.
pub open spec fn finished_calls(
    calls: Seq<PartialCallView>,
    fresh: Seq<Seq<char>>,
    upto: nat,
) -> Seq<ToolCallView>
    decreases upto,
{
    if upto == 0 {
        Seq::empty()
    } else {
        let before = finished_calls(calls, fresh, (upto - 1) as nat);
        let call = calls[upto - 1];
        if call.name.len() > 0 {
            before.push(finished_call(call, fresh[upto - 1]))
        } else {
            before
        }
    }
}

/// The stored items that are not null.
pub open spec fn not_null() -> spec_fn(JsonView) -> bool {
    |item: JsonView| !(item is Null)
}

/// The answer that the stream has told of, with fresh identifiers for calls
/// that came without one. An answer holds content or calls.
pub open spec fn finished(acc: AccumulatorView, fresh: Seq<Seq<char>>) -> Result<
    ResponseView,
    Seq<Seq<char>>,
> {
    let content = if acc.content.len() > 0 {
        Some(acc.content)
    } else {
        None
    };
    let tool_calls = finished_calls(acc.tool_calls, fresh, acc.tool_calls.len());
    if content is None && tool_calls.len() == 0 {
        Err(seq!["model response contained neither content nor tool calls"@])
    } else {
        Ok(
            ResponseView {
                content,
                tool_calls,
                response_items: acc.response_items.filter(not_null()),
                usage: acc.usage,
                execution_plan: plan_of(acc.execution_plans),
                response_id: acc.response_id,
            },
        )
    }
}

/// The view of an answer that may have failed.
pub open spec fn response_view(response: Result<ModelResponse, Failure>) -> Result<
    ResponseView,
    Seq<Seq<char>>,
> {
    match response {
        Ok(r) => Ok(r@),
        Err(failure) => Err(failure@),
    }
}

proof fn lemma_filled<A>(list: Seq<A>, len: nat, filler: A)
    ensures
        filled(list, len, filler).len() == if list.len() >= len {
            list.len()
        } else {
            len
        },
        forall|i: int|
            0 <= i < filled(list, len, filler).len() ==> #[trigger] filled(list, len, filler)[i]
                == if i < list.len() {
                list[i]
            } else {
                filler
            },
    decreases len - list.len(),
{
    if list.len() < len {
        lemma_filled(list.push(filler), len, filler);
    }
}

fn led_by(lead: &str, text: &str) -> (r: String)
    ensures
        r@ == lead@ + text@,
{
    let mut out: String = lead.to_owned();
    out.push_str(text);
    out
}

impl Default for StreamAccumulator {
    fn default() -> (r: StreamAccumulator)
        ensures
            r@ == nothing_yet(),
    {
        let r = StreamAccumulator {
            content: String::new(),
            tool_calls: Vec::new(),
            response_items: Vec::new(),
            usage: None,
            execution_plans: Vec::new(),
            response_id: None,
        };
        assert(r@ =~= nothing_yet());
        r
    }
}

impl StreamAccumulator {
    /// Makes room for the call at a place of the output.
    fn partial_tool_call(&mut self, output_index: u32) -> (r: usize)
        ensures
            r == output_index,
            r < final(self)@.tool_calls.len(),
            final(self)@ == (AccumulatorView {
                tool_calls: filled(
                    old(self)@.tool_calls,
                    output_index as nat + 1,
                    blank_call(),
                ),
                ..old(self)@
            }),
            final(self)@.tool_calls[r as int] == call_at(
                old(self)@.tool_calls,
                output_index as nat,
            ),
    {
        let index: usize = output_index as usize;
        let ghost before = self@;
        while self.tool_calls.len() <= index
            invariant
                index == output_index,
                self@ == (AccumulatorView { tool_calls: self@.tool_calls, ..before }),
                filled(self@.tool_calls, index as nat + 1, blank_call()) == filled(
                    before.tool_calls,
                    index as nat + 1,
                    blank_call(),
                ),
            decreases index + 1 - self.tool_calls@.len(),
        {
            let ghost calls = self@.tool_calls;
            self.tool_calls.push(PartialToolCall::default());
            assert(self@.tool_calls =~= calls.push(blank_call()));
        }
        proof {
            lemma_filled(before.tool_calls, index as nat + 1, blank_call());
        }
        index
    }

    /// Keeps an item of the output under its place.
    fn store_response_item(&mut self, output_index: u32, item: Json)
        ensures
            final(self)@ == (AccumulatorView {
                response_items: with_item(
                    old(self)@.response_items,
                    output_index as nat,
                    item@,
                ),
                ..old(self)@
            }),
    {
        let index: usize = output_index as usize;
        let ghost before = self@;
        let ghost given = item@;
        while self.response_items.len() <= index
            invariant
                index == output_index,
                self@ == (AccumulatorView { response_items: self@.response_items, ..before }),
                filled(self@.response_items, index as nat + 1, JsonView::Null) == filled(
                    before.response_items,
                    index as nat + 1,
                    JsonView::Null,
                ),
            decreases index + 1 - self.response_items@.len(),
        {
            let ghost items = self@.response_items;
            self.response_items.push(Json::Null);
            assert(self@.response_items =~= items.push(JsonView::Null));
        }
        let ghost items = self@.response_items;
        self.response_items.set(index, item);
        assert(self@.response_items =~= items.update(index as int, given));
    }

    /// Takes in an item of the output.
    pub fn apply_output_item(&mut self, output_index: u32, item: OutputItem)
        ensures
            final(self)@ == with_output_item(old(self)@, output_index as nat, item),
            item matches OutputItem::FunctionCall { id, name, arguments, .. } ==> {
                &&& output_index < final(self)@.tool_calls.len()
                &&& final(self)@.tool_calls[output_index as int].name == name@
                &&& final(self)@.tool_calls[output_index as int].arguments == arguments@
                &&& final(self)@.tool_calls[output_index as int].item_id == opt_view(id)
            },
    {
        let ghost before = self@;
        proof {
            lemma_filled(before.tool_calls, output_index as nat + 1, blank_call());
        }
        match item {
            OutputItem::FunctionCall { value, call_id, id, name, arguments } => {
                match value {
                    Some(form) => {
                        self.store_response_item(output_index, response_item_for_input(form));
                    },
                    None => {},
                }
                let index = self.partial_tool_call(output_index);
                let ghost calls = self@.tool_calls;
                let first = copy_opt(&self.tool_calls[index].call_id);
                let call = PartialToolCall {
                    call_id: match first {
                        Some(id) => Some(id),
                        None => Some(call_id),
                    },
                    item_id: id,
                    name,
                    arguments,
                };
                let ghost given = call@;
                self.tool_calls.set(index, call);
                assert(self@.tool_calls =~= calls.update(index as int, given));
                assert(self@ =~= with_output_item(before, output_index as nat, item));
            },
            OutputItem::Reasoning { value } => {
                match value {
                    Some(form) => {
                        self.store_response_item(output_index, response_item_for_input(form));
                    },
                    None => {},
                }
            },
            OutputItem::Other => {},
        }
    }

    /// Takes in what the model reports to have used.
    pub fn set_usage(&mut self, usage: Option<Json>)
        ensures
            final(self)@ == (AccumulatorView { usage: opt_json(usage), ..old(self)@ }),
    {
        self.usage = usage;
    }

    /// Takes in the execution plans that the JSON form of an event holds.
    pub fn collect_plans(&mut self, value: &Json)
        ensures
            final(self)@ == (AccumulatorView {
                execution_plans: old(self)@.execution_plans + plans_in(value@),
                ..old(self)@
            }),
    {
        collect_execution_plans(value, &mut self.execution_plans);
    }

    /// Takes in an event. One that reports a failure changes nothing.
    pub fn apply_event(&mut self, event: StreamEvent) -> (r: Result<(), Failure>)
        ensures
            match after_event(old(self)@, event) {
                Ok(after) => r is Ok && final(self)@ == after,
                Err(chain) => final(self)@ == old(self)@ && (r matches Err(failure) && failure@
                    == chain),
            },
    {
        let ghost before = self@;
        match event {
            StreamEvent::TextDelta { delta } => {
                self.content.push_str(delta.as_str());
            },
            StreamEvent::TextDone { text } => {
                self.content = text;
            },
            StreamEvent::ArgumentsDelta { output_index, delta } => {
                let index = self.partial_tool_call(output_index);
                let ghost calls = self@.tool_calls;
                let old_call = &self.tool_calls[index];
                let mut arguments: String = old_call.arguments.clone();
                arguments.push_str(delta.as_str());
                let call = PartialToolCall {
                    call_id: copy_opt(&old_call.call_id),
                    item_id: copy_opt(&old_call.item_id),
                    name: old_call.name.clone(),
                    arguments,
                };
                let ghost given = call@;
                self.tool_calls.set(index, call);
                assert(self@.tool_calls =~= calls.update(index as int, given));
            },
            StreamEvent::ArgumentsDone { output_index, name, item_id, arguments } => {
                let index = self.partial_tool_call(output_index);
                let ghost calls = self@.tool_calls;
                let old_call = &self.tool_calls[index];
                let call = PartialToolCall {
                    call_id: copy_opt(&old_call.call_id),
                    item_id: match &old_call.item_id {
                        Some(first) => Some(first.clone()),
                        None => Some(item_id),
                    },
                    name: match name {
                        Some(n) => n,
                        None => old_call.name.clone(),
                    },
                    arguments,
                };
                let ghost given = call@;
                self.tool_calls.set(index, call);
                assert(self@.tool_calls =~= calls.update(index as int, given));
            },
            StreamEvent::OutputItem { output_index, item } => {
                self.apply_output_item(output_index, item);
            },
            StreamEvent::Completed { response_id, usage } => {
                self.response_id = Some(response_id);
                match usage {
                    Some(reported) => {
                        self.set_usage(reported);
                    },
                    None => {},
                }
            },
            StreamEvent::Failed { error } => {
                return Err(Failure::new(led_by("model response failed: ", error.as_str())));
            },
            StreamEvent::Incomplete { details } => {
                return Err(
                    Failure::new(led_by("model response incomplete: ", details.as_str())),
                );
            },
            StreamEvent::Error { message } => {
                return Err(Failure::new(led_by("model stream error: ", message.as_str())));
            },
            StreamEvent::Other => {},
        }
        Ok(())
    }

    /// How many places of the output hold calls.
    pub fn call_places(&self) -> (r: usize)
        ensures
            r == self@.tool_calls.len(),
    {
        self.tool_calls.len()
    }

    /// The answer that the stream has told of, with the given identifiers for
    /// calls that came without one.
    pub fn finish_with_ids(self, fresh: Vec<String>) -> (r: Result<ModelResponse, Failure>)
        requires
            fresh@.len() == self@.tool_calls.len(),
        ensures
            response_view(r) == finished(self@, views(fresh@)),
    {
        let ghost acc = self@;
        let ghost ids = views(fresh@);
        let content = if self.content.as_str().is_empty() {
            None
        } else {
            Some(self.content)
        };
        let mut tool_calls: Vec<ToolCall> = Vec::new();
        let ghost partials = self.tool_calls@;
        let mut fresh_ids = fresh;
        assert(call_views(tool_calls@) =~= finished_calls(acc.tool_calls, ids, 0));
        for call in it: self.tool_calls
            invariant
                it.seq() == partials,
                acc.tool_calls == partial_views(partials),
                ids.len() == partials.len(),
                fresh_ids@.len() == partials.len() - it.index(),
                forall|j: int|
                    0 <= j < fresh_ids@.len() ==> (#[trigger] fresh_ids@[j])@ == ids[it.index()
                        + j],
                call_views(tool_calls@) == finished_calls(acc.tool_calls, ids, it.index() as nat),
        {
            let ghost before = call_views(tool_calls@);
            let ghost at = it.index();
            proof {
                assert(acc.tool_calls[at] == call@);
                assert(fresh_ids@[0]@ == ids[at]);
            }
            let id = fresh_ids.remove(0);
            if !call.name.as_str().is_empty() {
                let done = call.finish_with_id(id);
                let ghost given = done@;
                tool_calls.push(done);
                assert(call_views(tool_calls@) =~= before.push(given));
            }
        }
        if content.is_none() && tool_calls.len() == 0 {
            assert(call_views(tool_calls@).len() == 0);
            return Err(
                Failure::new(
                    "model response contained neither content nor tool calls".to_owned(),
                ),
            );
        }
        assert(call_views(tool_calls@).len() == tool_calls@.len());
        let mut response_items: Vec<Json> = Vec::new();
        let ghost stored = self.response_items@;
        let ghost stored_views = json_views(stored);
        proof {
            reveal(Seq::filter);
            assert(stored_views.take(0).filter(not_null()) =~= Seq::<JsonView>::empty());
            assert(json_views(response_items@) =~= Seq::<JsonView>::empty());
        }
        for item in it: self.response_items
            invariant
                it.seq() == stored,
                stored_views == json_views(stored),
                json_views(response_items@) == stored_views.take(it.index() as int).filter(
                    not_null(),
                ),
        {
            let ghost before = json_views(response_items@);
            let ghost given = item@;
            proof {
                reveal(Seq::filter);
                let upto = stored_views.take(it.index() + 1);
                assert(upto.drop_last() =~= stored_views.take(it.index() as int));
                assert(upto.last() == given);
            }
            if !item.is_null() {
                response_items.push(item);
                assert(json_views(response_items@) =~= before.push(given));
            }
        }
        assert(stored_views.take(stored_views.len() as int) =~= stored_views);
        Ok(
            ModelResponse {
                content,
                tool_calls,
                response_items,
                usage: self.usage,
                execution_plan: execution_plan_from_many(self.execution_plans),
                response_id: self.response_id,
            },
        )
    }

    /// The answer that the stream has told of. Calls that came without an
    /// identifier get one.
    pub fn finish(self) -> (r: Result<ModelResponse, Failure>)
        ensures
            exists|fresh: Seq<Seq<char>>|
                fresh.len() == self@.tool_calls.len() && (forall|i: int|
                    0 <= i < fresh.len() ==> is_uuid_v4(#[trigger] fresh[i])) && response_view(r)
                    == #[trigger] finished(self@, fresh),
    {
        let mut fresh: Vec<String> = Vec::new();
        let count: usize = self.tool_calls.len();
        for i in 0..count
            invariant
                fresh@.len() == i,
                forall|j: int| 0 <= j < i ==> is_uuid_v4((#[trigger] fresh@[j])@),
        {
            fresh.push(fresh_id());
        }
        let ghost ids = views(fresh@);
        assert forall|i: int| 0 <= i < ids.len() implies is_uuid_v4(#[trigger] ids[i]) by {
            assert(ids[i] == fresh@[i]@);
        }
        self.finish_with_ids(fresh)
    }
}

/// An accumulator after a list of events, up to the first that reports a
/// failure.
pub open spec fn after_events(acc: AccumulatorView, events: Seq<StreamEvent>) -> Result<
    AccumulatorView,
    Seq<Seq<char>>,
>
    decreases events.len(),
{
    if events.len() == 0 {
        Ok(acc)
    } else {
        match after_events(acc, events.drop_last()) {
            Ok(before) => after_event(before, events.last()),
            Err(chain) => Err(chain),
        }
    }
}

/// The text that the pieces among a list of events make up.
pub open spec fn streamed_text(events: Seq<StreamEvent>) -> Seq<char>
    decreases events.len(),
{
    if events.len() == 0 {
        Seq::empty()
    } else {
        let before = streamed_text(events.drop_last());
        match events.last() {
            StreamEvent::TextDelta { delta } => before + delta@,
            _ => before,
        }
    }
}

/// Text that comes in pieces is put together in their order, and nothing else
/// changes.
pub proof fn text_pieces_are_joined(acc: AccumulatorView, events: Seq<StreamEvent>)
    requires
        forall|i: int| 0 <= i < events.len() ==> (#[trigger] events[i]) is TextDelta,
    ensures
        after_events(acc, events) == Ok::<AccumulatorView, Seq<Seq<char>>>(
            AccumulatorView { content: acc.content + streamed_text(events), ..acc },
        ),
    decreases events.len(),
{
    if events.len() == 0 {
        assert(acc.content + streamed_text(events) =~= acc.content);
    } else {
        let front = events.drop_last();
        assert forall|i: int| 0 <= i < front.len() implies (#[trigger] front[i]) is TextDelta by {
            assert(front[i] == events[i]);
        }
        text_pieces_are_joined(acc, front);
        assert(events[events.len() - 1] is TextDelta);
        assert(acc.content + streamed_text(events) =~= acc.content + streamed_text(front)
            + events.last()->TextDelta_delta@);
    }
}

/// Whether no stored item carries an identifier of its own.
pub open spec fn items_carry_no_id(items: Seq<JsonView>) -> bool {
    forall|i: int| 0 <= i < items.len() ==> (#[trigger] items[i]).get("id"@) is None
}

proof fn lemma_item_for_input_has_no_id(item: JsonView)
    ensures
        item_for_input(item).get("id"@) is None,
{
    if item is Object {
        lookup_after_take_out(item->Object_0, "id"@, "id"@);
    }
}

/// No event lets an item be stored with its identifier, so none is ever sent
/// back with it.
pub proof fn stored_items_carry_no_id(acc: AccumulatorView, event: StreamEvent)
    requires
        items_carry_no_id(acc.response_items),
    ensures
        after_event(acc, event) matches Ok(after) ==> items_carry_no_id(after.response_items),
{
    if event is OutputItem {
        let index = event->OutputItem_output_index as nat;
        let item = event->OutputItem_item;
        if kept_value(item) is Some {
            let value = kept_value(item)->Some_0;
            lemma_item_for_input_has_no_id(value);
            lemma_filled(acc.response_items, index + 1, JsonView::Null);
        }
    }
}

/// Once a call has its identifier, no later event changes it.
pub proof fn call_ids_stay(acc: AccumulatorView, event: StreamEvent, at: nat)
    requires
        call_at(acc.tool_calls, at).call_id is Some,
    ensures
        after_event(acc, event) matches Ok(after) ==> call_at(after.tool_calls, at).call_id
            == call_at(acc.tool_calls, at).call_id,
{
    match event {
        StreamEvent::ArgumentsDelta { output_index, .. } => {
            lemma_filled(acc.tool_calls, output_index as nat + 1, blank_call());
        },
        StreamEvent::ArgumentsDone { output_index, .. } => {
            lemma_filled(acc.tool_calls, output_index as nat + 1, blank_call());
        },
        StreamEvent::OutputItem { output_index, .. } => {
            lemma_filled(acc.tool_calls, output_index as nat + 1, blank_call());
        },
        _ => {},
    }
}

proof fn lemma_finished_calls_are_named(
    calls: Seq<PartialCallView>,
    fresh: Seq<Seq<char>>,
    upto: nat,
)
    requires
        upto <= calls.len(),
    ensures
        forall|i: int|
            0 <= i < finished_calls(calls, fresh, upto).len() ==> (#[trigger] finished_calls(
                calls,
                fresh,
                upto,
            )[i]).name.len() > 0,
    decreases upto,
{
    if upto > 0 {
        lemma_finished_calls_are_named(calls, fresh, (upto - 1) as nat);
    }
}

/// An answer holds content or a call; its content is not empty, its calls are
/// named, and none of its items is null.
pub proof fn answers_are_not_empty(acc: AccumulatorView, fresh: Seq<Seq<char>>)
    ensures
        finished(acc, fresh) matches Ok(response) ==> {
            &&& response.content is Some || response.tool_calls.len() > 0
            &&& response.content matches Some(text) ==> text.len() > 0
            &&& forall|i: int|
                0 <= i < response.tool_calls.len() ==> (
                #[trigger] response.tool_calls[i]).name.len() > 0
            &&& forall|i: int|
                0 <= i < response.response_items.len() ==> !((
                #[trigger] response.response_items[i]) is Null)
        },
{
    lemma_finished_calls_are_named(acc.tool_calls, fresh, acc.tool_calls.len());
    let kept = acc.response_items.filter(not_null());
    assert forall|i: int| 0 <= i < kept.len() implies !((#[trigger] kept[i]) is Null) by {
        acc.response_items.lemma_filter_pred(not_null(), i);
    }
}

/// A message holds what it is made of: its role and its text, and of a tool's
/// result the identifier of the call that it answers.
pub proof fn messages_keep_what_they_are_made_of(
    role: Seq<char>,
    text: Seq<char>,
    call_id: Seq<char>,
    content: Option<Seq<char>>,
    calls: Seq<ToolCallView>,
    items: Seq<JsonView>,
)
    ensures
        ({
            let said = text_message(role, text);
            &&& said.role == role
            &&& said.content == Some(text)
            &&& said.tool_calls.len() == 0
            &&& said.response_items.len() == 0
            &&& said.tool_call_id is None
        }),
        ({
            let asked = tool_calls_message(content, calls, items);
            &&& asked.role == "assistant"@
            &&& asked.content == content
            &&& asked.tool_calls == calls
            &&& asked.response_items == items
            &&& asked.tool_call_id is None
        }),
        ({
            let result = tool_result_message(call_id, text);
            &&& result.role == "tool"@
            &&& result.content == Some(text)
            &&& result.tool_calls.len() == 0
            &&& result.response_items.len() == 0
            &&& result.tool_call_id == Some(call_id)
        }),
{
}

/// The four roles have different names.
pub proof fn roles_differ()
    ensures
        "system"@ != "user"@,
        "system"@ != "assistant"@,
        "system"@ != "tool"@,
        "user"@ != "assistant"@,
        "user"@ != "tool"@,
        "assistant"@ != "tool"@,
{
    reveal_strlit("system");
    reveal_strlit("user");
    reveal_strlit("assistant");
    reveal_strlit("tool");
    assert("system"@.len() == 6 && "assistant"@.len() == 9);
    assert("user"@[0] == 'u' && "tool"@[0] == 't');
}

/// What is sent for the result of a tool is one part: an output under the
/// identifier of the call, with the text of the message. Without an identifier
/// nothing is sent.
pub proof fn tool_results_are_sent_as_they_are(message: MessageView)
    requires
        message.role == "tool"@,
    ensures
        message_items(message) is Ok <==> message.tool_call_id is Some,
        message_items(message) matches Ok(parts) ==> {
            &&& parts.len() == 1
            &&& parts[0] matches InputItemView::FunctionCallOutput { call_id, output } && Some(
                call_id,
            ) == message.tool_call_id && (match message.content {
                Some(text) => output == text,
                None => output.len() == 0,
            })
        },
{
    roles_differ();
}

/// The result of a tool goes from the message made of it to the model whole: for
/// every call and every text, the one part that is sent is the output of that
/// call, and it is that text.
pub proof fn every_tool_result_reaches_the_model(call_id: Seq<char>, content: Seq<char>)
    ensures
        message_items(tool_result_message(call_id, content)) matches Ok(parts) && parts.len() == 1
            && parts[0] == (InputItemView::FunctionCallOutput { call_id, output: content }),
{
    roles_differ();
}

/// What is sent for a message of the system or of the user is one part: a message
/// of the same speaker with the same text.
pub proof fn messages_are_sent_as_they_are(message: MessageView)
    requires
        message.role == "system"@ || message.role == "user"@,
    ensures
        message_items(message) matches Ok(parts) && parts.len() == 1 && (
        parts[0] matches InputItemView::Message { role, content } && (role == Role::System <==>
            message.role == "system"@) && (role == Role::User <==> message.role == "user"@) && (
        match message.content {
            Some(text) => content == text,
            None => content.len() == 0,
        })),
{
    roles_differ();
}

/// Whether the first parts of a list are the text of a message of the model, and
/// how many they are: one for a text that is not empty, none otherwise.
pub open spec fn text_goes_first(
    parts: Seq<InputItemView>,
    content: Option<Seq<char>>,
    count: int,
) -> bool {
    match content {
        Some(text) => if text.len() > 0 {
            count == 1 && parts.len() > 0 && parts[0] == (InputItemView::Message {
                role: Role::Assistant,
                content: text,
            })
        } else {
            count == 0
        },
        None => count == 0,
    }
}

/// What is sent for a message in which the model asks for tools is its text,
/// where it has any, and one part for each call, in their order, with the call's
/// identifiers, its name and the text of its arguments.
pub proof fn calls_are_sent_in_their_order(message: MessageView)
    requires
        message.role == "assistant"@,
        message.tool_calls.len() > 0,
    ensures
        message_items(message) matches Ok(parts) && ({
            let count = parts.len() - message.tool_calls.len();
            &&& text_goes_first(parts, message.content, count)
            &&& forall|i: int|
                0 <= i < message.tool_calls.len() ==> (
                #[trigger] parts[count + i] matches InputItemView::FunctionCall {
                    call_id,
                    id,
                    name,
                    arguments,
                } && call_id == message.tool_calls[i].call_id && id
                    == message.tool_calls[i].item_id && name == message.tool_calls[i].name
                    && arguments == json_print(message.tool_calls[i].arguments))
        }),
{
    roles_differ();
    let calls = message.tool_calls.map_values(|call: ToolCallView| function_call_item(call));
    let parts = message_items(message)->Ok_0;
    let text = answer_items(message.content);
    assert(parts == text + calls);
    let count = parts.len() - message.tool_calls.len();
    assert forall|i: int| 0 <= i < message.tool_calls.len() implies (
    #[trigger] parts[count + i] matches InputItemView::FunctionCall {
        call_id,
        id,
        name,
        arguments,
    } && call_id == message.tool_calls[i].call_id && id == message.tool_calls[i].item_id && name
        == message.tool_calls[i].name && arguments == json_print(
        message.tool_calls[i].arguments,
    )) by {
        assert(parts[count + i] == calls[i]);
    }
}

proof fn lemma_stored_items(items: Seq<JsonView>)
    ensures
        stored_items(items) is Ok <==> forall|i: int|
            0 <= i < items.len() ==> stored_item_fault(#[trigger] items[i]) is None,
        stored_items(items) matches Ok(parts) ==> parts.len() == items.len() && forall|i: int|
            0 <= i < items.len() ==> #[trigger] parts[i] == InputItemView::Stored(items[i]),
    decreases items.len(),
{
    if items.len() > 0 {
        let front = items.drop_last();
        lemma_stored_items(front);
        assert forall|i: int| 0 <= i < front.len() implies front[i] == items[i] by {}
        if stored_items(front) is Err {
            let i = choose|i: int|
                0 <= i < front.len() && stored_item_fault(#[trigger] front[i]) is Some;
            assert(stored_item_fault(items[i]) is Some);
        }
    }
}

proof fn lemma_first_fault(items: Seq<JsonView>)
    ensures
        stored_items(items) matches Err(chain) ==> chain.len() == 2 && exists|i: int|
            0 <= i < items.len() && stored_item_fault(#[trigger] items[i]) == Some(chain[1])
                && forall|j: int| 0 <= j < i ==> stored_item_fault(#[trigger] items[j]) is None,
    decreases items.len(),
{
    if items.len() > 0 {
        let front = items.drop_last();
        lemma_first_fault(front);
        lemma_stored_items(front);
        assert(forall|i: int| 0 <= i < front.len() ==> front[i] == items[i]);
        match stored_items(front) {
            Err(chain) => {
                let i = choose|i: int|
                    0 <= i < front.len() && stored_item_fault(#[trigger] front[i]) == Some(chain[1])
                        && forall|j: int|
                        0 <= j < i ==> stored_item_fault(#[trigger] front[j]) is None;
                assert(stored_item_fault(items[i]) == Some(chain[1]));
                assert forall|j: int| 0 <= j < i implies stored_item_fault(
                    #[trigger] items[j],
                ) is None by {
                    assert(stored_item_fault(front[j]) is None);
                }
            },
            Ok(_) => {
                let last = items.len() - 1;
                if stored_item_fault(items[last]) is Some {
                    assert forall|j: int| 0 <= j < last implies stored_item_fault(
                        #[trigger] items[j],
                    ) is None by {
                        assert(stored_item_fault(front[j]) is None);
                    }
                }
            },
        }
    }
}

/// What is sent for any other message of the model is its text, where it has any,
/// and its stored items, each as it is, in their order; unless one of them is none
/// that a request can hold: then the first such one is reported.
pub proof fn stored_items_are_sent_as_they_are(message: MessageView)
    requires
        message.role == "assistant"@,
        message.tool_calls.len() == 0,
    ensures
        message_items(message) is Ok <==> forall|i: int|
            0 <= i < message.response_items.len() ==> stored_item_fault(
                #[trigger] message.response_items[i],
            ) is None,
        message_items(message) matches Ok(parts) ==> ({
            let count = parts.len() - message.response_items.len();
            &&& text_goes_first(parts, message.content, count)
            &&& forall|i: int|
                0 <= i < message.response_items.len() ==> #[trigger] parts[count + i]
                    == InputItemView::Stored(message.response_items[i])
        }),
        message_items(message) matches Err(chain) ==> chain.len() == 2 && exists|i: int|
            0 <= i < message.response_items.len() && stored_item_fault(
                #[trigger] message.response_items[i],
            ) == Some(chain[1]) && forall|j: int|
                0 <= j < i ==> stored_item_fault(#[trigger] message.response_items[j]) is None,
{
    roles_differ();
    lemma_stored_items(message.response_items);
    lemma_first_fault(message.response_items);
    if message_items(message) is Ok {
        let parts = message_items(message)->Ok_0;
        let stored = stored_items(message.response_items)->Ok_0;
        let count = parts.len() - message.response_items.len();
        assert forall|i: int| 0 <= i < message.response_items.len() implies #[trigger] parts[count
            + i] == InputItemView::Stored(message.response_items[i]) by {
            assert(parts[count + i] == stored[i]);
        }
    }
}

/// A message that is of none of the four roles is not sent, and the failure names
/// the role.
pub proof fn other_roles_are_refused(message: MessageView)
    requires
        message.role != "system"@,
        message.role != "user"@,
        message.role != "assistant"@,
        message.role != "tool"@,
    ensures
        message_items(message) matches Err(chain) && chain.len() == 1 && occurs(
            chain[0],
            message.role,
        ),
{
    middle_occurs("unsupported conversation role `"@, message.role, "`"@);
}

/// What is sent for a conversation is what is sent for its messages, one message
/// behind the other: a single message gives its own parts, and a conversation that
/// goes on with one more message gives the parts of that message behind its own.
pub proof fn conversations_are_sent_message_by_message(
    messages: Seq<MessageView>,
    message: MessageView,
)
    ensures
        conversation_items(seq![message]) == message_items(message),
        conversation_items(messages) matches Ok(before) ==> (message_items(message) matches Ok(
            parts,
        ) ==> (conversation_items(messages.push(message)) matches Ok(all) && all.len()
            == before.len() + parts.len() && (forall|i: int|
            0 <= i < before.len() ==> #[trigger] all[i] == before[i]) && (forall|i: int|
            0 <= i < parts.len() ==> #[trigger] all[before.len() + i] == parts[i]))),
        conversation_items(messages.push(message)) is Ok <==> conversation_items(messages) is Ok
            && message_items(message) is Ok,
{
    assert(messages.push(message).drop_last() =~= messages);
    assert(seq![message].drop_last() =~= Seq::<MessageView>::empty());
    assert(seq![message].last() == message);
    assert(conversation_items(Seq::empty()) == Ok::<Seq<InputItemView>, Seq<Seq<char>>>(
        Seq::empty(),
    ));
    if message_items(message) is Ok {
        let parts = message_items(message)->Ok_0;
        assert(Seq::<InputItemView>::empty() + parts =~= parts);
    }
}

/// Whether an event speaks of the call at a place of the output.
pub open spec fn speaks_of_call(event: StreamEvent, at: int) -> bool {
    match event {
        StreamEvent::ArgumentsDelta { output_index, .. } => output_index == at,
        StreamEvent::ArgumentsDone { output_index, .. } => output_index == at,
        StreamEvent::OutputItem { output_index, item } => output_index == at
            && item is FunctionCall,
        _ => false,
    }
}

/// An event leaves every call alone that it does not speak of.
pub proof fn other_calls_stay(acc: AccumulatorView, event: StreamEvent, at: int)
    requires
        0 <= at < acc.tool_calls.len(),
        !speaks_of_call(event, at),
    ensures
        after_event(acc, event) matches Ok(after) ==> at < after.tool_calls.len()
            && after.tool_calls[at] == acc.tool_calls[at],
{
    match event {
        StreamEvent::ArgumentsDelta { output_index, .. } => {
            lemma_filled(acc.tool_calls, output_index as nat + 1, blank_call());
        },
        StreamEvent::ArgumentsDone { output_index, .. } => {
            lemma_filled(acc.tool_calls, output_index as nat + 1, blank_call());
        },
        StreamEvent::OutputItem { output_index, .. } => {
            lemma_filled(acc.tool_calls, output_index as nat + 1, blank_call());
        },
        _ => {},
    }
}

/// Whether what else is known of an answer is the same in two accumulators: its
/// text, its usage, its plans and its identifier.
pub open spec fn same_but_calls(a: AccumulatorView, b: AccumulatorView) -> bool {
    &&& a.content == b.content
    &&& a.usage == b.usage
    &&& a.execution_plans == b.execution_plans
    &&& a.response_id == b.response_id
}

/// After an item of the output that is a call, the call at its place has the name,
/// the item's identifier and the arguments that the item tells, and the first
/// identifier that was told for the call. The answer is otherwise as it was, and
/// the places that were left out so far hold no call.
pub proof fn items_tell_the_whole_call(acc: AccumulatorView, event: StreamEvent)
    requires
        event is OutputItem,
        event->OutputItem_item is FunctionCall,
    ensures
        after_event(acc, event) matches Ok(after) && ({
            let at = event->OutputItem_output_index as int;
            let item = event->OutputItem_item;
            &&& at < after.tool_calls.len()
            &&& after.tool_calls[at].name == item->FunctionCall_name@
            &&& after.tool_calls[at].arguments == item->FunctionCall_arguments@
            &&& after.tool_calls[at].item_id == (match item->FunctionCall_id {
                Some(id) => Some(id@),
                None => None,
            })
            &&& after.tool_calls[at].call_id == (if at < acc.tool_calls.len()
                && acc.tool_calls[at].call_id is Some {
                acc.tool_calls[at].call_id
            } else {
                Some(item->FunctionCall_call_id@)
            })
            &&& forall|i: int|
                acc.tool_calls.len() <= i < after.tool_calls.len() && i != at ==> (
                #[trigger] after.tool_calls[i]).name.len() == 0
            &&& same_but_calls(after, acc)
        }),
{
    let at = event->OutputItem_output_index as nat;
    lemma_filled(acc.tool_calls, at + 1, blank_call());
}

/// An item that is kept is kept at its place with all that it says but its
/// identifier; the other items stay, and where there is nothing to keep, all do.
pub proof fn items_are_kept_but_for_their_id(acc: AccumulatorView, event: StreamEvent, key: Seq<char>)
    requires
        event is OutputItem,
    ensures
        after_event(acc, event) matches Ok(after) && ({
            let at = event->OutputItem_output_index as int;
            let told = match event->OutputItem_item {
                OutputItem::FunctionCall { value, .. } => value,
                OutputItem::Reasoning { value } => value,
                OutputItem::Other => None,
            };
            match told {
                None => after.response_items == acc.response_items,
                Some(value) => {
                    &&& at < after.response_items.len()
                    &&& after.response_items[at].get(key) == (if key == "id"@ {
                        None
                    } else {
                        value@.get(key)
                    })
                    &&& !(value@ is Object) ==> after.response_items[at] == value@
                    &&& forall|i: int|
                        0 <= i < acc.response_items.len() && i != at ==> #[trigger] after.response_items[i]
                            == acc.response_items[i]
                    &&& forall|i: int|
                        acc.response_items.len() <= i < after.response_items.len() && i != at
                            ==> #[trigger] after.response_items[i] is Null
                },
            }
        }),
{
    let at = event->OutputItem_output_index as nat;
    lemma_filled(acc.response_items, at + 1, JsonView::Null);
    let item = event->OutputItem_item;
    if kept_value(item) is Some {
        let value = kept_value(item)->Some_0;
        if value is Object {
            lookup_after_take_out(value->Object_0, "id"@, key);
            lookup_after_take_out(value->Object_0, "id"@, "id"@);
        }
    }
}

/// A piece of a call's arguments goes behind what is known of them; the end of the
/// arguments tells them whole, with the name where it says one, and with the
/// item's identifier where none is known. Nothing else changes.
pub proof fn arguments_are_gathered(acc: AccumulatorView, event: StreamEvent)
    requires
        event is ArgumentsDelta || event is ArgumentsDone,
    ensures
        after_event(acc, event) matches Ok(after) && ({
            let at = match event {
                StreamEvent::ArgumentsDelta { output_index, .. } => output_index as int,
                _ => event->ArgumentsDone_output_index as int,
            };
            let known = at < acc.tool_calls.len();
            &&& at < after.tool_calls.len()
            &&& after.tool_calls[at].call_id == (if known {
                acc.tool_calls[at].call_id
            } else {
                None
            })
            &&& after.response_items == acc.response_items
            &&& same_but_calls(after, acc)
            &&& match event {
                StreamEvent::ArgumentsDelta { delta, .. } => if known {
                    &&& after.tool_calls[at].arguments == acc.tool_calls[at].arguments + delta@
                    &&& after.tool_calls[at].name == acc.tool_calls[at].name
                    &&& after.tool_calls[at].item_id == acc.tool_calls[at].item_id
                } else {
                    &&& after.tool_calls[at].arguments == delta@
                    &&& after.tool_calls[at].name.len() == 0
                    &&& after.tool_calls[at].item_id is None
                },
                _ => {
                    &&& after.tool_calls[at].arguments == event->ArgumentsDone_arguments@
                    &&& event->ArgumentsDone_name matches Some(name) ==> after.tool_calls[at].name
                        == name@
                    &&& event->ArgumentsDone_name is None && known ==> after.tool_calls[at].name
                        == acc.tool_calls[at].name
                    &&& event->ArgumentsDone_name is None && !known
                        ==> after.tool_calls[at].name.len() == 0
                    &&& known && acc.tool_calls[at].item_id is Some
                        ==> after.tool_calls[at].item_id == acc.tool_calls[at].item_id
                    &&& !(known && acc.tool_calls[at].item_id is Some)
                        ==> after.tool_calls[at].item_id == Some(event->ArgumentsDone_item_id@)
                },
            }
        }),
{
    match event {
        StreamEvent::ArgumentsDelta { output_index, delta } => {
            lemma_filled(acc.tool_calls, output_index as nat + 1, blank_call());
            assert(Seq::<char>::empty() + delta@ =~= delta@);
        },
        _ => {
            let at = event->ArgumentsDone_output_index as nat;
            lemma_filled(acc.tool_calls, at + 1, blank_call());
        },
    }
}

/// A piece of text goes behind the text so far, and the end of the text tells it
/// whole; the end of the response tells its identifier and, where it reports one,
/// its usage. Each leaves all else as it was.
pub proof fn text_and_usage_are_taken_in(acc: AccumulatorView, event: StreamEvent)
    ensures
        event matches StreamEvent::TextDelta { delta } ==> (after_event(acc, event) matches Ok(
            after,
        ) && after.content.len() == acc.content.len() + delta@.len() && after.content.take(
            acc.content.len() as int,
        ) == acc.content && after.content.skip(acc.content.len() as int) == delta@
            && after.tool_calls == acc.tool_calls && after.response_items == acc.response_items
            && after.usage == acc.usage && after.execution_plans == acc.execution_plans
            && after.response_id == acc.response_id),
        event matches StreamEvent::TextDone { text } ==> (after_event(acc, event) matches Ok(after)
            && after.content == text@ && after.tool_calls == acc.tool_calls
            && after.response_items == acc.response_items && after.usage == acc.usage
            && after.execution_plans == acc.execution_plans && after.response_id
            == acc.response_id),
        event matches StreamEvent::Completed { response_id, usage } ==> (after_event(
            acc,
            event,
        ) matches Ok(after) && after.response_id == Some(response_id@) && after.content
            == acc.content && after.tool_calls == acc.tool_calls && after.response_items
            == acc.response_items && after.execution_plans == acc.execution_plans && (match usage {
            Some(Some(value)) => after.usage == Some(value@),
            Some(None) => after.usage is None,
            None => after.usage == acc.usage,
        })),
        event is Other ==> (after_event(acc, event) matches Ok(after) && after == acc),
{
    if event is TextDelta {
        let delta = event->TextDelta_delta@;
        assert((acc.content + delta).take(acc.content.len() as int) =~= acc.content);
        assert((acc.content + delta).skip(acc.content.len() as int) =~= delta);
    }
}

/// An answer fails with the events that report a failure and with no others, and
/// the failure tells what they report.
pub proof fn reported_failures_are_told(acc: AccumulatorView, event: StreamEvent)
    ensures
        after_event(acc, event) is Err <==> event is Failed || event is Incomplete
            || event is Error,
        after_event(acc, event) matches Err(chain) ==> chain.len() == 1 && occurs(
            chain[0],
            match event {
                StreamEvent::Failed { error } => error@,
                StreamEvent::Incomplete { details } => details@,
                _ => event->Error_message@,
            },
        ),
{
    match event {
        StreamEvent::Failed { error } => middle_occurs(
            "model response failed: "@,
            error@,
            Seq::empty(),
        ),
        StreamEvent::Incomplete { details } => middle_occurs(
            "model response incomplete: "@,
            details@,
            Seq::empty(),
        ),
        StreamEvent::Error { message } => middle_occurs(
            "model stream error: "@,
            message@,
            Seq::empty(),
        ),
        _ => {},
    }
}

/// Whether arguments are what a text reads as: nothing but white space stands for
/// an object without entries, JSON for its value, and any other text for an object
/// that has that text, as it is, under its one key.
pub open spec fn arguments_say(arguments: JsonView, text: Seq<char>) -> bool {
    if forall|i: int| 0 <= i < text.len() ==> is_white(#[trigger] text[i]) {
        arguments is Object && arguments->Object_0.len() == 0
    } else {
        match json_read(text) {
            Ok(value) => arguments == value,
            Err(_) => arguments.get("raw_arguments"@) == Some(JsonView::Text(text))
                && arguments->Object_0.len() == 1,
        }
    }
}

/// A call comes out of the stream with the identifiers and the name that were
/// told for it, and with the arguments that their text reads as; only one that
/// came without an identifier takes the fresh one.
pub proof fn finished_calls_say_what_was_told(call: PartialCallView, fresh: Seq<char>)
    ensures
        ({
            let done = finished_call(call, fresh);
            &&& done.name == call.name
            &&& done.item_id == call.item_id
            &&& call.call_id is Some ==> call.call_id == Some(done.call_id)
            &&& call.call_id is None ==> done.call_id == fresh
            &&& arguments_say(done.arguments, call.arguments)
        }),
{
    broadcast use lookup_of_put;

    trimmed_text_is_bare(call.arguments);
    let text = call.arguments;
    let kept = put(no_entries(), "raw_arguments"@, JsonView::Text(text));
    assert(kept.len() == 1);
}

/// Whether a call is one of the first calls of a list that are named, finished.
spec fn stems_from(
    done: ToolCallView,
    calls: Seq<PartialCallView>,
    fresh: Seq<Seq<char>>,
    upto: nat,
) -> bool {
    exists|i: int|
        0 <= i < upto && (#[trigger] calls[i]).name.len() > 0 && done == finished_call(
            calls[i],
            fresh[i],
        )
}

proof fn lemma_finished_calls(
    calls: Seq<PartialCallView>,
    fresh: Seq<Seq<char>>,
    upto: nat,
)
    requires
        upto <= calls.len(),
    ensures
        forall|i: int|
            0 <= i < upto && (#[trigger] calls[i]).name.len() > 0 ==> finished_calls(
                calls,
                fresh,
                upto,
            ).contains(finished_call(calls[i], fresh[i])),
        forall|k: int|
            0 <= k < finished_calls(calls, fresh, upto).len() ==> stems_from(
                #[trigger] finished_calls(calls, fresh, upto)[k],
                calls,
                fresh,
                upto,
            ),
        finished_calls(calls, fresh, upto).len() <= upto,
        (forall|i: int| 0 <= i < upto ==> (#[trigger] calls[i]).name.len() > 0)
            ==> finished_calls(calls, fresh, upto).len() == upto && forall|i: int|
            0 <= i < upto ==> #[trigger] finished_calls(calls, fresh, upto)[i] == finished_call(
                calls[i],
                fresh[i],
            ),
    decreases upto,
{
    if upto > 0 {
        let last = upto - 1;
        lemma_finished_calls(calls, fresh, last as nat);
        let before = finished_calls(calls, fresh, last as nat);
        let all = finished_calls(calls, fresh, upto);
        assert forall|i: int| 0 <= i < upto && (#[trigger] calls[i]).name.len() > 0 implies all.contains(
            finished_call(calls[i], fresh[i]),
        ) by {
            if i < last {
                let k = choose|k: int|
                    0 <= k < before.len() && before[k] == finished_call(calls[i], fresh[i]);
                assert(all[k] == before[k]);
            } else {
                assert(all[before.len() as int] == finished_call(calls[i], fresh[i]));
            }
        }
        assert forall|k: int| 0 <= k < all.len() implies stems_from(
            #[trigger] all[k],
            calls,
            fresh,
            upto,
        ) by {
            if k < before.len() {
                assert(all[k] == before[k]);
                assert(stems_from(before[k], calls, fresh, last as nat));
                let i = choose|i: int|
                    0 <= i < last && (#[trigger] calls[i]).name.len() > 0 && before[k]
                        == finished_call(calls[i], fresh[i]);
                assert(calls[i].name.len() > 0);
            } else {
                assert(calls[last].name.len() > 0);
            }
        }
    }
}

/// Whether a call is what was told for it, and takes the fresh identifier only
/// where none was told.
pub open spec fn call_says(done: ToolCallView, told: PartialCallView, fresh: Seq<char>) -> bool {
    &&& done.name == told.name
    &&& done.item_id == told.item_id
    &&& told.call_id is Some ==> told.call_id == Some(done.call_id)
    &&& told.call_id is None ==> done.call_id == fresh
    &&& arguments_say(done.arguments, told.arguments)
}

/// An answer is what the stream has told: its text, its usage and its identifier as
/// they are, and the plans, where there are any. There is one where there is text
/// or a named call.
pub proof fn answers_say_what_was_told(acc: AccumulatorView, fresh: Seq<Seq<char>>)
    ensures
        finished(acc, fresh) is Ok <==> acc.content.len() > 0 || exists|i: int|
            0 <= i < acc.tool_calls.len() && (#[trigger] acc.tool_calls[i]).name.len() > 0,
        finished(acc, fresh) matches Ok(response) ==> {
            &&& acc.content.len() > 0 ==> response.content == Some(acc.content)
            &&& acc.content.len() == 0 ==> response.content is None
            &&& response.usage == acc.usage
            &&& response.response_id == acc.response_id
            &&& response.execution_plan is None <==> acc.execution_plans.len() == 0
            &&& acc.execution_plans.len() == 1 ==> response.execution_plan == Some(
                acc.execution_plans[0],
            )
            &&& acc.execution_plans.len() > 1 ==> response.execution_plan == Some(
                JsonView::List(acc.execution_plans),
            )
        },
{
    let calls = acc.tool_calls;
    let n = calls.len();
    lemma_finished_calls(calls, fresh, n);
    let done = finished_calls(calls, fresh, n);
    if done.len() > 0 {
        assert(stems_from(done[0], calls, fresh, n));
        let i = choose|i: int|
            0 <= i < n && (#[trigger] calls[i]).name.len() > 0 && done[0] == finished_call(
                calls[i],
                fresh[i],
            );
        assert(calls[i].name.len() > 0);
    }
    if exists|i: int| 0 <= i < n && (#[trigger] calls[i]).name.len() > 0 {
        let i = choose|i: int| 0 <= i < n && (#[trigger] calls[i]).name.len() > 0;
        assert(done.contains(finished_call(calls[i], fresh[i])));
    }
}

/// Each call that was named is in the answer, as it was told.
pub proof fn named_calls_are_answered(acc: AccumulatorView, fresh: Seq<Seq<char>>, i: int)
    requires
        0 <= i < acc.tool_calls.len(),
        acc.tool_calls[i].name.len() > 0,
    ensures
        finished(acc, fresh) matches Ok(response) && exists|k: int|
            0 <= k < response.tool_calls.len() && call_says(
                #[trigger] response.tool_calls[k],
                acc.tool_calls[i],
                fresh[i],
            ),
{
    let calls = acc.tool_calls;
    lemma_finished_calls(calls, fresh, calls.len());
    let done = finished_calls(calls, fresh, calls.len());
    let wanted = finished_call(calls[i], fresh[i]);
    finished_calls_say_what_was_told(calls[i], fresh[i]);
    assert(done.contains(wanted));
    let k = choose|k: int| 0 <= k < done.len() && done[k] == wanted;
    let response = finished(acc, fresh)->Ok_0;
    assert(response.tool_calls == done);
    assert(call_says(response.tool_calls[k], calls[i], fresh[i]));
}

/// Each call of an answer was named by the stream, and is as it was told.
pub proof fn answered_calls_were_named(acc: AccumulatorView, fresh: Seq<Seq<char>>, k: int)
    ensures
        finished(acc, fresh) matches Ok(response) ==> (0 <= k < response.tool_calls.len()
            ==> exists|i: int|
            0 <= i < acc.tool_calls.len() && (#[trigger] acc.tool_calls[i]).name.len() > 0
                && call_says(response.tool_calls[k], acc.tool_calls[i], fresh[i])),
{
    let calls = acc.tool_calls;
    let n = calls.len();
    lemma_finished_calls(calls, fresh, n);
    let done = finished_calls(calls, fresh, n);
    if 0 <= k < done.len() {
        assert(stems_from(done[k], calls, fresh, n));
        let i = choose|i: int|
            0 <= i < n && (#[trigger] calls[i]).name.len() > 0 && done[k] == finished_call(
                calls[i],
                fresh[i],
            );
        finished_calls_say_what_was_told(calls[i], fresh[i]);
        assert(calls[i].name.len() > 0 && call_says(done[k], calls[i], fresh[i]));
    }
}

/// Where every place of the output holds a named call, the answer holds them in the
/// order of their places.
pub proof fn calls_keep_their_order(acc: AccumulatorView, fresh: Seq<Seq<char>>)
    requires
        acc.tool_calls.len() > 0,
        forall|i: int|
            0 <= i < acc.tool_calls.len() ==> (#[trigger] acc.tool_calls[i]).name.len() > 0,
    ensures
        finished(acc, fresh) matches Ok(response) && response.tool_calls.len()
            == acc.tool_calls.len() && forall|i: int|
            0 <= i < acc.tool_calls.len() ==> call_says(
                #[trigger] response.tool_calls[i],
                acc.tool_calls[i],
                fresh[i],
            ),
{
    let calls = acc.tool_calls;
    let n = calls.len();
    lemma_finished_calls(calls, fresh, n);
    let done = finished_calls(calls, fresh, n);
    assert forall|i: int| 0 <= i < n implies call_says(
        #[trigger] done[i],
        calls[i],
        fresh[i],
    ) by {
        finished_calls_say_what_was_told(calls[i], fresh[i]);
    }
}

/// An answer holds each stored item that is not null, and no other; and where none
/// is null, they stand as they are.
pub proof fn stored_items_are_answered(
    acc: AccumulatorView,
    fresh: Seq<Seq<char>>,
    item: JsonView,
)
    ensures
        finished(acc, fresh) matches Ok(response) ==> {
            &&& response.response_items.contains(item) <==> !(item is Null)
                && acc.response_items.contains(item)
            &&& (forall|i: int|
                0 <= i < acc.response_items.len() ==> !((#[trigger] acc.response_items[i]) is Null))
                ==> response.response_items == acc.response_items
        },
{
    let kept = acc.response_items.filter(not_null());
    if !(item is Null) && acc.response_items.contains(item) {
        let i = choose|i: int| 0 <= i < acc.response_items.len() && acc.response_items[i] == item;
        acc.response_items.lemma_filter_contains(not_null(), i);
    }
    if kept.contains(item) {
        let k = choose|k: int| 0 <= k < kept.len() && kept[k] == item;
        acc.response_items.lemma_filter_pred(not_null(), k);
        acc.response_items.lemma_filter_contains_rev(not_null(), item);
    }
    if forall|i: int|
        0 <= i < acc.response_items.len() ==> !((#[trigger] acc.response_items[i]) is Null) {
        lemma_all_are_kept(acc.response_items);
    }
}

proof fn lemma_all_are_kept(items: Seq<JsonView>)
    requires
        forall|i: int| 0 <= i < items.len() ==> !((#[trigger] items[i]) is Null),
    ensures
        items.filter(not_null()) == items,
    decreases items.len(),
{
    reveal(Seq::filter);
    if items.len() > 0 {
        assert(!(items[items.len() - 1] is Null));
        assert forall|i: int| 0 <= i < items.drop_last().len() implies !((
        #[trigger] items.drop_last()[i]) is Null) by {
            assert(items.drop_last()[i] == items[i]);
        }
        lemma_all_are_kept(items.drop_last());
        assert(items.drop_last().push(items.last()) =~= items);
    } else {
        assert(items.filter(not_null()) =~= items);
    }
}

proof fn lemma_calls_stay(acc: AccumulatorView, events: Seq<StreamEvent>, at: int)
    requires
        0 <= at < acc.tool_calls.len(),
        forall|i: int| 0 <= i < events.len() ==> !speaks_of_call(#[trigger] events[i], at),
    ensures
        after_events(acc, events) matches Ok(after) ==> at < after.tool_calls.len()
            && after.tool_calls[at] == acc.tool_calls[at],
    decreases events.len(),
{
    if events.len() > 0 {
        let front = events.drop_last();
        assert forall|i: int| 0 <= i < front.len() implies !speaks_of_call(
            #[trigger] front[i],
            at,
        ) by {
            assert(front[i] == events[i]);
        }
        lemma_calls_stay(acc, front, at);
        assert(!speaks_of_call(events[events.len() - 1], at));
        if after_events(acc, front) is Ok {
            other_calls_stay(after_events(acc, front)->Ok_0, events.last(), at);
        }
    }
}

/// Where the last word on a place of the output is a finished call, the answer
/// holds that call: with the name and the arguments that the item tells, whatever
/// came before it, and whatever comes behind it for other places.
pub proof fn the_last_word_on_a_call_counts(
    acc: AccumulatorView,
    event: StreamEvent,
    later: Seq<StreamEvent>,
    fresh: Seq<Seq<char>>,
)
    requires
        event is OutputItem,
        event->OutputItem_item is FunctionCall,
        event->OutputItem_item->FunctionCall_name@.len() > 0,
        forall|i: int|
            0 <= i < later.len() ==> !speaks_of_call(
                #[trigger] later[i],
                event->OutputItem_output_index as int,
            ),
    ensures
        after_event(acc, event) matches Ok(told) && (after_events(told, later) matches Ok(after)
            ==> (finished(after, fresh) matches Ok(response) && exists|k: int|
            0 <= k < response.tool_calls.len() && (#[trigger] response.tool_calls[k]).name
                == event->OutputItem_item->FunctionCall_name@ && arguments_say(
                response.tool_calls[k].arguments,
                event->OutputItem_item->FunctionCall_arguments@,
            ))),
{
    let at = event->OutputItem_output_index as int;
    items_tell_the_whole_call(acc, event);
    let told = after_event(acc, event)->Ok_0;
    lemma_calls_stay(told, later, at);
    if after_events(told, later) is Ok {
        let after = after_events(told, later)->Ok_0;
        assert(after.tool_calls[at].name.len() > 0);
        named_calls_are_answered(after, fresh, at);
        let response = finished(after, fresh)->Ok_0;
        let k = choose|k: int|
            0 <= k < response.tool_calls.len() && call_says(
                #[trigger] response.tool_calls[k],
                after.tool_calls[at],
                fresh[at],
            );
        assert(response.tool_calls[k].name == event->OutputItem_item->FunctionCall_name@);
    }
}

/// A request carries what the settings say and what the conversation and the
/// tools hold: the model and each of its parameters, the parts of the
/// conversation, each tool with its name, its description and its schema, to which
/// the model must keep, and the response that the request goes on from. It asks for
/// a stream.
pub proof fn requests_carry_the_settings(
    model: OpenAiCompatibleModel,
    config: ModelConfigView,
    messages: Seq<MessageView>,
    tools: Seq<ToolDefinitionView>,
    context: ContextView,
)
    requires
        follows(model, config),
    ensures
        request_for(model, messages, tools, context) is Ok <==> conversation_items(
            messages,
        ) is Ok,
        request_for(model, messages, tools, context) matches Err(chain) ==> conversation_items(
            messages,
        ) == Err::<Seq<InputItemView>, Seq<Seq<char>>>(chain),
        request_for(model, messages, tools, context) matches Ok(request) ==> {
            &&& conversation_items(messages) == Ok::<Seq<InputItemView>, Seq<Seq<char>>>(
                request.input,
            )
            &&& request.model == config.model
            &&& request.stream
            &&& request.store == config.prompt_cache.store_responses
            &&& request.previous_response_id == context.previous_response_id
            &&& request.prompt_cache_key == config.prompt_cache.key
            &&& request.prompt_cache_retention == config.prompt_cache.retention
            &&& request.max_output_tokens == config.max_output_tokens
            &&& request.temperature == config.temperature
            &&& request.top_p == config.top_p
            &&& request.reasoning_effort == config.reasoning_effort
            &&& request.auto_tool_choice <==> tools.len() > 0
            &&& request.tools is Some <==> tools.len() > 0
            &&& request.tools matches Some(list) ==> list.len() == tools.len() && forall|i: int|
                0 <= i < tools.len() ==> (#[trigger] list[i]).name == tools[i].name
                    && list[i].description == tools[i].description && list[i].parameters
                    == tools[i].parameters && list[i].strict
        },
{
}

/// A model that follows settings is the one that they name: with their provider,
/// addresses and key, and a client that speaks to that address with that key.
pub proof fn models_are_the_ones_named(model: OpenAiCompatibleModel, config: ModelConfigView)
    requires
        follows(model, config),
    ensures
        model.provider@ == config.provider,
        model.model@ == config.model,
        model.api_base@ == config.api_base,
        model.endpoint@ == config.endpoint,
        model.api_key is Some <==> config.api_key is Some,
        model.api_key matches Some(key) ==> config.api_key == Some(key@) && client_key(
            model.client,
        ) == key@,
        model.api_key is None ==> client_key(model.client).len() == 0,
        model.api_key_env_var@ == config.api_key_env_var,
        model.reasoning_effort == config.reasoning_effort,
        model.store_responses == config.prompt_cache.store_responses,
        client_base(model.client) == config.api_base,
{
}

/// A key for the prompt cache is taken where the settings have none, and changes
/// nothing else in them.
pub proof fn cache_keys_fill_a_gap(settings: ModelConfigView, key: Option<Seq<char>>)
    ensures
        ({
            let after = with_cache_key(settings, key);
            &&& settings.prompt_cache.key is Some ==> after == settings
            &&& settings.prompt_cache.key is None ==> after.prompt_cache.key == key
            &&& after.prompt_cache.retention == settings.prompt_cache.retention
            &&& after.prompt_cache.store_responses == settings.prompt_cache.store_responses
            &&& after.model == settings.model
            &&& after.provider == settings.provider
            &&& after.api_base == settings.api_base
            &&& after.endpoint == settings.endpoint
            &&& after.api_key == settings.api_key
            &&& after.api_key_env_var == settings.api_key_env_var
            &&& after.reasoning_effort == settings.reasoning_effort
            &&& after.max_output_tokens == settings.max_output_tokens
            &&& after.temperature == settings.temperature
            &&& after.top_p == settings.top_p
            &&& after.openrouter == settings.openrouter
        }),
{
}

/// Whether a map has a text under a name, or has not that name where there is no
/// text.
pub open spec fn tells(
    headers: Map<Seq<char>, Seq<char>>,
    name: Seq<char>,
    value: Option<Seq<char>>,
) -> bool {
    match value {
        Some(text) => headers.contains_pair(name, text),
        None => !headers.contains_key(name),
    }
}

/// The client sends the referer, the title and the categories of the settings,
/// each under the name that OpenRouter reads it by, and no header besides; unless
/// one of them is no value that a header can have.
pub proof fn headers_tell_the_settings(config: ModelConfigView, name: Seq<char>)
    ensures
        headers_for(config) is Ok <==> {
            &&& config.openrouter.referer matches Some(text) ==> is_header_value(text)
            &&& config.openrouter.title matches Some(text) ==> is_header_value(text)
            &&& config.openrouter.categories matches Some(text) ==> is_header_value(text)
        },
        headers_for(config) matches Ok(headers) ==> {
            &&& tells(headers, "http-referer"@, config.openrouter.referer)
            &&& tells(headers, "x-openrouter-title"@, config.openrouter.title)
            &&& tells(headers, "x-openrouter-categories"@, config.openrouter.categories)
            &&& headers.contains_key(name) ==> name == "http-referer"@ || name
                == "x-openrouter-title"@ || name == "x-openrouter-categories"@
        },
{
    lemma_header_names();
}

#[verifier::rlimit(40)]
proof fn lemma_header_names()
    ensures
        ascii_lower("HTTP-Referer"@) == "http-referer"@,
        ascii_lower("X-OpenRouter-Title"@) == "x-openrouter-title"@,
        ascii_lower("X-OpenRouter-Categories"@) == "x-openrouter-categories"@,
        "http-referer"@ != "x-openrouter-title"@,
        "http-referer"@ != "x-openrouter-categories"@,
        "x-openrouter-title"@ != "x-openrouter-categories"@,
{
    reveal_strlit("HTTP-Referer");
    reveal_strlit("http-referer");
    reveal_strlit("X-OpenRouter-Title");
    reveal_strlit("x-openrouter-title");
    reveal_strlit("X-OpenRouter-Categories");
    reveal_strlit("x-openrouter-categories");
    assert(lower_char('H') == 'h' && lower_char('T') == 't' && lower_char('P') == 'p'
        && lower_char('R') == 'r' && lower_char('X') == 'x' && lower_char('O') == 'o'
        && lower_char('C') == 'c');
    assert(ascii_lower("HTTP-Referer"@) =~= "http-referer"@);
    assert(ascii_lower("X-OpenRouter-Title"@) =~= "x-openrouter-title"@);
    assert(ascii_lower("X-OpenRouter-Categories"@) =~= "x-openrouter-categories"@);
    assert("http-referer"@.len() == 12 && "x-openrouter-title"@.len() == 18
        && "x-openrouter-categories"@.len() == 23);
}

/// The metadata of a model and the settings of its cache are recorded under their
/// names, and nothing else with them; what is not set is recorded as null.
pub proof fn model_records_keep_their_parts(
    metadata: MetadataView,
    settings: CacheSettingsView,
)
    ensures
        ({
            let record = metadata_json(metadata);
            &&& record.get("provider"@) == Some(JsonView::Text(metadata.provider))
            &&& record.get("model"@) == Some(JsonView::Text(metadata.model))
            &&& record.get("endpoint"@) == Some(JsonView::Text(metadata.endpoint))
            &&& record->Object_0.len() == 3
        }),
        ({
            let record = cache_settings_json(settings);
            &&& record.get("retention"@) == Some(
                match settings.retention {
                    Some(name) => JsonView::Text(name),
                    None => JsonView::Null,
                },
            )
            &&& record.get("key"@) == Some(
                match settings.key {
                    Some(key) => JsonView::Text(key),
                    None => JsonView::Null,
                },
            )
            &&& record.get("store_responses"@) == Some(JsonView::Bool(settings.store_responses))
            &&& record->Object_0.len() == 3
        }),
{
    broadcast use lookup_of_put, len_of_put;

    reveal_strlit("provider");
    reveal_strlit("model");
    reveal_strlit("endpoint");
    reveal_strlit("retention");
    reveal_strlit("key");
    reveal_strlit("store_responses");
    assert("provider"@[0] == 'p' && "endpoint"@[0] == 'e');
}

/// The values of entries, in their order.
pub open spec fn values_of(entries: Seq<(Seq<char>, JsonView)>) -> Seq<JsonView> {
    entries.map_values(|entry: (Seq<char>, JsonView)| entry.1)
}

proof fn lemma_list_plans(items: Seq<JsonView>, more: Seq<JsonView>, upto: nat)
    requires
        upto <= items.len() + more.len(),
    ensures
        list_plans(items + more, upto) == if upto <= items.len() {
            list_plans(items, upto)
        } else {
            list_plans(items, items.len()) + list_plans(more, (upto - items.len()) as nat)
        },
    decreases upto,
{
    let all = items + more;
    if upto > 0 {
        lemma_list_plans(items, more, (upto - 1) as nat);
        if upto <= items.len() {
            assert(all[upto - 1] == items[upto - 1]);
        } else {
            let at = upto - 1 - items.len();
            assert(all[upto - 1] == more[at]);
            if at == 0 {
                assert(list_plans(more, 0) =~= Seq::empty());
            }
            assert(list_plans(all, upto) =~= list_plans(items, items.len()) + list_plans(
                more,
                (at + 1) as nat,
            ));
        }
    }
}

proof fn lemma_entry_plans(entries: Seq<(Seq<char>, JsonView)>, upto: nat)
    requires
        upto <= entries.len(),
    ensures
        entry_plans(entries, upto) == list_plans(values_of(entries), upto),
    decreases upto,
{
    if upto > 0 {
        lemma_entry_plans(entries, (upto - 1) as nat);
        assert(values_of(entries)[upto - 1] == entries[upto - 1].1);
    }
}

/// Execution plans are found wherever they are. In a list they are the plans of
/// its values, one value after the other; in an object, what stands under
/// `execution_plan` goes first, then the object itself where its type says that it
/// is a plan, then the plans in its values; and nowhere else is there any.
pub proof fn plans_are_found_wherever_they_are(
    items: Seq<JsonView>,
    more: Seq<JsonView>,
    value: JsonView,
    entries: Seq<(Seq<char>, JsonView)>,
)
    ensures
        plans_in(JsonView::List(items + more)) == plans_in(JsonView::List(items)) + plans_in(
            JsonView::List(more),
        ),
        plans_in(JsonView::List(seq![value])) == plans_in(value),
        !(value is List) && !(value is Object) ==> plans_in(value).len() == 0,
        ({
            let object = JsonView::Object(entries);
            let found = plans_in(object);
            let named: int = if object.get("execution_plan"@) is Some {
                1
            } else {
                0
            };
            let typed: int = if object.get("type"@) == Some(JsonView::Text("execution_plan"@)) {
                1
            } else {
                0
            };
            &&& found.len() >= named + typed
            &&& named == 1 ==> Some(found[0]) == object.get("execution_plan"@)
            &&& typed == 1 ==> found[named] == object
            &&& found.skip(named + typed) == plans_in(JsonView::List(values_of(entries)))
        }),
{
    let all = items + more;
    lemma_list_plans(items, more, all.len());
    if more.len() == 0 {
        assert(list_plans(more, 0) =~= Seq::empty());
        assert(list_plans(items, items.len()) + list_plans(more, 0) =~= list_plans(
            items,
            items.len(),
        ));
    }
    let one = seq![value];
    assert(list_plans(one, 0) =~= Seq::empty());
    assert(list_plans(one, 1) =~= plans_in(value));
    lemma_entry_plans(entries, entries.len());
    let object = JsonView::Object(entries);
    let own = own_plans(entries);
    assert(plans_in(object) == own + entry_plans(entries, entries.len()));
    assert(plans_in(object).skip(own.len() as int) =~= entry_plans(entries, entries.len()));
}

/// A model that comes of a configuration and the environment is the one that their
/// settings name, with the given key for the prompt cache where the settings have
/// none; and there is one exactly where the settings are right and their headers
/// can be sent.
pub proof fn models_come_of_their_settings(
    config: FerrixConfig,
    env: Map<Seq<char>, EnvValueView>,
    key: Option<Seq<char>>,
    made: Result<OpenAiCompatibleModel, Failure>,
)
    requires
        model_made(config, env, key, made),
    ensures
        made is Ok ==> model_settings(workspace_view(config.model), env) is Ok,
        model_settings(workspace_view(config.model), env) matches Err(chain) ==> (
        made matches Err(failure) && failure@ == chain),
        model_settings(workspace_view(config.model), env) matches Ok(settings) ==> (made is Ok
            <==> {
            &&& settings.openrouter.referer matches Some(text) ==> is_header_value(text)
            &&& settings.openrouter.title matches Some(text) ==> is_header_value(text)
            &&& settings.openrouter.categories matches Some(text) ==> is_header_value(text)
        }),
        model_settings(workspace_view(config.model), env) matches Ok(settings) ==> (
        made matches Ok(model) ==> {
            &&& model.provider@ == settings.provider
            &&& model.model@ == settings.model
            &&& model.api_base@ == settings.api_base
            &&& model.endpoint@ == settings.endpoint
            &&& opt_view(model.api_key) == settings.api_key
            &&& model.reasoning_effort == settings.reasoning_effort
            &&& model.max_output_tokens == settings.max_output_tokens
            &&& opt_float(model.temperature) == settings.temperature
            &&& opt_float(model.top_p) == settings.top_p
            &&& model.prompt_cache_retention == settings.prompt_cache.retention
            &&& model.store_responses == settings.prompt_cache.store_responses
            &&& settings.prompt_cache.key is Some ==> opt_view(model.prompt_cache_key)
                == settings.prompt_cache.key
            &&& settings.prompt_cache.key is None ==> opt_view(model.prompt_cache_key) == key
            &&& tells(client_headers(model.client), "http-referer"@, settings.openrouter.referer)
            &&& tells(
                client_headers(model.client),
                "x-openrouter-title"@,
                settings.openrouter.title,
            )
            &&& tells(
                client_headers(model.client),
                "x-openrouter-categories"@,
                settings.openrouter.categories,
            )
        }),
{
    match model_settings(workspace_view(config.model), env) {
        Ok(settings) => headers_tell_the_settings(with_cache_key(settings, key), Seq::empty()),
        Err(_) => {},
    }
}

/// A header that cannot be sent is named.
pub proof fn refused_headers_are_named(config: ModelConfigView)
    ensures
        headers_for(config) matches Err(chain) ==> chain.len() == 2 && {
            ||| config.openrouter.referer is Some && !is_header_value(
                config.openrouter.referer->Some_0,
            ) && occurs(chain[0], "referer"@)
            ||| config.openrouter.title is Some && !is_header_value(
                config.openrouter.title->Some_0,
            ) && occurs(chain[0], "title"@)
            ||| config.openrouter.categories is Some && !is_header_value(
                config.openrouter.categories->Some_0,
            ) && occurs(chain[0], "categories"@)
        },
{
    reveal_strlit("invalid OpenRouter referer header");
    reveal_strlit("referer");
    assert("invalid OpenRouter referer header"@.subrange(19, 26) =~= "referer"@);
    assert(occurs_at("invalid OpenRouter referer header"@, "referer"@, 19));
    reveal_strlit("invalid OpenRouter title header");
    reveal_strlit("title");
    assert("invalid OpenRouter title header"@.subrange(19, 24) =~= "title"@);
    assert(occurs_at("invalid OpenRouter title header"@, "title"@, 19));
    reveal_strlit("invalid OpenRouter categories header");
    reveal_strlit("categories");
    assert("invalid OpenRouter categories header"@.subrange(19, 29) =~= "categories"@);
    assert(occurs_at("invalid OpenRouter categories header"@, "categories"@, 19));
}

/// What a message and an answer hold is what their fields hold, each by itself, and
/// the items of their lists in order.
pub proof fn messages_and_answers_hold_their_fields(
    message: ConversationMessage,
    response: ModelResponse,
)
    ensures
        message@.role == message.role@,
        message.content matches Some(text) ==> message@.content == Some(text@),
        message.content is None ==> message@.content is None,
        message@.tool_calls.len() == message.tool_calls@.len(),
        forall|i: int|
            0 <= i < message.tool_calls@.len() ==> #[trigger] message@.tool_calls[i]
                == message.tool_calls@[i]@,
        message@.response_items.len() == message.response_items@.len(),
        forall|i: int|
            0 <= i < message.response_items@.len() ==> #[trigger] message@.response_items[i]
                == message.response_items@[i]@,
        message.tool_call_id matches Some(id) ==> message@.tool_call_id == Some(id@),
        message.tool_call_id is None ==> message@.tool_call_id is None,
        response.content matches Some(text) ==> response@.content == Some(text@),
        response.content is None ==> response@.content is None,
        response@.tool_calls.len() == response.tool_calls@.len(),
        forall|i: int|
            0 <= i < response.tool_calls@.len() ==> #[trigger] response@.tool_calls[i]
                == response.tool_calls@[i]@,
        response@.response_items.len() == response.response_items@.len(),
        forall|i: int|
            0 <= i < response.response_items@.len() ==> #[trigger] response@.response_items[i]
                == response.response_items@[i]@,
        response.usage matches Some(value) ==> response@.usage == Some(value@),
        response.usage is None ==> response@.usage is None,
        response.execution_plan matches Some(value) ==> response@.execution_plan == Some(value@),
        response.execution_plan is None ==> response@.execution_plan is None,
        response.response_id matches Some(id) ==> response@.response_id == Some(id@),
        response.response_id is None ==> response@.response_id is None,
{
}

/// What a part and an offered tool hold is what their fields hold, each by itself.
pub proof fn parts_hold_their_fields(item: InputItem, tool: FunctionTool)
    ensures
        item matches InputItem::Message { role, content } ==> item@ == (InputItemView::Message {
            role,
            content: content@,
        }),
        item matches InputItem::FunctionCall { call_id, id, name, arguments } ==> (
        item@ matches InputItemView::FunctionCall { call_id: c, id: i, name: n, arguments: a } && c
            == call_id@ && n == name@ && a == arguments@ && (id matches Some(text) ==> i == Some(
            text@,
        )) && (id is None ==> i is None)),
        item matches InputItem::FunctionCallOutput { call_id, output } ==> item@ == (
        InputItemView::FunctionCallOutput { call_id: call_id@, output: output@ }),
        item matches InputItem::Stored(value) ==> item@ == InputItemView::Stored(value@),
        tool@.name == tool.name@,
        tool@.description == tool.description@,
        tool@.parameters == tool.parameters@,
        tool@.strict == tool.strict,
{
}

/// What a request holds is what its fields hold, each by itself, and the items of
/// its lists in order.
pub proof fn requests_hold_their_fields(request: ResponseRequest)
    ensures
        request@.model == request.model@,
        request@.input.len() == request.input@.len(),
        forall|i: int|
            0 <= i < request.input@.len() ==> #[trigger] request@.input[i] == request.input@[i]@,
        request.tools is None ==> request@.tools is None,
        request.tools matches Some(tools) ==> (request@.tools matches Some(list) && list.len()
            == tools@.len() && forall|i: int|
            0 <= i < tools@.len() ==> #[trigger] list[i] == tools@[i]@),
        request@.auto_tool_choice == request.auto_tool_choice,
        request@.stream == request.stream,
        request@.store == request.store,
        request.previous_response_id matches Some(id) ==> request@.previous_response_id == Some(
            id@,
        ),
        request.previous_response_id is None ==> request@.previous_response_id is None,
        request.prompt_cache_key matches Some(key) ==> request@.prompt_cache_key == Some(key@),
        request.prompt_cache_key is None ==> request@.prompt_cache_key is None,
        request@.prompt_cache_retention == request.prompt_cache_retention,
        request@.max_output_tokens == request.max_output_tokens,
        request.temperature matches Some(n) ==> request@.temperature == Some(n@),
        request.temperature is None ==> request@.temperature is None,
        request.top_p matches Some(n) ==> request@.top_p == Some(n@),
        request.top_p is None ==> request@.top_p is None,
        request@.reasoning_effort == request.reasoning_effort,
{
}

/// Before the first event nothing is known of an answer, and it cannot be finished.
pub proof fn answers_start_from_nothing(fresh: Seq<Seq<char>>)
    ensures
        nothing_yet().content.len() == 0,
        nothing_yet().tool_calls.len() == 0,
        nothing_yet().response_items.len() == 0,
        nothing_yet().usage is None,
        nothing_yet().execution_plans.len() == 0,
        nothing_yet().response_id is None,
        finished(nothing_yet(), fresh) is Err,
{
}

/// The arguments of a call are what their text was read as; a text that could not be
/// read is kept as it is, under its one key; and nothing but white space stands for
/// no arguments.
pub proof fn arguments_are_what_was_read(text: Seq<char>, read: Result<JsonView, Seq<char>>)
    ensures
        (forall|i: int| 0 <= i < text.len() ==> is_white(#[trigger] text[i])) ==> arguments_of(
            text,
            read,
        ) == JsonView::Object(Seq::empty()),
        (exists|i: int| 0 <= i < text.len() && !is_white(#[trigger] text[i])) ==> (match read {
            Ok(value) => arguments_of(text, read) == value,
            Err(_) => arguments_of(text, read).get("raw_arguments"@) == Some(JsonView::Text(text))
                && arguments_of(text, read)->Object_0.len() == 1,
        }),
{
    broadcast use lookup_of_put;

    trimmed_text_is_bare(text);
    assert(put(no_entries(), "raw_arguments"@, JsonView::Text(text)).len() == 1);
}

} // verus!
