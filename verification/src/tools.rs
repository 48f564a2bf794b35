//! The tools that the agent offers to a model, and their results.

pub mod bash;
pub mod fs;

use crate::decimal::decimal;
use crate::decimal::digits;
use crate::json::json_print;
use crate::json::json_read;
use crate::json::len_of_put;
use crate::json::lookup;
use crate::json::lookup_after_put;
use crate::json::lookup_of_put;
use crate::json::no_entries;
use crate::json::put;
use crate::json::Json;
use crate::json::JsonObject;
use crate::json::JsonView;
use crate::mcp::search_json;
use crate::mcp::search_result;
use crate::mcp::McpCallOutput;
use crate::mcp::McpError;
use crate::mcp::McpErrorView;
use crate::mcp::McpRegistry;
use crate::mcp::McpRegistryView;
use crate::text::around;
use crate::text::around_two;
use crate::text::begins_with;
use crate::text::copy_opt;
use crate::text::ends_with;
use crate::text::middle_occurs;
use crate::text::occurs;
use crate::text::occurs_at;
use crate::text::opt_view;
use crate::text::same;
use crate::text::starts_with;
use crate::text::words;
use vstd::prelude::*;

verus! {

/// What a path names, seen from the workspace root: an absolute path itself,
/// any other below the root.
pub open spec fn resolved(root: Seq<char>, path: Seq<char>) -> Seq<char> {
    if path.len() > 0 && path[0] == '/' {
        path
    } else if root.len() == 0 || root.last() == '/' {
        root + path
    } else {
        root.push('/') + path
    }
}

/// Resolves a path against the workspace root.
pub fn resolve_path(workspace_root: &str, path: &str) -> (r: String)
    ensures
        r@ == resolved(workspace_root@, path@),
{
    proof {
        reveal_strlit("/");
        assert("/"@ =~= seq!['/']);
        if path@.len() > 0 {
            assert(path@.subrange(0, 1) =~= seq![path@[0]]);
            assert(seq![path@[0]][0] == path@[0]);
        }
        if workspace_root@.len() > 0 {
            let last = workspace_root@.last();
            let at = workspace_root@.len() as int;
            assert(workspace_root@.subrange(at - 1, at) =~= seq![last]);
            assert(seq![last][0] == last);
        }
        assert("/"@[0] == '/');
    }
    if starts_with(path, "/") {
        return path.to_owned();
    }
    let mut out: String = workspace_root.to_owned();
    if workspace_root.is_empty() || ends_with(workspace_root, "/") {
        out.push_str(path);
    } else {
        out.push('/');
        out.push_str(path);
    }
    out
}

/// A path seen from an absolute root is absolute, and one that is not absolute
/// itself stays below the root.
pub proof fn resolved_path_is_absolute(root: Seq<char>, path: Seq<char>)
    requires
        root.len() > 0,
        root[0] == '/',
    ensures
        resolved(root, path).len() > 0,
        resolved(root, path)[0] == '/',
        !(path.len() > 0 && path[0] == '/') ==> begins_with(resolved(root, path), root),
{
    let whole = resolved(root, path);
    if !(path.len() > 0 && path[0] == '/') {
        assert(whole.subrange(0, root.len() as int) =~= root);
    }
}

/// A tool as the model is told of it.
#[derive(Debug)]
pub struct ToolDefinition {
    pub name: String,
    pub description: String,
    pub parameters: Json,
}

/// What a definition holds.
#[verifier::ext_equal]
pub struct ToolDefinitionView {
    pub name: Seq<char>,
    pub description: Seq<char>,
    pub parameters: JsonView,
}

impl View for ToolDefinition {
    type V = ToolDefinitionView;

    open spec fn view(&self) -> ToolDefinitionView {
        ToolDefinitionView {
            name: self.name@,
            description: self.description@,
            parameters: self.parameters@,
        }
    }
}

/// The views of a list of definitions.
pub open spec fn definition_views(tools: Seq<ToolDefinition>) -> Seq<ToolDefinitionView> {
    tools.map_values(|tool: ToolDefinition| tool@)
}

/// A model's request to run a tool.
#[derive(Debug)]
pub struct ToolCall {
    pub call_id: String,
    pub item_id: Option<String>,
    pub name: String,
    pub arguments: Json,
}

/// What a call holds.
#[verifier::ext_equal]
pub struct ToolCallView {
    pub call_id: Seq<char>,
    pub item_id: Option<Seq<char>>,
    pub name: Seq<char>,
    pub arguments: JsonView,
}

impl View for ToolCall {
    type V = ToolCallView;

    open spec fn view(&self) -> ToolCallView {
        ToolCallView {
            call_id: self.call_id@,
            item_id: opt_view(self.item_id),
            name: self.name@,
            arguments: self.arguments@,
        }
    }
}

impl Clone for ToolCall {
    fn clone(&self) -> (r: ToolCall)
        ensures
            r@ == self@,
    {
        ToolCall {
            call_id: self.call_id.clone(),
            item_id: copy_opt(&self.item_id),
            name: self.name.clone(),
            arguments: self.arguments.clone(),
        }
    }
}

/// The views of a list of calls.
pub open spec fn call_views(calls: Seq<ToolCall>) -> Seq<ToolCallView> {
    calls.map_values(|call: ToolCall| call@)
}

/// A copy of a list of calls.
pub fn copy_calls(calls: &Vec<ToolCall>) -> (r: Vec<ToolCall>)
    ensures
        call_views(r@) == call_views(calls@),
        r@.len() == calls@.len(),
{
    let mut out: Vec<ToolCall> = Vec::new();
    for i in 0..calls.len()
        invariant
            out@.len() == i,
            forall|j: int| 0 <= j < i ==> (#[trigger] out@[j])@ == calls@[j]@,
    {
        out.push(calls[i].clone());
    }
    assert(call_views(out@) =~= call_views(calls@));
    out
}

/// The JSON object of a call. An item id is written only where there is one.
pub open spec fn tool_call_json(call: ToolCallView) -> JsonView {
    let e = no_entries();
    let e = put(e, "call_id"@, JsonView::Text(call.call_id));
    let e = match call.item_id {
        Some(id) => put(e, "item_id"@, JsonView::Text(id)),
        None => e,
    };
    let e = put(e, "name"@, JsonView::Text(call.name));
    let e = put(e, "arguments"@, call.arguments);
    JsonView::Object(e)
}

impl ToolCall {
    /// The call as a JSON object.
    pub fn to_json(&self) -> (r: Json)
        ensures
            r@ == tool_call_json(self@),
    {
        let mut object = JsonObject::new().with("call_id", Json::text(self.call_id.as_str()));
        match &self.item_id {
            Some(id) => {
                object = object.with("item_id", Json::text(id.as_str()));
            },
            None => {},
        }
        Json::Object(
            object.with("name", Json::text(self.name.as_str())).with(
                "arguments",
                self.arguments.clone(),
            ),
        )
    }
}

/// The JSON list of a list of calls.
pub open spec fn tool_calls_json(calls: Seq<ToolCallView>) -> JsonView {
    JsonView::List(calls.map_values(|call: ToolCallView| tool_call_json(call)))
}

/// A list of calls as a JSON list.
pub fn calls_to_json(calls: &Vec<ToolCall>) -> (r: Json)
    ensures
        r@ == tool_calls_json(call_views(calls@)),
{
    let mut items: Vec<Json> = Vec::new();
    for i in 0..calls.len()
        invariant
            items@.len() == i,
            forall|j: int| 0 <= j < i ==> (#[trigger] items@[j])@ == tool_call_json(calls@[j]@),
    {
        items.push(calls[i].to_json());
    }
    let list = Json::List(items);
    proof {
        assert(list@->List_0 =~= call_views(calls@).map_values(
            |call: ToolCallView| tool_call_json(call),
        ));
    }
    list
}

/// What running a tool gave.
#[derive(Debug)]
pub struct ToolResult {
    pub call_id: String,
    pub name: String,
    pub ok: bool,
    pub content: String,
    pub data: Json,
}

/// What a result holds.
#[verifier::ext_equal]
pub struct ToolResultView {
    pub call_id: Seq<char>,
    pub name: Seq<char>,
    pub ok: bool,
    pub content: Seq<char>,
    pub data: JsonView,
}

impl View for ToolResult {
    type V = ToolResultView;

    open spec fn view(&self) -> ToolResultView {
        ToolResultView {
            call_id: self.call_id@,
            name: self.name@,
            ok: self.ok,
            content: self.content@,
            data: self.data@,
        }
    }
}

/// The JSON object of a result.
pub open spec fn tool_result_json(result: ToolResultView) -> JsonView {
    let e = no_entries();
    let e = put(e, "call_id"@, JsonView::Text(result.call_id));
    let e = put(e, "name"@, JsonView::Text(result.name));
    let e = put(e, "ok"@, JsonView::Bool(result.ok));
    let e = put(e, "content"@, JsonView::Text(result.content));
    let e = put(e, "data"@, result.data);
    JsonView::Object(e)
}

impl ToolResult {
    /// The result as a JSON object.
    pub fn to_json(&self) -> (r: Json)
        ensures
            r@ == tool_result_json(self@),
    {
        Json::Object(
            JsonObject::new().with("call_id", Json::text(self.call_id.as_str())).with(
                "name",
                Json::text(self.name.as_str()),
            ).with("ok", Json::Bool(self.ok)).with("content", Json::text(self.content.as_str())).with(
                "data",
                self.data.clone(),
            ),
        )
    }
}

impl Clone for ToolResult {
    fn clone(&self) -> (r: ToolResult)
        ensures
            r@ == self@,
    {
        ToolResult {
            call_id: self.call_id.clone(),
            name: self.name.clone(),
            ok: self.ok,
            content: self.content.clone(),
            data: self.data.clone(),
        }
    }
}

/// A result that answers a call.
pub open spec fn answer(
    call: ToolCallView,
    ok: bool,
    content: Seq<char>,
    data: JsonView,
) -> ToolResultView {
    ToolResultView { call_id: call.call_id, name: call.name, ok, content, data }
}

/// Whether a result answers a call: it carries the call's identifier and name.
pub open spec fn answers_call(result: ToolResultView, call: ToolCallView) -> bool {
    result.call_id == call.call_id && result.name == call.name
}

impl ToolResult {
    /// Whether the result answers a call.
    pub fn answers(&self, call: &ToolCall) -> (r: bool)
        ensures
            r == answers_call(self@, call@),
    {
        same(self.call_id.as_str(), call.call_id.as_str()) && same(
            self.name.as_str(),
            call.name.as_str(),
        )
    }
}

/// Makes the result that answers a call.
pub fn answer_call(call: &ToolCall, ok: bool, content: String, data: Json) -> (r: ToolResult)
    ensures
        r@ == answer(call@, ok, content@, data@),
{
    ToolResult { call_id: call.call_id.clone(), name: call.name.clone(), ok, content, data }
}

/// Why a tool could not do its work.
#[derive(Debug)]
pub enum ToolError {
    UnknownTool { name: String },
    InvalidArguments { tool: String, error: String },
    McpArgumentsNotJson,
    McpArgumentsNotObject,
    ReadFailed { path: String },
    CreateFailed { path: String },
    WriteFailed { path: String },
    EmptyOldText,
    TextNotFound { path: String },
    TextAmbiguous { count: usize, path: String },
    SpawnFailed { command: String },
    NoStdout,
    NoStderr,
    WaitFailed { command: String },
    StdoutThreadPanicked,
    StderrThreadPanicked,
    CaptureLockPoisoned,
    PipeFailed { error: String },
    Mcp(McpError),
}

/// What such an error holds.
#[verifier::ext_equal]
pub enum ToolErrorView {
    UnknownTool { name: Seq<char> },
    InvalidArguments { tool: Seq<char>, error: Seq<char> },
    McpArgumentsNotJson,
    McpArgumentsNotObject,
    ReadFailed { path: Seq<char> },
    CreateFailed { path: Seq<char> },
    WriteFailed { path: Seq<char> },
    EmptyOldText,
    TextNotFound { path: Seq<char> },
    TextAmbiguous { count: nat, path: Seq<char> },
    SpawnFailed { command: Seq<char> },
    NoStdout,
    NoStderr,
    WaitFailed { command: Seq<char> },
    StdoutThreadPanicked,
    StderrThreadPanicked,
    CaptureLockPoisoned,
    PipeFailed { error: Seq<char> },
    Mcp(McpErrorView),
}

impl View for ToolError {
    type V = ToolErrorView;

    open spec fn view(&self) -> ToolErrorView {
        match self {
            ToolError::UnknownTool { name } => ToolErrorView::UnknownTool { name: name@ },
            ToolError::InvalidArguments { tool, error } => ToolErrorView::InvalidArguments {
                tool: tool@,
                error: error@,
            },
            ToolError::McpArgumentsNotJson => ToolErrorView::McpArgumentsNotJson,
            ToolError::McpArgumentsNotObject => ToolErrorView::McpArgumentsNotObject,
            ToolError::ReadFailed { path } => ToolErrorView::ReadFailed { path: path@ },
            ToolError::CreateFailed { path } => ToolErrorView::CreateFailed { path: path@ },
            ToolError::WriteFailed { path } => ToolErrorView::WriteFailed { path: path@ },
            ToolError::EmptyOldText => ToolErrorView::EmptyOldText,
            ToolError::TextNotFound { path } => ToolErrorView::TextNotFound { path: path@ },
            ToolError::TextAmbiguous { count, path } => ToolErrorView::TextAmbiguous {
                count: *count as nat,
                path: path@,
            },
            ToolError::SpawnFailed { command } => ToolErrorView::SpawnFailed { command: command@ },
            ToolError::NoStdout => ToolErrorView::NoStdout,
            ToolError::NoStderr => ToolErrorView::NoStderr,
            ToolError::WaitFailed { command } => ToolErrorView::WaitFailed { command: command@ },
            ToolError::StdoutThreadPanicked => ToolErrorView::StdoutThreadPanicked,
            ToolError::StderrThreadPanicked => ToolErrorView::StderrThreadPanicked,
            ToolError::CaptureLockPoisoned => ToolErrorView::CaptureLockPoisoned,
            ToolError::PipeFailed { error } => ToolErrorView::PipeFailed { error: error@ },
            ToolError::Mcp(error) => ToolErrorView::Mcp(error@),
        }
    }
}

impl ToolErrorView {
    /// The words of an error.
    pub open spec fn message(self) -> Seq<char> {
        match self {
            ToolErrorView::UnknownTool { name } => "unknown tool `"@ + name + "`"@,
            ToolErrorView::InvalidArguments { tool, error } => "invalid arguments for `"@ + tool
                + "`: "@ + error,
            ToolErrorView::McpArgumentsNotJson => "mcp_call arguments must be a JSON object string"@,
            ToolErrorView::McpArgumentsNotObject => "mcp_call arguments must decode to a JSON object"@,
            ToolErrorView::ReadFailed { path } => "failed to read UTF-8 file `"@ + path + "`"@,
            ToolErrorView::CreateFailed { path } => "failed to create `"@ + path + "`"@,
            ToolErrorView::WriteFailed { path } => "failed to write `"@ + path + "`"@,
            ToolErrorView::EmptyOldText => "edit `old` text must not be empty"@,
            ToolErrorView::TextNotFound { path } => "edit text was not found in `"@ + path + "`"@,
            ToolErrorView::TextAmbiguous { count, path } => "edit text matched "@ + digits(count)
                + " times in `"@ + path + "`"@,
            ToolErrorView::SpawnFailed { command } => "failed to spawn command `"@ + command + "`"@,
            ToolErrorView::NoStdout => "failed to capture stdout"@,
            ToolErrorView::NoStderr => "failed to capture stderr"@,
            ToolErrorView::WaitFailed { command } => "failed to wait for command `"@ + command
                + "`"@,
            ToolErrorView::StdoutThreadPanicked => "stdout capture thread panicked"@,
            ToolErrorView::StderrThreadPanicked => "stderr capture thread panicked"@,
            ToolErrorView::CaptureLockPoisoned => "capture lock was poisoned"@,
            ToolErrorView::PipeFailed { error } => error,
            ToolErrorView::Mcp(error) => error.message(),
        }
    }
}

impl ToolError {
    /// The words of the error.
    pub fn message(&self) -> (r: String)
        ensures
            r@ == self@.message(),
    {
        match self {
            ToolError::UnknownTool { name } => around("unknown tool `", name.as_str(), "`"),
            ToolError::InvalidArguments { tool, error } => {
                let mut words = around("invalid arguments for `", tool.as_str(), "`: ");
                words.push_str(error.as_str());
                words
            },
            ToolError::McpArgumentsNotJson => {
                "mcp_call arguments must be a JSON object string".to_owned()
            },
            ToolError::McpArgumentsNotObject => {
                "mcp_call arguments must decode to a JSON object".to_owned()
            },
            ToolError::ReadFailed { path } => around(
                "failed to read UTF-8 file `",
                path.as_str(),
                "`",
            ),
            ToolError::CreateFailed { path } => around("failed to create `", path.as_str(), "`"),
            ToolError::WriteFailed { path } => around("failed to write `", path.as_str(), "`"),
            ToolError::EmptyOldText => "edit `old` text must not be empty".to_owned(),
            ToolError::TextNotFound { path } => around(
                "edit text was not found in `",
                path.as_str(),
                "`",
            ),
            ToolError::TextAmbiguous { count, path } => around_two(
                "edit text matched ",
                decimal(*count as u128).as_str(),
                " times in `",
                path.as_str(),
                "`",
            ),
            ToolError::SpawnFailed { command } => around(
                "failed to spawn command `",
                command.as_str(),
                "`",
            ),
            ToolError::NoStdout => "failed to capture stdout".to_owned(),
            ToolError::NoStderr => "failed to capture stderr".to_owned(),
            ToolError::WaitFailed { command } => around(
                "failed to wait for command `",
                command.as_str(),
                "`",
            ),
            ToolError::StdoutThreadPanicked => "stdout capture thread panicked".to_owned(),
            ToolError::StderrThreadPanicked => "stderr capture thread panicked".to_owned(),
            ToolError::CaptureLockPoisoned => "capture lock was poisoned".to_owned(),
            ToolError::PipeFailed { error } => error.clone(),
            ToolError::Mcp(error) => error.message(),
        }
    }
}

/// The result that reports a failure to the model.
pub open spec fn failure(call: ToolCallView, message: Seq<char>) -> ToolResultView {
    answer(
        call,
        false,
        message,
        JsonView::Object(put(no_entries(), "error"@, JsonView::Text(message))),
    )
}

/// The tools that the agent runs.
#[derive(Debug, Clone, Copy, PartialEq, Eq, Structural)]
pub enum ToolKind {
    Read,
    Write,
    Edit,
    Bash,
    ToolSearch,
    McpCall,
}

/// The tool that a name stands for.
pub open spec fn kind_named(name: Seq<char>) -> Option<ToolKind> {
    if name == "read"@ {
        Some(ToolKind::Read)
    } else if name == "write"@ {
        Some(ToolKind::Write)
    } else if name == "edit"@ {
        Some(ToolKind::Edit)
    } else if name == "bash"@ {
        Some(ToolKind::Bash)
    } else if name == "tool_search"@ {
        Some(ToolKind::ToolSearch)
    } else if name == "mcp_call"@ {
        Some(ToolKind::McpCall)
    } else {
        None
    }
}

/// A parameter of a tool.
#[derive(Debug)]
pub struct Parameter {
    pub name: &'static str,
    pub kind: &'static str,
    pub description: &'static str,
}

/// What a parameter holds.
#[verifier::ext_equal]
pub struct ParameterView {
    pub name: Seq<char>,
    pub kind: Seq<char>,
    pub description: Seq<char>,
}

impl View for Parameter {
    type V = ParameterView;

    open spec fn view(&self) -> ParameterView {
        ParameterView { name: self.name@, kind: self.kind@, description: self.description@ }
    }
}

/// The views of a list of parameters.
pub open spec fn parameter_views(parameters: Seq<Parameter>) -> Seq<ParameterView> {
    parameters.map_values(|p: Parameter| p@)
}

/// The schema of one parameter: its type and what it is for.
pub open spec fn property_schema(p: ParameterView) -> JsonView {
    let e = no_entries();
    let e = put(e, "type"@, JsonView::Text(p.kind));
    let e = put(e, "description"@, JsonView::Text(p.description));
    JsonView::Object(e)
}

/// The schemas of the parameters under their names.
pub open spec fn property_entries(parameters: Seq<ParameterView>) -> Seq<(Seq<char>, JsonView)>
    decreases parameters.len(),
{
    if parameters.len() == 0 {
        no_entries()
    } else {
        put(
            property_entries(parameters.drop_last()),
            parameters.last().name,
            property_schema(parameters.last()),
        )
    }
}

/// The names of the parameters as JSON texts.
pub open spec fn required_names(parameters: Seq<ParameterView>) -> Seq<JsonView> {
    parameters.map_values(|p: ParameterView| JsonView::Text(p.name))
}

/// The schema of a tool's arguments: an object with just these properties, all
/// of them required.
pub open spec fn strict_schema(parameters: Seq<ParameterView>) -> JsonView {
    let e = no_entries();
    let e = put(e, "type"@, JsonView::Text("object"@));
    let e = put(e, "properties"@, JsonView::Object(property_entries(parameters)));
    let e = put(e, "required"@, JsonView::List(required_names(parameters)));
    let e = put(e, "additionalProperties"@, JsonView::Bool(false));
    JsonView::Object(e)
}

/// Makes the schema of a tool's arguments.
pub fn strict_object_schema(parameters: &Vec<Parameter>) -> (r: Json)
    ensures
        r@ == strict_schema(parameter_views(parameters@)),
{
    let ghost all = parameter_views(parameters@);
    let mut properties = JsonObject::new();
    let mut required: Vec<Json> = Vec::new();
    assert(all.take(0) =~= Seq::<ParameterView>::empty());
    for i in 0..parameters.len()
        invariant
            all == parameter_views(parameters@),
            properties@ == property_entries(all.take(i as int)),
            required@.len() == i,
            forall|j: int|
                0 <= j < i ==> (#[trigger] required@[j])@ == JsonView::Text(all[j].name),
    {
        let parameter = &parameters[i];
        proof {
            let upto = all.take(i + 1);
            assert(upto.drop_last() =~= all.take(i as int));
            assert(upto.last() == parameter@);
        }
        properties = properties.with(
            parameter.name,
            Json::Object(
                JsonObject::new().with("type", Json::text(parameter.kind)).with(
                    "description",
                    Json::text(parameter.description),
                ),
            ),
        );
        required.push(Json::text(parameter.name));
    }
    assert(all.take(all.len() as int) =~= all);
    let required_list = Json::List(required);
    proof {
        assert(required_list@->List_0 =~= required_names(all));
    }
    Json::Object(
        JsonObject::new().with("type", Json::text("object")).with(
            "properties",
            Json::Object(properties),
        ).with("required", required_list).with("additionalProperties", Json::Bool(false)),
    )
}

/// A tool before its schema is made.
#[verifier::ext_equal]
pub struct ToolOutline {
    pub name: Seq<char>,
    pub description: Seq<char>,
    pub parameters: Seq<ParameterView>,
}

/// A parameter, given by its parts.
pub open spec fn parameter(name: Seq<char>, kind: Seq<char>, description: Seq<char>) -> ParameterView {
    ParameterView { name, kind, description }
}

/// The agent's tools, in the order in which the model is told of them.
pub open spec fn tool_outlines() -> Seq<ToolOutline> {
    seq![
        ToolOutline {
            name: "read"@,
            description: "Read a UTF-8 text file from disk."@,
            parameters: seq![
                parameter(
                    "path"@,
                    "string"@,
                    "Relative or absolute file path to read."@,
                ),
            ],
        },
        ToolOutline {
            name: "write"@,
            description: "Write full UTF-8 contents to a file."@,
            parameters: seq![
                parameter(
                    "path"@,
                    "string"@,
                    "Relative or absolute file path to write."@,
                ),
                parameter(
                    "contents"@,
                    "string"@,
                    "Complete file contents."@,
                ),
                parameter(
                    "create_dirs"@,
                    "boolean"@,
                    "Create missing parent directories before writing. Use false when parent directories must already exist."@,
                ),
            ],
        },
        ToolOutline {
            name: "edit"@,
            description: "Replace one exact string in a UTF-8 text file."@,
            parameters: seq![
                parameter(
                    "path"@,
                    "string"@,
                    "Relative or absolute file path to edit."@,
                ),
                parameter(
                    "old"@,
                    "string"@,
                    "Exact text to replace. Must occur once."@,
                ),
                parameter(
                    "new"@,
                    "string"@,
                    "Replacement text."@,
                ),
            ],
        },
        ToolOutline {
            name: "bash"@,
            description: "Run a shell command and stream output to the terminal."@,
            parameters: seq![
                parameter(
                    "command"@,
                    "string"@,
                    "Command to run through the shell."@,
                ),
            ],
        },
        ToolOutline {
            name: "tool_search"@,
            description: "Search tools exposed by configured MCP servers."@,
            parameters: seq![
                parameter(
                    "query"@,
                    "string"@,
                    "Words to match against MCP server names, tool names, titles, and descriptions. Use an empty string to list the first tools."@,
                ),
                parameter(
                    "limit"@,
                    "integer"@,
                    "Maximum number of matches to return. Use 10 for the default."@,
                ),
            ],
        },
        ToolOutline {
            name: "mcp_call"@,
            description: "Call a tool exposed by a configured MCP server after finding it with tool_search."@,
            parameters: seq![
                parameter(
                    "server"@,
                    "string"@,
                    "MCP server name returned by tool_search."@,
                ),
                parameter(
                    "tool"@,
                    "string"@,
                    "MCP tool name returned by tool_search."@,
                ),
                parameter(
                    "arguments"@,
                    "string"@,
                    "JSON object string containing arguments for the MCP tool, matching the input_schema returned by tool_search."@,
                ),
            ],
        },
    ]
}

/// A tool with the schema of its arguments.
pub open spec fn defined(outline: ToolOutline) -> ToolDefinitionView {
    ToolDefinitionView {
        name: outline.name,
        description: outline.description,
        parameters: strict_schema(outline.parameters),
    }
}

/// The definitions of the agent's tools.
pub open spec fn tool_definitions() -> Seq<ToolDefinitionView> {
    tool_outlines().map_values(|outline: ToolOutline| defined(outline))
}

fn define(name: &str, description: &str, parameters: Vec<Parameter>) -> (r: ToolDefinition)
    ensures
        r@ == defined(
            (ToolOutline {
                name: name@,
                description: description@,
                parameters: parameter_views(parameters@),
            }),
        ),
{
    ToolDefinition {
        name: name.to_owned(),
        description: description.to_owned(),
        parameters: strict_object_schema(&parameters),
    }
}

/// The agent's tools, rooted in a workspace.
#[derive(Debug)]
pub struct ToolRegistry {
    workspace_root: String,
    mcp: McpRegistry,
}

impl ToolRegistry {
    /// The workspace root.
    pub closed spec fn root(&self) -> Seq<char> {
        self.workspace_root@
    }

    /// What the MCP registry holds.
    pub closed spec fn registry(&self) -> McpRegistryView {
        self.mcp@
    }

    /// Tools without MCP servers.
    pub fn new(workspace_root: String) -> (r: ToolRegistry)
        ensures
            r.root() == workspace_root@,
            r.registry() == (McpRegistryView { servers: Seq::empty(), tools: Seq::empty() }),
    {
        ToolRegistry { workspace_root, mcp: McpRegistry::empty() }
    }

    /// Tools with the servers of a registry.
    pub fn with_mcp(workspace_root: String, mcp: McpRegistry) -> (r: ToolRegistry)
        ensures
            r.root() == workspace_root@,
            r.registry() == mcp@,
    {
        ToolRegistry { workspace_root, mcp }
    }

    /// The workspace root.
    pub fn workspace_root(&self) -> (r: &str)
        ensures
            r@ == self.root(),
    {
        self.workspace_root.as_str()
    }

    /// The MCP registry.
    pub fn mcp(&self) -> (r: &McpRegistry)
        ensures
            r@ == self.registry(),
    {
        &self.mcp
    }

    /// The definitions of the agent's tools.
    pub fn definitions(&self) -> (r: Vec<ToolDefinition>)
        ensures
            definition_views(r@) == tool_definitions(),
    {
        let read_parameters: Vec<Parameter> = vec![
            Parameter {
                name: "path",
                kind: "string",
                description: "Relative or absolute file path to read.",
            },
        ];
        let write_parameters: Vec<Parameter> = vec![
            Parameter {
                name: "path",
                kind: "string",
                description: "Relative or absolute file path to write.",
            },
            Parameter {
                name: "contents",
                kind: "string",
                description: "Complete file contents.",
            },
            Parameter {
                name: "create_dirs",
                kind: "boolean",
                description: "Create missing parent directories before writing. Use false when parent directories must already exist.",
            },
        ];
        let edit_parameters: Vec<Parameter> = vec![
            Parameter {
                name: "path",
                kind: "string",
                description: "Relative or absolute file path to edit.",
            },
            Parameter {
                name: "old",
                kind: "string",
                description: "Exact text to replace. Must occur once.",
            },
            Parameter {
                name: "new",
                kind: "string",
                description: "Replacement text.",
            },
        ];
        let bash_parameters: Vec<Parameter> = vec![
            Parameter {
                name: "command",
                kind: "string",
                description: "Command to run through the shell.",
            },
        ];
        let tool_search_parameters: Vec<Parameter> = vec![
            Parameter {
                name: "query",
                kind: "string",
                description: "Words to match against MCP server names, tool names, titles, and descriptions. Use an empty string to list the first tools.",
            },
            Parameter {
                name: "limit",
                kind: "integer",
                description: "Maximum number of matches to return. Use 10 for the default.",
            },
        ];
        let mcp_call_parameters: Vec<Parameter> = vec![
            Parameter {
                name: "server",
                kind: "string",
                description: "MCP server name returned by tool_search.",
            },
            Parameter {
                name: "tool",
                kind: "string",
                description: "MCP tool name returned by tool_search.",
            },
            Parameter {
                name: "arguments",
                kind: "string",
                description: "JSON object string containing arguments for the MCP tool, matching the input_schema returned by tool_search.",
            },
        ];
        proof {
            let outlines = tool_outlines();
            assert(parameter_views(read_parameters@) =~= outlines[0].parameters);
            assert(parameter_views(write_parameters@) =~= outlines[1].parameters);
            assert(parameter_views(edit_parameters@) =~= outlines[2].parameters);
            assert(parameter_views(bash_parameters@) =~= outlines[3].parameters);
            assert(parameter_views(tool_search_parameters@) =~= outlines[4].parameters);
            assert(parameter_views(mcp_call_parameters@) =~= outlines[5].parameters);
        }
        let tools: Vec<ToolDefinition> = vec![
            define("read", "Read a UTF-8 text file from disk.", read_parameters),
            define("write", "Write full UTF-8 contents to a file.", write_parameters),
            define("edit", "Replace one exact string in a UTF-8 text file.", edit_parameters),
            define("bash", "Run a shell command and stream output to the terminal.", bash_parameters),
            define(
                "tool_search",
                "Search tools exposed by configured MCP servers.",
                tool_search_parameters,
            ),
            define(
                "mcp_call",
                "Call a tool exposed by a configured MCP server after finding it with tool_search.",
                mcp_call_parameters,
            ),
        ];
        assert(definition_views(tools@) =~= tool_definitions());
        tools
    }

    /// The tool that a call asks for.
    pub fn dispatch(&self, call: &ToolCall) -> (r: Result<ToolKind, ToolError>)
        ensures
            match kind_named(call.name@) {
                Some(kind) => r matches Ok(k) && k == kind,
                None => r matches Err(error) && error@ == (ToolErrorView::UnknownTool {
                    name: call.name@,
                }),
            },
    {
        let name = call.name.as_str();
        if same(name, "read") {
            Ok(ToolKind::Read)
        } else if same(name, "write") {
            Ok(ToolKind::Write)
        } else if same(name, "edit") {
            Ok(ToolKind::Edit)
        } else if same(name, "bash") {
            Ok(ToolKind::Bash)
        } else if same(name, "tool_search") {
            Ok(ToolKind::ToolSearch)
        } else if same(name, "mcp_call") {
            Ok(ToolKind::McpCall)
        } else {
            Err(ToolError::UnknownTool { name: call.name.clone() })
        }
    }

    /// What the model is told of a call that was run: the tool's result, or the
    /// words of the error in a result that answers the call.
    pub fn execute(&self, call: &ToolCall, outcome: Result<ToolResult, ToolError>) -> (r: ToolResult)
        ensures
            match outcome {
                Ok(result) => r == result,
                Err(error) => r@ == failure(call@, error@.message()),
            },
            (outcome matches Ok(result) ==> answers_call(result@, call@)) ==> answers_call(
                r@,
                call@,
            ),
    {
        match outcome {
            Ok(result) => result,
            Err(error) => {
                let message = error.message();
                let data = Json::Object(
                    JsonObject::new().with("error", Json::text(message.as_str())),
                );
                answer_call(call, false, message, data)
            },
        }
    }

    /// Searches the tools of the MCP servers.
    pub fn search_mcp_tools(&self, call: &ToolCall, query: &str, limit: Option<usize>) -> (r:
        ToolResult)
        requires
            100 * words(query@).len() <= u64::MAX,
        ensures
            ({
                let data = search_json(search_result(self.registry().tools, query@, limit));
                r@ == answer(call@, true, json_print(data), data)
            }),
    {
        let data = self.mcp.search(query, limit).to_json();
        answer_call(call, true, data.to_text(), data)
    }

    /// Reports the reply of an MCP tool.
    pub fn call_mcp_tool(&self, call: &ToolCall, output: McpCallOutput) -> (r: ToolResult)
        ensures
            r@ == answer(call@, output@.ok, output@.content, output@.data),
    {
        answer_call(call, output.ok, output.content, output.data)
    }
}

/// What the arguments of an MCP call are once they are known to be an object.
pub open spec fn object_required(arguments: JsonView) -> Result<JsonView, ToolErrorView> {
    if arguments is Object {
        Ok(arguments)
    } else {
        Err(ToolErrorView::McpArgumentsNotObject)
    }
}

/// What the arguments of an MCP call decode to: an object, written as such or
/// as the text of one.
pub open spec fn mcp_arguments(arguments: JsonView) -> Result<JsonView, ToolErrorView> {
    match arguments {
        JsonView::Text(text) => match json_read(text) {
            Ok(value) => object_required(value),
            Err(_) => Err(ToolErrorView::McpArgumentsNotJson),
        },
        _ => object_required(arguments),
    }
}

/// Lets an object pass.
pub fn require_object(arguments: Json) -> (r: Result<Json, ToolError>)
    ensures
        object_required(arguments@) == (match r {
            Ok(value) => Ok::<JsonView, ToolErrorView>(value@),
            Err(error) => Err(error@),
        }),
{
    if !arguments.is_object() {
        return Err(ToolError::McpArgumentsNotObject);
    }
    Ok(arguments)
}

/// Decodes the arguments of an MCP call.
pub fn parse_mcp_arguments(arguments: Json) -> (r: Result<Json, ToolError>)
    ensures
        mcp_arguments(arguments@) == (match r {
            Ok(value) => Ok::<JsonView, ToolErrorView>(value@),
            Err(error) => Err(error@),
        }),
{
    match arguments {
        Json::Text(text) => match Json::parse(text.as_str()) {
            Ok(value) => require_object(value),
            Err(_) => Err(ToolError::McpArgumentsNotJson),
        },
        other => require_object(other),
    }
}

proof fn lemma_properties_are_the_parameters(parameters: Seq<ParameterView>, name: Seq<char>)
    ensures
        lookup(property_entries(parameters), name) is Some <==> exists|i: int|
            0 <= i < parameters.len() && (#[trigger] parameters[i]).name == name,
        lookup(property_entries(parameters), name) matches Some(schema) ==> exists|i: int|
            0 <= i < parameters.len() && (#[trigger] parameters[i]).name == name && schema
                == property_schema(parameters[i]),
    decreases parameters.len(),
{
    if parameters.len() > 0 {
        let front = parameters.drop_last();
        let last = parameters.last();
        lemma_properties_are_the_parameters(front, name);
        lookup_after_put(property_entries(front), last.name, property_schema(last), name);
        assert(parameters[parameters.len() - 1] == last);
        assert(forall|i: int| 0 <= i < front.len() ==> (#[trigger] front[i]) == parameters[i]);
        assert(forall|i: int|
            0 <= i < parameters.len() - 1 ==> (#[trigger] parameters[i]) == front[i]);
    }
}

/// Whether a schema, where there is one, names a single type.
pub open spec fn has_one_type(schema: Option<JsonView>) -> bool {
    schema matches Some(value) ==> value.get("type"@) matches Some(JsonView::Text(_))
}

/// Whether a schema is that of an object which takes its properties and no
/// others, requires each of them, and gives each a single type.
pub open spec fn is_strict(schema: JsonView) -> bool {
    &&& schema.get("type"@) == Some(JsonView::Text("object"@))
    &&& schema.get("additionalProperties"@) == Some(JsonView::Bool(false))
    &&& schema.get("properties"@) matches Some(JsonView::Object(properties))
    &&& schema.get("required"@) matches Some(JsonView::List(required))
    &&& forall|name: Seq<char>|
        lookup(properties, name) is Some <==> #[trigger] required.contains(JsonView::Text(name))
    &&& forall|name: Seq<char>| has_one_type(#[trigger] lookup(properties, name))
}

/// A schema made for a list of parameters is strict.
pub proof fn made_schema_is_strict(parameters: Seq<ParameterView>)
    ensures
        is_strict(strict_schema(parameters)),
{
    reveal_strlit("type");
    reveal_strlit("properties");
    reveal_strlit("required");
    reveal_strlit("additionalProperties");
    reveal_strlit("description");
    let t = JsonView::Text("object"@);
    let p = JsonView::Object(property_entries(parameters));
    let q = JsonView::List(required_names(parameters));
    let f = JsonView::Bool(false);
    let e1 = put(no_entries(), "type"@, t);
    let e2 = put(e1, "properties"@, p);
    let e3 = put(e2, "required"@, q);
    lookup_after_put(no_entries(), "type"@, t, "type"@);
    lookup_after_put(e1, "properties"@, p, "type"@);
    lookup_after_put(e1, "properties"@, p, "properties"@);
    lookup_after_put(e2, "required"@, q, "type"@);
    lookup_after_put(e2, "required"@, q, "properties"@);
    lookup_after_put(e2, "required"@, q, "required"@);
    lookup_after_put(e3, "additionalProperties"@, f, "type"@);
    lookup_after_put(e3, "additionalProperties"@, f, "properties"@);
    lookup_after_put(e3, "additionalProperties"@, f, "required"@);
    lookup_after_put(e3, "additionalProperties"@, f, "additionalProperties"@);
    let required = required_names(parameters);
    let properties = property_entries(parameters);
    assert forall|name: Seq<char>|
        lookup(properties, name) is Some <==> #[trigger] required.contains(
            JsonView::Text(name),
        ) by {
        lemma_properties_are_the_parameters(parameters, name);
        if lookup(properties, name) is Some {
            let i = choose|i: int|
                0 <= i < parameters.len() && (#[trigger] parameters[i]).name == name;
            assert(required[i] == JsonView::Text(name));
        }
        if required.contains(JsonView::Text(name)) {
            let i = choose|i: int| 0 <= i < required.len() && required[i] == JsonView::Text(name);
            assert(parameters[i].name == name);
        }
    }
    assert forall|name: Seq<char>| has_one_type(#[trigger] lookup(properties, name)) by {
        lemma_properties_are_the_parameters(parameters, name);
        if lookup(properties, name) is Some {
            let schema = lookup(properties, name)->Some_0;
            let i = choose|i: int|
                0 <= i < parameters.len() && (#[trigger] parameters[i]).name == name && schema
                    == property_schema(parameters[i]);
            let kind = JsonView::Text(parameters[i].kind);
            lookup_after_put(no_entries(), "type"@, kind, "type"@);
            lookup_after_put(
                put(no_entries(), "type"@, kind),
                "description"@,
                JsonView::Text(parameters[i].description),
                "type"@,
            );
        }
    }
}

/// Each tool that the model is told of has a strict schema and is one that the
/// agent runs.
pub proof fn definitions_are_strict_and_known(i: int)
    requires
        0 <= i < tool_definitions().len(),
    ensures
        is_strict(tool_definitions()[i].parameters),
        kind_named(tool_definitions()[i].name) is Some,
{
    made_schema_is_strict(tool_outlines()[i].parameters);
}

/// What a tool gives for a call answers that call, and so does the report of an
/// error.
pub proof fn results_answer_their_call(
    call: ToolCallView,
    ok: bool,
    content: Seq<char>,
    data: JsonView,
)
    ensures
        answers_call(answer(call, ok, content, data), call),
        answers_call(failure(call, content), call),
{
}

/// A call of a tool that the agent does not have is answered: the result carries
/// the call's identifier and name, is marked as failed, and names the tool.
pub proof fn unknown_tools_are_answered(call: ToolCallView)
    requires
        kind_named(call.name) is None,
    ensures
        ({
            let answer = failure(call, (ToolErrorView::UnknownTool { name: call.name }).message());
            &&& !answer.ok
            &&& answer.call_id == call.call_id
            &&& answer.name == call.name
            &&& answer.content == "unknown tool `"@ + call.name + "`"@
            &&& answer.data.get("error"@) == Some(JsonView::Text(answer.content))
        }),
{
    let message = (ToolErrorView::UnknownTool { name: call.name }).message();
    lookup_after_put(no_entries(), "error"@, JsonView::Text(message), "error"@);
}

/// A call is recorded with all that it holds: its identifier, its name, its
/// arguments, and the item's identifier where there is one; a list of calls is
/// recorded call by call.
pub proof fn calls_are_recorded_whole(call: ToolCallView, calls: Seq<ToolCallView>)
    ensures
        ({
            let record = tool_call_json(call);
            &&& record.get("call_id"@) == Some(JsonView::Text(call.call_id))
            &&& record.get("name"@) == Some(JsonView::Text(call.name))
            &&& record.get("arguments"@) == Some(call.arguments)
            &&& record.get("item_id"@) == (match call.item_id {
                Some(id) => Some(JsonView::Text(id)),
                None => None,
            })
            &&& record->Object_0.len() == if call.item_id is Some {
                4int
            } else {
                3
            }
        }),
        tool_calls_json(calls) matches JsonView::List(records) && records.len() == calls.len()
            && forall|i: int|
            0 <= i < calls.len() ==> #[trigger] records[i] == tool_call_json(calls[i]),
{
    broadcast use lookup_of_put, len_of_put;

    reveal_strlit("call_id");
    reveal_strlit("name");
    reveal_strlit("arguments");
    reveal_strlit("item_id");
    assert("call_id"@[0] == 'c' && "item_id"@[0] == 'i');
}

/// A result is recorded with all that it holds: the identifier and the name of its
/// call, whether it is a success, its text and its data.
pub proof fn results_are_recorded_whole(result: ToolResultView)
    ensures
        ({
            let record = tool_result_json(result);
            &&& record.get("call_id"@) == Some(JsonView::Text(result.call_id))
            &&& record.get("name"@) == Some(JsonView::Text(result.name))
            &&& record.get("ok"@) == Some(JsonView::Bool(result.ok))
            &&& record.get("content"@) == Some(JsonView::Text(result.content))
            &&& record.get("data"@) == Some(result.data)
            &&& record->Object_0.len() == 5
        }),
{
    broadcast use lookup_of_put, len_of_put;

    reveal_strlit("call_id");
    reveal_strlit("name");
    reveal_strlit("ok");
    reveal_strlit("content");
    reveal_strlit("data");
    assert("call_id"@[1] == 'a' && "content"@[1] == 'o');
    assert("name"@[0] == 'n' && "data"@[0] == 'd');
}

/// A result holds what the tool gave for the call; the report of an error is no
/// success, says what went wrong, and says it in its data too.
pub proof fn results_hold_what_was_given(
    call: ToolCallView,
    ok: bool,
    content: Seq<char>,
    data: JsonView,
)
    ensures
        ({
            let result = answer(call, ok, content, data);
            &&& result.call_id == call.call_id
            &&& result.name == call.name
            &&& result.ok == ok
            &&& result.content == content
            &&& result.data == data
        }),
        ({
            let report = failure(call, content);
            &&& report.call_id == call.call_id
            &&& report.name == call.name
            &&& !report.ok
            &&& report.content == content
            &&& report.data.get("error"@) == Some(JsonView::Text(content))
            &&& report.data->Object_0.len() == 1
        }),
{
    broadcast use lookup_of_put;

    assert(put(no_entries(), "error"@, JsonView::Text(content)).len() == 1);
}

/// A path below the root is the root, one slash where the root does not end in
/// one, and the path; an absolute path is itself.
pub proof fn resolved_path_ends_in_the_path(root: Seq<char>, path: Seq<char>)
    ensures
        path.len() > 0 && path[0] == '/' ==> resolved(root, path) == path,
        !(path.len() > 0 && path[0] == '/') ==> {
            let whole = resolved(root, path);
            let from = whole.len() - path.len();
            &&& from >= root.len()
            &&& whole.take(root.len() as int) == root
            &&& whole.skip(from) == path
            &&& from == root.len() <==> root.len() == 0 || root.last() == '/'
            &&& from > root.len() ==> from == root.len() + 1 && whole[root.len() as int] == '/'
        },
{
    if !(path.len() > 0 && path[0] == '/') {
        let whole = resolved(root, path);
        let from = whole.len() - path.len();
        assert(whole.take(root.len() as int) =~= root);
        assert(whole.skip(from) =~= path);
    }
}

proof fn lemma_property_of(parameters: Seq<ParameterView>, i: int)
    requires
        0 <= i < parameters.len(),
        forall|j: int|
            0 <= j < parameters.len() && j != i ==> (#[trigger] parameters[j]).name
                != parameters[i].name,
    ensures
        lookup(property_entries(parameters), parameters[i].name) matches Some(schema)
            && schema.get("type"@) == Some(JsonView::Text(parameters[i].kind)) && schema.get(
            "description"@,
        ) == Some(JsonView::Text(parameters[i].description)),
    decreases parameters.len(),
{
    broadcast use lookup_of_put;

    reveal_strlit("type");
    reveal_strlit("description");
    assert("type"@.len() == 4 && "description"@.len() == 11);
    let front = parameters.drop_last();
    if i < front.len() {
        assert forall|j: int| 0 <= j < front.len() && j != i implies (#[trigger] front[j]).name
            != front[i].name by {
            assert(front[j] == parameters[j]);
        }
        lemma_property_of(front, i);
        assert(parameters[parameters.len() - 1].name != parameters[i].name);
    }
}

/// The schema of a tool tells each of its parameters, where their names differ:
/// its type and what it is for under its name, and its name among those that are
/// required, in their order.
pub proof fn schemas_tell_each_parameter(parameters: Seq<ParameterView>, i: int)
    requires
        0 <= i < parameters.len(),
        forall|j: int|
            0 <= j < parameters.len() && j != i ==> (#[trigger] parameters[j]).name
                != parameters[i].name,
    ensures
        strict_schema(parameters).get("properties"@) matches Some(properties) && (properties.get(
            parameters[i].name,
        ) matches Some(schema) && schema.get("type"@) == Some(JsonView::Text(parameters[i].kind))
            && schema.get("description"@) == Some(JsonView::Text(parameters[i].description))),
        strict_schema(parameters).get("required"@) matches Some(JsonView::List(names))
            && names.len() == parameters.len() && names[i] == JsonView::Text(parameters[i].name),
        strict_schema(parameters)->Object_0.len() == 4,
{
    broadcast use lookup_of_put, len_of_put;

    reveal_strlit("type");
    reveal_strlit("properties");
    reveal_strlit("required");
    reveal_strlit("additionalProperties");
    assert("type"@.len() == 4 && "properties"@.len() == 10 && "required"@.len() == 8
        && "additionalProperties"@.len() == 20);
    lemma_property_of(parameters, i);
}

/// A name stands for one tool at most, and no two names for the same.
pub proof fn names_tell_tools_apart(a: Seq<char>, b: Seq<char>)
    ensures
        kind_named(a) is Some && kind_named(a) == kind_named(b) ==> a == b,
{
}

/// The arguments of an MCP call are always an object. One that is written as such
/// is passed on as it is, one that is written as a text is what the text reads
/// as, and anything else is refused.
pub proof fn mcp_arguments_are_an_object(arguments: JsonView)
    ensures
        mcp_arguments(arguments) matches Ok(value) ==> value is Object,
        arguments is Object ==> mcp_arguments(arguments) == Ok::<JsonView, ToolErrorView>(
            arguments,
        ),
        arguments matches JsonView::Text(text) ==> (json_read(text) matches Ok(value) ==> (value
            is Object ==> mcp_arguments(arguments) == Ok::<JsonView, ToolErrorView>(value))),
        arguments matches JsonView::Text(text) && json_read(text) is Err ==> mcp_arguments(
            arguments,
        ) == Err::<JsonView, ToolErrorView>(ToolErrorView::McpArgumentsNotJson),
        mcp_arguments(arguments) is Err ==> !(arguments is Object),
        !(arguments is Object) && !(arguments is Text) ==> mcp_arguments(arguments) is Err,
{
}

/// What an error is about, as far as it says.
pub open spec fn subjects(error: ToolErrorView) -> Seq<Seq<char>> {
    match error {
        ToolErrorView::UnknownTool { name } => seq![name],
        ToolErrorView::InvalidArguments { tool, error } => seq![tool, error],
        ToolErrorView::ReadFailed { path } => seq![path, "read"@],
        ToolErrorView::CreateFailed { path } => seq![path, "create"@],
        ToolErrorView::WriteFailed { path } => seq![path, "write"@],
        ToolErrorView::TextNotFound { path } => seq![path, "not found"@],
        ToolErrorView::TextAmbiguous { count, path } => seq![path, digits(count)],
        ToolErrorView::SpawnFailed { command } => seq![command, "spawn"@],
        ToolErrorView::WaitFailed { command } => seq![command, "wait"@],
        ToolErrorView::PipeFailed { error } => seq![error],
        _ => Seq::empty(),
    }
}

proof fn lemma_prefix_word(lead: Seq<char>, word: Seq<char>, rest: Seq<char>, end: Seq<char>, at: int)
    requires
        0 <= at,
        at + word.len() <= lead.len(),
        lead.subrange(at, at + word.len()) == word,
    ensures
        occurs(lead + rest + end, word),
{
    assert((lead + rest + end).subrange(at, at + word.len()) =~= lead.subrange(
        at,
        at + word.len(),
    ));
    assert(occurs_at(lead + rest + end, word, at));
}

/// The words of an error name what the error is about: the tool, the path, the
/// command, and what could not be done with it.
pub proof fn errors_name_their_subject(error: ToolErrorView, i: int)
    requires
        0 <= i < subjects(error).len(),
    ensures
        occurs(error.message(), subjects(error)[i]),
{
    match error {
        ToolErrorView::UnknownTool { name } => middle_occurs("unknown tool `"@, name, "`"@),
        ToolErrorView::InvalidArguments { tool, error: words } => {
            let lead = "invalid arguments for `"@;
            middle_occurs(lead, tool, "`: "@ + words);
            middle_occurs(lead + tool + "`: "@, words, Seq::empty());
            assert(lead + tool + ("`: "@ + words) =~= lead + tool + "`: "@ + words);
        },
        ToolErrorView::ReadFailed { path } => {
            let lead = "failed to read UTF-8 file `"@;
            middle_occurs(lead, path, "`"@);
            reveal_strlit("failed to read UTF-8 file `");
            reveal_strlit("read");
            assert(lead.subrange(10, 14) =~= "read"@);
            lemma_prefix_word(lead, "read"@, path, "`"@, 10);
        },
        ToolErrorView::CreateFailed { path } => {
            let lead = "failed to create `"@;
            middle_occurs(lead, path, "`"@);
            reveal_strlit("failed to create `");
            reveal_strlit("create");
            assert(lead.subrange(10, 16) =~= "create"@);
            lemma_prefix_word(lead, "create"@, path, "`"@, 10);
        },
        ToolErrorView::WriteFailed { path } => {
            let lead = "failed to write `"@;
            middle_occurs(lead, path, "`"@);
            reveal_strlit("failed to write `");
            reveal_strlit("write");
            assert(lead.subrange(10, 15) =~= "write"@);
            lemma_prefix_word(lead, "write"@, path, "`"@, 10);
        },
        ToolErrorView::TextNotFound { path } => {
            let lead = "edit text was not found in `"@;
            middle_occurs(lead, path, "`"@);
            reveal_strlit("edit text was not found in `");
            reveal_strlit("not found");
            assert(lead.subrange(14, 23) =~= "not found"@);
            lemma_prefix_word(lead, "not found"@, path, "`"@, 14);
        },
        ToolErrorView::TextAmbiguous { count, path } => {
            let lead = "edit text matched "@;
            let between = " times in `"@;
            middle_occurs(lead + digits(count) + between, path, "`"@);
            middle_occurs(lead, digits(count), between + path + "`"@);
            assert(lead + digits(count) + (between + path + "`"@) =~= lead + digits(count)
                + between + path + "`"@);
        },
        ToolErrorView::SpawnFailed { command } => {
            let lead = "failed to spawn command `"@;
            middle_occurs(lead, command, "`"@);
            reveal_strlit("failed to spawn command `");
            reveal_strlit("spawn");
            assert(lead.subrange(10, 15) =~= "spawn"@);
            lemma_prefix_word(lead, "spawn"@, command, "`"@, 10);
        },
        ToolErrorView::WaitFailed { command } => {
            let lead = "failed to wait for command `"@;
            middle_occurs(lead, command, "`"@);
            reveal_strlit("failed to wait for command `");
            reveal_strlit("wait");
            assert(lead.subrange(10, 14) =~= "wait"@);
            lemma_prefix_word(lead, "wait"@, command, "`"@, 10);
        },
        ToolErrorView::PipeFailed { error: words } => {
            middle_occurs(Seq::empty(), words, Seq::empty());
            assert(Seq::<char>::empty() + words =~= words);
        },
        _ => {},
    }
}

/// A result answers a call exactly where it carries the call's identifier and the
/// call's name.
pub proof fn answers_carry_identifier_and_name(result: ToolResultView, call: ToolCallView)
    ensures
        answers_call(result, call) <==> result.call_id == call.call_id && result.name == call.name,
{
}

/// The names under which a tool's schema requires its parameters.
pub open spec fn names_required(definition: ToolDefinitionView) -> Seq<JsonView> {
    match definition.parameters.get("required"@) {
        Some(JsonView::List(names)) => names,
        _ => Seq::empty(),
    }
}

/// The parameters that the model must give each of the tools, in their order.
pub open spec fn parameters_of(kind: ToolKind) -> Seq<Seq<char>> {
    match kind {
        ToolKind::Read => seq!["path"@],
        ToolKind::Write => seq!["path"@, "contents"@, "create_dirs"@],
        ToolKind::Edit => seq!["path"@, "old"@, "new"@],
        ToolKind::Bash => seq!["command"@],
        ToolKind::ToolSearch => seq!["query"@, "limit"@],
        ToolKind::McpCall => seq!["server"@, "tool"@, "arguments"@],
    }
}

/// The name by which the model calls each of the tools.
pub open spec fn name_of(kind: ToolKind) -> Seq<char> {
    match kind {
        ToolKind::Read => "read"@,
        ToolKind::Write => "write"@,
        ToolKind::Edit => "edit"@,
        ToolKind::Bash => "bash"@,
        ToolKind::ToolSearch => "tool_search"@,
        ToolKind::McpCall => "mcp_call"@,
    }
}

proof fn lemma_tool_names_differ()
    ensures
        kind_named("read"@) == Some(ToolKind::Read),
        kind_named("write"@) == Some(ToolKind::Write),
        kind_named("edit"@) == Some(ToolKind::Edit),
        kind_named("bash"@) == Some(ToolKind::Bash),
        kind_named("tool_search"@) == Some(ToolKind::ToolSearch),
        kind_named("mcp_call"@) == Some(ToolKind::McpCall),
{
    reveal_strlit("read");
    reveal_strlit("write");
    reveal_strlit("edit");
    reveal_strlit("bash");
    reveal_strlit("tool_search");
    reveal_strlit("mcp_call");
    assert("read"@.len() == 4 && "write"@.len() == 5 && "edit"@.len() == 4 && "bash"@.len() == 4
        && "tool_search"@.len() == 11 && "mcp_call"@.len() == 8);
    assert("read"@[0] == 'r' && "edit"@[0] == 'e' && "bash"@[0] == 'b');
}

/// Each of the tools is called by its name, and by no other.
pub proof fn tools_are_called_by_their_name(kind: ToolKind, name: Seq<char>)
    ensures
        kind_named(name) == Some(kind) <==> name == name_of(kind),
{
    lemma_tool_names_differ();
}

/// Each of the tools is among those that the model is told of, under its name, and
/// its schema requires the parameters that the tool takes.
pub proof fn every_tool_is_offered(kind: ToolKind)
    ensures
        exists|i: int|
            0 <= i < tool_definitions().len() && (#[trigger] tool_definitions()[i]).name == name_of(
                kind,
            ) && names_required(tool_definitions()[i]).len() == parameters_of(kind).len() && forall|
                k: int,
            |
                0 <= k < parameters_of(kind).len() ==> #[trigger] names_required(
                    tool_definitions()[i],
                )[k] == JsonView::Text(parameters_of(kind)[k]),
{
    broadcast use lookup_of_put;

    reveal_strlit("type");
    reveal_strlit("properties");
    reveal_strlit("required");
    reveal_strlit("additionalProperties");
    assert("type"@.len() == 4 && "properties"@.len() == 10 && "required"@.len() == 8
        && "additionalProperties"@.len() == 20);
    let i: int = match kind {
        ToolKind::Read => 0,
        ToolKind::Write => 1,
        ToolKind::Edit => 2,
        ToolKind::Bash => 3,
        ToolKind::ToolSearch => 4,
        ToolKind::McpCall => 5,
    };
    let outline = tool_outlines()[i];
    let definition = tool_definitions()[i];
    assert(definition.name == name_of(kind));
    assert(definition.parameters == strict_schema(outline.parameters));
    assert(names_required(definition) == required_names(outline.parameters));
    assert forall|k: int| 0 <= k < parameters_of(kind).len() implies #[trigger] names_required(
        definition,
    )[k] == JsonView::Text(parameters_of(kind)[k]) by {
        assert(k == 0 || k == 1 || k == 2);
        assert(outline.parameters[k].name == parameters_of(kind)[k]);
    }
}

/// What a call, a result and a definition hold is what their fields hold, each by
/// itself.
pub proof fn calls_and_results_hold_their_fields(
    call: ToolCall,
    result: ToolResult,
    definition: ToolDefinition,
)
    ensures
        call@.call_id == call.call_id@,
        call.item_id matches Some(id) ==> call@.item_id == Some(id@),
        call.item_id is None ==> call@.item_id is None,
        call@.name == call.name@,
        call@.arguments == call.arguments@,
        result@.call_id == result.call_id@,
        result@.name == result.name@,
        result@.ok == result.ok,
        result@.content == result.content@,
        result@.data == result.data@,
        definition@.name == definition.name@,
        definition@.description == definition.description@,
        definition@.parameters == definition.parameters@,
{
}

/// The type of what the model must give for a parameter.
pub open spec fn type_of(parameter: Seq<char>) -> Seq<char> {
    if parameter == "create_dirs"@ {
        "boolean"@
    } else if parameter == "limit"@ {
        "integer"@
    } else {
        "string"@
    }
}

/// Every tool that the model is told of takes texts, but for the one switch and the
/// one number among their parameters.
pub proof fn parameters_have_their_type(i: int, k: int)
    requires
        0 <= i < tool_outlines().len(),
        0 <= k < tool_outlines()[i].parameters.len(),
    ensures
        ({
            let name = tool_outlines()[i].parameters[k].name;
            tool_definitions()[i].parameters.get("properties"@) matches Some(properties) && (
            properties.get(name) matches Some(schema) && schema.get("type"@) == Some(
                JsonView::Text(type_of(name)),
            ))
        }),
{
    reveal_strlit("path");
    reveal_strlit("contents");
    reveal_strlit("create_dirs");
    reveal_strlit("old");
    reveal_strlit("new");
    reveal_strlit("command");
    reveal_strlit("query");
    reveal_strlit("limit");
    reveal_strlit("server");
    reveal_strlit("tool");
    reveal_strlit("arguments");
    assert("path"@.len() == 4 && "contents"@.len() == 8 && "create_dirs"@.len() == 11
        && "old"@.len() == 3 && "new"@.len() == 3 && "command"@.len() == 7 && "query"@.len() == 5
        && "limit"@.len() == 5 && "server"@.len() == 6 && "tool"@.len() == 4
        && "arguments"@.len() == 9);
    assert("old"@[0] == 'o' && "new"@[0] == 'n' && "query"@[0] == 'q' && "limit"@[0] == 'l');
    let parameters = tool_outlines()[i].parameters;
    assert(i == 0 || i == 1 || i == 2 || i == 3 || i == 4 || i == 5);
    assert(k == 0 || k == 1 || k == 2);
    assert forall|j: int| 0 <= j < parameters.len() && j != k implies (
    #[trigger] parameters[j]).name != parameters[k].name by {
        assert(j == 0 || j == 1 || j == 2);
    }
    schemas_tell_each_parameter(parameters, k);
    assert(tool_definitions()[i].parameters == strict_schema(parameters));
    assert(parameters[k].kind == type_of(parameters[k].name));
}

} // verus!
