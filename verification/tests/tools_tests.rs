use std::collections::BTreeSet;

use ferrix::json::Json;
use ferrix::mcp::McpCallOutput;
use ferrix::mcp::McpError;
use ferrix::mcp::McpRegistry;
use ferrix::mcp::McpTool;
use ferrix::mcp::McpToolEntry;
use ferrix::tools::bash::finish_capture;
use ferrix::tools::bash::run_command;
use ferrix::tools::bash::shell_program;
use ferrix::tools::bash::Capture;
use ferrix::tools::bash::CapturedText;
use ferrix::tools::bash::MAX_CAPTURE_BYTES;
use ferrix::tools::fs::check_edit;
use ferrix::tools::fs::edit_contents;
use ferrix::tools::fs::edit_file;
use ferrix::tools::fs::makes_directories;
use ferrix::tools::fs::read_file;
use ferrix::tools::fs::write_file;
use ferrix::tools::fs::WriteOutcome;
use ferrix::tools::parse_mcp_arguments;
use ferrix::tools::require_object;
use ferrix::tools::resolve_path;
use ferrix::tools::ToolCall;
use ferrix::tools::ToolError;
use ferrix::tools::ToolKind;
use ferrix::tools::ToolRegistry;
use serde_json::Value;

fn json(text: &str) -> Json {
    Json::parse(text).expect("json")
}

fn call(name: &str) -> ToolCall {
    ToolCall {
        call_id: "call_1".to_string(),
        item_id: None,
        name: name.to_string(),
        arguments: json("{}"),
    }
}

#[test]
fn tool_definitions_are_strict_schema_compatible() {
    let tools = ToolRegistry::new("/tmp".to_string()).definitions();
    assert_eq!(tools.len(), 6);

    for tool in tools {
        let parameters = tool.parameters.into_value();
        assert_strict_objects(&tool.name, &parameters);

        let properties = parameters["properties"]
            .as_object()
            .expect("tool properties");
        let required = parameters["required"].as_array().expect("required tools");
        let required = required
            .iter()
            .map(|value| value.as_str().expect("required string"))
            .collect::<BTreeSet<_>>();
        let property_names = properties
            .keys()
            .map(String::as_str)
            .collect::<BTreeSet<_>>();

        assert_no_union_types(&tool.name, &parameters);
        assert_eq!(
            required, property_names,
            "{} must require every declared property for strict mode",
            tool.name
        );
    }
}

fn assert_strict_objects(tool_name: &str, schema: &Value) {
    let Some(object) = schema.as_object() else {
        return;
    };

    let schema_type = object.get("type");
    let is_object_schema = schema_type == Some(&Value::String("object".to_string()));
    if is_object_schema {
        assert_eq!(
            object.get("additionalProperties"),
            Some(&Value::Bool(false)),
            "{tool_name} object schemas must reject extra arguments"
        );
    }

    for value in object.values() {
        match value {
            Value::Array(values) => {
                for value in values {
                    assert_strict_objects(tool_name, value);
                }
            }
            Value::Object(_) => assert_strict_objects(tool_name, value),
            _ => {}
        }
    }
}

fn assert_no_union_types(tool_name: &str, schema: &Value) {
    match schema {
        Value::Object(object) => {
            assert!(
                !matches!(object.get("type"), Some(Value::Array(_))),
                "{tool_name} schemas should avoid union `type` arrays for provider compatibility"
            );

            for value in object.values() {
                assert_no_union_types(tool_name, value);
            }
        }
        Value::Array(values) => {
            for value in values {
                assert_no_union_types(tool_name, value);
            }
        }
        _ => {}
    }
}

#[test]
fn definitions_are_written_out() {
    let tools = ToolRegistry::new("/tmp".to_string()).definitions();
    let names: Vec<&str> = tools.iter().map(|tool| tool.name.as_str()).collect();
    assert_eq!(
        names,
        vec!["read", "write", "edit", "bash", "tool_search", "mcp_call"]
    );
    assert_eq!(tools[0].description, "Read a UTF-8 text file from disk.");
    assert_eq!(
        tools[0].parameters.to_text(),
        "{\"additionalProperties\":false,\"properties\":{\"path\":{\"description\":\"Relative or absolute file path to read.\",\"type\":\"string\"}},\"required\":[\"path\"],\"type\":\"object\"}"
    );
    let write = json(&tools[1].parameters.to_text()).into_value();
    assert_eq!(write["required"][2], "create_dirs");
    assert_eq!(write["properties"]["create_dirs"]["type"], "boolean");
}

#[test]
fn parses_mcp_call_arguments_from_json_string() {
    let arguments =
        parse_mcp_arguments(Json::text("{\"pipeline\":\"ferrix\"}")).expect("parse arguments");

    assert_eq!(arguments.into_value()["pipeline"], "ferrix");
}

#[test]
fn rejects_non_object_mcp_call_arguments() {
    let error = parse_mcp_arguments(Json::text("[]")).expect_err("array rejected");

    assert!(error.message().contains("must decode to a JSON object"));
}

#[test]
fn mcp_arguments_may_be_an_object_or_the_text_of_one() {
    let given = parse_mcp_arguments(json("{\"a\":1}")).expect("object");
    assert_eq!(given.to_text(), "{\"a\":1}");
    let error = parse_mcp_arguments(Json::text("{")).expect_err("not json");
    assert_eq!(
        error.message(),
        "mcp_call arguments must be a JSON object string"
    );
    assert!(parse_mcp_arguments(Json::Null).is_err());
    assert!(require_object(Json::Bool(true)).is_err());
    assert!(require_object(json("{}")).is_ok());
}

#[test]
fn paths_resolve_below_the_root() {
    assert_eq!(resolve_path("/work", "src/main.rs"), "/work/src/main.rs");
    assert_eq!(resolve_path("/work/", "a"), "/work/a");
    assert_eq!(resolve_path("/work", "/etc/hosts"), "/etc/hosts");
    assert_eq!(resolve_path("", "a"), "a");
    assert_eq!(resolve_path("/work", ""), "/work/");
    for (root, path) in [("/w", "a/b"), ("/w/", ""), ("", ""), ("w", "/a"), ("w", "../b")] {
        let expected = if std::path::Path::new(path).is_absolute() {
            std::path::PathBuf::from(path)
        } else {
            std::path::Path::new(root).join(path)
        };
        assert_eq!(resolve_path(root, path), expected.display().to_string());
    }
}

#[test]
fn edit_replaces_one_exact_match() {
    let contents = "fn main() {\n    todo!();\n}\n".to_string();
    let updated = edit_contents(
        "/work",
        "main.rs",
        Some(contents),
        "todo!();",
        "println!(\"hi\");",
    )
    .expect("edit succeeds");
    let result = edit_file("/work", &call("edit"), "main.rs", true).expect("edit succeeds");

    assert!(result.ok);
    assert_eq!(updated, "fn main() {\n    println!(\"hi\");\n}\n");
    assert_eq!(result.content, "edited `/work/main.rs`");
    assert_eq!(
        result.data.to_text(),
        "{\"path\":\"/work/main.rs\",\"replacements\":1}"
    );
}

#[test]
fn edit_fails_when_match_is_missing() {
    let error = edit_contents(
        "/work",
        "main.rs",
        Some("fn main() {}\n".to_string()),
        "missing",
        "new",
    )
    .expect_err("edit should fail");

    assert!(error.message().contains("not found"));
}

#[test]
fn edit_fails_when_match_is_ambiguous() {
    let error = edit_contents(
        "/work",
        "main.rs",
        Some("same\nsame\n".to_string()),
        "same",
        "new",
    )
    .expect_err("edit should fail");

    assert!(error.message().contains("matched 2 times"));
}

#[test]
fn edits_report_what_went_wrong() {
    assert!(check_edit("x").is_ok());
    assert_eq!(
        check_edit("").expect_err("empty").message(),
        "edit `old` text must not be empty"
    );
    assert_eq!(
        edit_contents("/w", "a", None, "", "b")
            .expect_err("empty")
            .message(),
        "edit `old` text must not be empty"
    );
    assert_eq!(
        edit_contents("/w", "a", None, "x", "b")
            .expect_err("unread")
            .message(),
        "failed to read UTF-8 file `/w/a`"
    );
    assert_eq!(
        edit_file("/w", &call("edit"), "a", false)
            .expect_err("unwritten")
            .message(),
        "failed to write `/w/a`"
    );
}

#[test]
fn text_at_overlapping_places_is_ambiguous() {
    let message = |text: &str, old: &str| {
        edit_contents("/w", "a", Some(text.to_string()), old, "b")
            .expect_err("more than one place")
            .message()
    };
    assert_eq!(message("aaa", "aa"), "edit text matched 2 times in `/w/a`");
    assert_eq!(message("aaaa", "aa"), "edit text matched 2 times in `/w/a`");
    assert_eq!(message("xababa", "aba"), "edit text matched 2 times in `/w/a`");
    assert_eq!(message("same same same", "same"), "edit text matched 3 times in `/w/a`");
    assert_eq!(
        edit_contents("/w", "a", Some("aab".to_string()), "aa", "c").expect("one place"),
        "cb"
    );
}

#[test]
fn directories_are_made_where_that_is_asked_for() {
    assert!(makes_directories(Some(true), true));
    assert!(!makes_directories(Some(true), false));
    assert!(!makes_directories(Some(false), true));
    assert!(!makes_directories(None, true));
}

#[test]
fn files_are_read_and_written() {
    let result =
        read_file("/w", &call("read"), "a.txt", Some("héllo".to_string())).expect("read");
    assert!(result.ok);
    assert_eq!(result.content, "héllo");
    assert_eq!(result.data.to_text(), "{\"bytes\":6,\"path\":\"/w/a.txt\"}");
    assert_eq!(
        read_file("/w", &call("read"), "a.txt", None)
            .expect_err("unread")
            .message(),
        "failed to read UTF-8 file `/w/a.txt`"
    );

    let result = write_file("/w", &call("write"), "b", "héllo", WriteOutcome::Written)
        .expect("write");
    assert_eq!(result.content, "wrote 6 bytes to `/w/b`");
    assert_eq!(result.data.to_text(), "{\"bytes\":6,\"path\":\"/w/b\"}");
    let failed = WriteOutcome::CreateFailed {
        parent: "/w/c".to_string(),
    };
    assert_eq!(
        write_file("/w", &call("write"), "c/d", "", failed)
            .expect_err("no directory")
            .message(),
        "failed to create `/w/c`"
    );
    assert_eq!(
        write_file("/w", &call("write"), "b", "", WriteOutcome::WriteFailed)
            .expect_err("unwritten")
            .message(),
        "failed to write `/w/b`"
    );
}

#[test]
fn bash_captures_output_without_streaming() {
    let mut stdout = Capture::new();
    stdout.push(b"fer");
    stdout.push(b"rix");
    let stderr = Capture::new();

    let result = run_command(
        &call("bash"),
        "printf ferrix",
        Some(0),
        true,
        finish_capture(&stdout),
        finish_capture(&stderr),
    );

    assert!(result.ok);
    assert_eq!(result.content, "command exited with status 0");
    let data = result.data.into_value();
    assert_eq!(data["exit_code"], 0);
    assert_eq!(data["stdout"], "ferrix");
    assert_eq!(data["stdout_bytes"], 6);
    assert_eq!(data["stderr"], "");
    assert_eq!(data["stderr_truncated"], false);
    assert_eq!(data["command"], "printf ferrix");
}

#[test]
fn captures_keep_the_start_of_a_stream() {
    let mut capture = Capture::new();
    for _ in 0..5 {
        capture.push(&[b'a'; 8192]);
    }
    let text = finish_capture(&capture);
    assert_eq!(text.total_bytes, 40_960);
    assert!(text.truncated);
    assert_eq!(text.text, "a".repeat(MAX_CAPTURE_BYTES));

    let mut full = Capture::new();
    full.push(&[b'b'; 8192]);
    full.push(&[b'b'; 8192]);
    let text = finish_capture(&full);
    assert!(!text.truncated);
    assert_eq!(text.total_bytes, 16_384);

    let mut broken = Capture::new();
    broken.push(b"a\xffb");
    assert_eq!(finish_capture(&broken).text, "a\u{fffd}b");
}

#[test]
fn signals_leave_no_exit_code() {
    let nothing = || CapturedText {
        text: String::new(),
        total_bytes: 0,
        truncated: false,
    };
    let result = run_command(&call("bash"), "sleep", None, false, nothing(), nothing());
    assert!(!result.ok);
    assert_eq!(result.content, "command terminated by signal");
    assert_eq!(result.data.into_value()["exit_code"], Value::Null);
    let result = run_command(&call("bash"), "x", Some(-7), false, nothing(), nothing());
    assert_eq!(result.content, "command exited with status -7");
    assert_eq!(shell_program(None), "/bin/bash");
    assert_eq!(shell_program(Some("/bin/sh".to_string())), "/bin/sh");
}

#[test]
fn calls_are_dispatched_by_name() {
    let tools = ToolRegistry::new("/w".to_string());
    assert_eq!(tools.workspace_root(), "/w");
    for (name, kind) in [
        ("read", ToolKind::Read),
        ("write", ToolKind::Write),
        ("edit", ToolKind::Edit),
        ("bash", ToolKind::Bash),
        ("tool_search", ToolKind::ToolSearch),
        ("mcp_call", ToolKind::McpCall),
    ] {
        assert_eq!(tools.dispatch(&call(name)).expect("known"), kind);
    }
    let unknown = call("fly");
    let error = tools.dispatch(&unknown).expect_err("unknown");
    let result = tools.execute(&unknown, Err(error));
    assert!(!result.ok);
    assert_eq!(result.call_id, "call_1");
    assert_eq!(result.name, "fly");
    assert_eq!(result.content, "unknown tool `fly`");
    assert_eq!(result.data.to_text(), "{\"error\":\"unknown tool `fly`\"}");
    let passed = tools.execute(&call("edit"), edit_file("/w", &call("edit"), "a", true));
    assert!(passed.ok);
}

#[test]
fn tool_errors_have_their_words() {
    let text = |s: &str| s.to_string();
    let cases = vec![
        (
            ToolError::InvalidArguments {
                tool: text("read"),
                error: text("missing field `path`"),
            },
            "invalid arguments for `read`: missing field `path`",
        ),
        (
            ToolError::SpawnFailed { command: text("ls") },
            "failed to spawn command `ls`",
        ),
        (ToolError::NoStdout, "failed to capture stdout"),
        (ToolError::NoStderr, "failed to capture stderr"),
        (
            ToolError::WaitFailed { command: text("ls") },
            "failed to wait for command `ls`",
        ),
        (
            ToolError::StdoutThreadPanicked,
            "stdout capture thread panicked",
        ),
        (
            ToolError::StderrThreadPanicked,
            "stderr capture thread panicked",
        ),
        (ToolError::CaptureLockPoisoned, "capture lock was poisoned"),
        (
            ToolError::PipeFailed { error: text("broken pipe") },
            "broken pipe",
        ),
        (
            ToolError::Mcp(McpError::UnknownServer { server: text("git") }),
            "unknown MCP server `git`",
        ),
    ];
    for (error, words) in cases {
        assert_eq!(error.message(), words);
    }
}

#[test]
fn mcp_tools_are_searched_and_answered() {
    let registry = McpRegistry::from_tools(vec![McpToolEntry {
        server: "git".to_string(),
        tool: McpTool {
            name: "git_status".to_string(),
            title: None,
            description: Some("Show status".to_string()),
            input_schema: json("{\"type\":\"object\"}"),
        },
    }]);
    let tools = ToolRegistry::with_mcp("/w".to_string(), registry);
    assert_eq!(tools.mcp().tool_count(), 1);
    let result = tools.search_mcp_tools(&call("tool_search"), "STATUS", None);
    assert!(result.ok);
    let data = result.data.clone().into_value();
    assert_eq!(data["query"], "STATUS");
    assert_eq!(data["total_tools"], 1);
    assert_eq!(data["matches"][0]["qualified_name"], "git/git_status");
    assert_eq!(data["matches"][0]["title"], Value::Null);
    assert_eq!(data["matches"][0]["score"], 60);
    assert_eq!(result.content, data.to_string());

    let output = McpCallOutput {
        server: "git".to_string(),
        tool: "git_status".to_string(),
        ok: false,
        content: "dirty".to_string(),
        data: json("[1]"),
    };
    let result = tools.call_mcp_tool(&call("mcp_call"), output);
    assert!(!result.ok);
    assert_eq!(result.content, "dirty");
    assert_eq!(result.data.to_text(), "[1]");
}

#[test]
fn calls_and_results_have_json_forms() {
    let mut with_id = call("read");
    with_id.item_id = Some("fc_1".to_string());
    assert_eq!(
        with_id.to_json().to_text(),
        "{\"arguments\":{},\"call_id\":\"call_1\",\"item_id\":\"fc_1\",\"name\":\"read\"}"
    );
    assert_eq!(
        call("read").to_json().to_text(),
        "{\"arguments\":{},\"call_id\":\"call_1\",\"name\":\"read\"}"
    );
    let result = edit_file("/w", &call("edit"), "a", true).expect("edit");
    assert_eq!(
        result.to_json().to_text(),
        "{\"call_id\":\"call_1\",\"content\":\"edited `/w/a`\",\"data\":{\"path\":\"/w/a\",\"replacements\":1},\"name\":\"edit\",\"ok\":true}"
    );
}
