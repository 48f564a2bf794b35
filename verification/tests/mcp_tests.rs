use ferrix::json::Json;
use ferrix::mcp::finish_call;
use ferrix::mcp::normalize_call_result;
use ferrix::mcp::rank;
use ferrix::mcp::search_terms;
use ferrix::mcp::text_content;
use ferrix::mcp::LoweredTool;
use ferrix::mcp::McpCallResult;
use ferrix::mcp::McpConfig;
use ferrix::mcp::McpContent;
use ferrix::mcp::McpError;
use ferrix::mcp::McpRegistry;
use ferrix::mcp::McpServerConfig;
use ferrix::mcp::McpTool;
use ferrix::mcp::McpToolEntry;
use ferrix::mcp::McpToolSearchResult;
use serde_json::Value;

fn json(text: &str) -> Json {
    Json::parse(text).expect("json")
}

fn entry(server: &str, name: &str, title: Option<&str>, description: &str) -> McpToolEntry {
    McpToolEntry {
        server: server.to_string(),
        tool: tool(name, title, description),
    }
}

fn tool(name: &str, title: Option<&str>, description: &str) -> McpTool {
    McpTool {
        name: name.to_string(),
        title: title.map(str::to_string),
        description: Some(description.to_string()),
        input_schema: json("{}"),
    }
}

fn server(name: &str, command: &str) -> McpServerConfig {
    McpServerConfig::new(name.to_string(), command.to_string())
}

fn text_piece(text: &str) -> McpContent {
    McpContent {
        value: json(&format!("{{\"type\":\"text\",\"text\":\"{text}\"}}")),
        text: Some(text.to_string()),
    }
}

fn reply(content: Vec<McpContent>) -> McpCallResult {
    McpCallResult {
        content,
        content_text: None,
        structured_content: None,
        is_error: None,
        meta: None,
    }
}

#[test]
fn parses_mcp_config_defaults() {
    let parsed: Value = serde_json::from_str(
        r#"{
            "servers": [{
                "name": "git",
                "command": "uvx"
            }]
        }"#,
    )
    .expect("parse config");
    let text = |value: &Value| value.as_str().expect("text").to_string();
    let config = McpConfig {
        servers: parsed["servers"]
            .as_array()
            .expect("servers")
            .iter()
            .map(|entry| McpServerConfig::new(text(&entry["name"]), text(&entry["command"])))
            .collect(),
    };

    assert_eq!(config.servers[0].name, "git");
    assert_eq!(config.servers[0].args, Vec::<String>::new());
    assert_eq!(config.servers[0].env, Vec::<(String, String)>::new());
    assert_eq!(config.servers[0].cwd, None);
    assert!(!config.servers[0].disabled);
    config.validate().expect("valid config");
}

#[test]
fn rejects_duplicate_server_names() {
    let config = McpConfig {
        servers: vec![server("git", "uvx"), server("git", "node")],
    };

    let error = config.validate().expect_err("duplicate rejected");

    assert!(error.message().contains("duplicate MCP server"));
}

#[test]
fn the_first_faulty_server_is_reported() {
    let message = |servers: Vec<McpServerConfig>| {
        McpConfig { servers }
            .validate()
            .expect_err("faulty config")
            .message()
    };
    assert_eq!(
        message(vec![server(" ", ""), server("a", "")]),
        "MCP server name must not be empty"
    );
    assert_eq!(
        message(vec![server("a", "x"), server("b", "\t")]),
        "MCP server `b` command must not be empty"
    );
    assert_eq!(
        message(vec![server("a", "x"), server("b", "y"), server("a", "z"), server("", "")]),
        "duplicate MCP server `a`"
    );
}

#[test]
fn disabled_servers_are_left_out() {
    let mut off = server("b", "x");
    off.disabled = true;
    let config = McpConfig {
        servers: vec![server("a", "x"), off, server("c", "x")],
    };
    let names: Vec<String> = config
        .enabled_servers()
        .into_iter()
        .map(|server| server.name)
        .collect();
    assert_eq!(names, vec!["a", "c"]);
}

#[test]
fn servers_run_in_their_own_directory() {
    let mut config = server("a", "x");
    assert_eq!(config.working_directory("/w"), None);
    config.cwd = Some("tools".to_string());
    assert_eq!(config.working_directory("/w").as_deref(), Some("/w/tools"));
    config.cwd = Some("/opt".to_string());
    assert_eq!(config.working_directory("/w").as_deref(), Some("/opt"));
}

#[test]
fn searches_tools_by_name_title_and_description() {
    let registry = McpRegistry::from_tools(vec![
        entry(
            "git",
            "git_status",
            Some("Git Status"),
            "Show repository status",
        ),
        entry("docs", "search_docs", None, "Search project documentation"),
    ]);

    let output = registry.search("git status", Some(5));

    assert_eq!(output.matches.len(), 1);
    assert_eq!(output.matches[0].qualified_name, "git/git_status");
}

#[test]
fn matches_are_scored_and_ranked() {
    let registry = McpRegistry::from_tools(vec![
        entry("z", "other", None, "can search"),
        entry("b", "search", None, ""),
        entry("a", "search", None, ""),
        entry("c", "x", Some("SEARCH"), ""),
        entry("d", "searcher", None, ""),
        entry("search", "y", None, ""),
        entry("e", "none", None, "nothing"),
    ]);
    let output = registry.search("Search", None);
    let found: Vec<(String, u64)> = output
        .matches
        .iter()
        .map(|m| (m.qualified_name.clone(), m.score))
        .collect();
    let expected: Vec<(String, u64)> = [
        ("a/search", 100),
        ("b/search", 100),
        ("d/searcher", 60),
        ("c/x", 30),
        ("z/other", 15),
        ("search/y", 1),
    ]
    .iter()
    .map(|(name, score)| (name.to_string(), *score))
    .collect();
    assert_eq!(found, expected);
    assert_eq!(output.total_tools, 7);
    assert_eq!(output.query, "Search");

    let all = registry.search("", Some(3));
    let names: Vec<&str> = all.matches.iter().map(|m| m.server.as_str()).collect();
    assert_eq!(names, vec!["a", "b", "c"]);
    assert!(all.matches.iter().all(|m| m.score == 1));
    assert_eq!(registry.search("search", Some(0)).matches.len(), 0);
}

#[test]
fn searches_have_limits() {
    let tools = (0..60)
        .map(|n| entry("s", &format!("t{n:02}"), None, ""))
        .collect();
    let registry = McpRegistry::from_tools(tools);
    assert_eq!(registry.search("", None).matches.len(), 10);
    assert_eq!(registry.search("", Some(1_000)).matches.len(), 50);
    assert_eq!(registry.search("", Some(50)).matches[49].tool, "t49");
}

#[test]
fn query_terms_are_words_in_lower_case() {
    assert_eq!(
        search_terms("  Git\tSTATUS ÄÖ \n"),
        vec!["git".to_string(), "status".to_string(), "äö".to_string()]
    );
    assert_eq!(search_terms(" "), Vec::<String>::new());
}

#[test]
fn lowered_texts_decide_a_match() {
    let texts = LoweredTool {
        haystack: "git push remote".to_string(),
        name: "push".to_string(),
        title: "push it".to_string(),
        description: "remote".to_string(),
    };
    let terms = |words: &[&str]| words.iter().map(|w| w.to_string()).collect::<Vec<_>>();
    assert_eq!(texts.score(&terms(&[])), 1);
    assert_eq!(texts.score(&terms(&["push", "us", "it", "mote", "zzz"])), 206);
    assert!(texts.has_all(&terms(&["git", "rem"])));
    assert!(!texts.has_all(&terms(&["git", "zzz"])));
    let e = entry("git", "Push", None, "");
    assert!(e.match_lowered(&texts, &terms(&["zzz"])).is_none());
    let found = e.match_lowered(&texts, &terms(&["push"])).expect("match");
    assert_eq!((found.tool.as_str(), found.score), ("Push", 100));
    assert_eq!(e.score(&terms(&["push"])), 100);
    assert_eq!(e.haystack(), "git push  ");
}

#[test]
fn equal_ranks_keep_their_order() {
    let found = |tool: &str, title: &str| McpToolSearchResult {
        server: "s".to_string(),
        tool: tool.to_string(),
        qualified_name: String::new(),
        title: Some(title.to_string()),
        description: None,
        input_schema: Json::Null,
        score: 1,
    };
    let ranked = rank(
        vec![found("b", "1"), found("a", "2"), found("b", "3"), found("a", "4")],
        10,
    );
    let titles: Vec<&str> = ranked.iter().filter_map(|m| m.title.as_deref()).collect();
    assert_eq!(titles, vec!["2", "4", "1", "3"]);
}

#[test]
fn normalizes_structured_call_results() {
    let mut result = reply(vec![text_piece("x")]);
    result.structured_content = Some(json("{\"status\": \"clean\"}"));
    result.is_error = Some(false);

    let output = normalize_call_result("git", "git_status", result);

    assert!(output.ok);
    assert_eq!(output.content, "{\"status\":\"clean\"}");
    let data = output.data.into_value();
    assert_eq!(data["server"], "git");
    assert_eq!(data["tool"], "git_status");
}

#[test]
fn normalizes_text_call_results() {
    let output = normalize_call_result("server", "echo", reply(vec![text_piece("hello")]));

    assert!(output.ok);
    assert_eq!(output.content, "hello");
}

#[test]
fn replies_fall_back_to_their_raw_content() {
    let image = || McpContent {
        value: json("{\"type\":\"image\"}"),
        text: None,
    };
    let mut result = reply(vec![text_piece("a"), image(), text_piece("b")]);
    assert_eq!(
        text_content(&result.content),
        vec!["a".to_string(), "b".to_string()]
    );
    result.is_error = Some(true);
    result.meta = Some(json("{\"k\":1}"));
    let output = normalize_call_result("s", "t", result);
    assert!(!output.ok);
    assert_eq!(output.content, "a\nb");
    let data = output.data.into_value();
    assert_eq!(data["ok"], false);
    assert_eq!(data["content"][1]["type"], "image");
    assert_eq!(data["structured_content"], Value::Null);
    assert_eq!(data["meta"]["k"], 1);

    let mut raw = reply(vec![image()]);
    raw.content_text = Some("[{\"type\":\"image\"}]".to_string());
    assert_eq!(
        normalize_call_result("s", "t", raw).content,
        "[{\"type\":\"image\"}]"
    );
    assert_eq!(normalize_call_result("s", "t", reply(vec![image()])).content, "");
}

#[test]
fn calls_are_checked_before_they_are_sent() {
    let mut registry = McpRegistry::empty();
    registry.add_server("git".to_string(), vec![tool("status", None, "")]);
    assert_eq!(registry.server_count(), 1);
    assert_eq!(registry.tool_count(), 1);
    let message = |result: Result<Json, McpError>| result.expect_err("refused").message();
    assert_eq!(
        message(registry.check_call("git", "status", json("[]"))),
        "MCP tool arguments must be a JSON object"
    );
    assert_eq!(
        message(registry.check_call("git", "push", json("{}"))),
        "unknown MCP tool `git/push`"
    );
    let arguments = registry
        .check_call("git", "status", json("{\"a\":1}"))
        .expect("known");
    assert_eq!(arguments.to_text(), "{\"a\":1}");
    let unconnected = McpRegistry::from_tools(vec![entry("git", "status", None, "")]);
    assert_eq!(
        message(unconnected.check_call("git", "status", json("{}"))),
        "unknown MCP server `git`"
    );
    assert_eq!(
        finish_call("git", "status", None).expect_err("failed").message(),
        "MCP tool `git/status` failed"
    );
    assert!(finish_call("git", "status", Some(reply(Vec::new()))).expect("reply").ok);
}

#[test]
fn mcp_errors_have_their_words() {
    let text = |s: &str| s.to_string();
    for (error, words) in [
        (
            McpError::SpawnFailed { server: text("a") },
            "failed to spawn MCP server `a`",
        ),
        (
            McpError::InitializeFailed { server: text("a") },
            "failed to initialize MCP server `a`",
        ),
        (
            McpError::ListFailed { server: text("a") },
            "failed to list MCP tools for `a`",
        ),
        (
            McpError::ConfigUnreadable { path: text("p") },
            "failed to read MCP config `p`",
        ),
        (
            McpError::ConfigUnparsable { path: text("p") },
            "failed to parse MCP config `p`",
        ),
    ] {
        assert_eq!(error.message(), words);
    }
}
