use ferrix::agent::AgentEvent;
use ferrix::agent::ModelUsageTotals;
use ferrix::agent::SessionStats;
use ferrix::agent::ToolUsageTotals;
use ferrix::config::UiConfig;
use ferrix::terminal::dim;
use ferrix::terminal::format_bytes;
use ferrix::terminal::format_cache_percent;
use ferrix::terminal::format_duration;
use ferrix::terminal::format_tokens;
use ferrix::terminal::LogLevel;
use ferrix::terminal::TerminalUi;

fn output(terminal: TerminalUi) -> String {
    String::from_utf8(terminal.into_inner()).expect("utf8 output")
}

#[test]
fn formats_stats_for_log_lines() {
    assert_eq!(format_tokens(999), "999");
    assert_eq!(format_tokens(12_345), "12.3k");
    assert_eq!(format_cache_percent(300, 1_000), "30%");
    assert_eq!(format_cache_percent(0, 0), "n/a");
    assert_eq!(format_duration(842), "842ms");
    assert_eq!(format_duration(1_850), "1.9s");
    assert_eq!(format_bytes(16_384), "16.0KB");
}

#[test]
fn clears_status_before_log_event() {
    let mut terminal = TerminalUi::new(Vec::new(), true, false);

    terminal.set_status("thinking");
    terminal.log_event(LogLevel::Success, "[MODEL]", "done");

    assert_eq!(
        output(terminal),
        "\r\x1b[2Kthinking\r\x1b[2K[OK] [MODEL] done\n"
    );
}

#[test]
fn colors_status_prefix_when_enabled() {
    let mut terminal = TerminalUi::new(Vec::new(), false, true);

    terminal.log_event(LogLevel::Failure, "[TOOL:bash]", "failed");

    assert_eq!(
        output(terminal),
        "\x1b[31m[ERR]\x1b[0m [TOOL:bash] failed\n"
    );
}

#[test]
fn session_summary_includes_failed_turns() {
    let mut terminal = TerminalUi::new(Vec::new(), false, false);
    let stats = SessionStats {
        turns: 2,
        failed_turns: 1,
        model_usage: ModelUsageTotals {
            model_calls: 3,
            ..Default::default()
        },
        ..Default::default()
    };

    terminal.write_session_summary(&stats);

    let output = output(terminal);
    assert!(output.contains("turns=2 failed_turns=1 model_calls=3"));
    assert_eq!(
        output,
        "[OK] [SESSION] complete turns=2 failed_turns=1 model_calls=3 tokens=0 cache=n/a reasoning=0 tools=0 failed_tools=0 tool_time=0ms\n"
    );
}

#[test]
fn a_session_without_turns_has_no_summary() {
    let mut terminal = TerminalUi::new(Vec::new(), false, false);
    terminal.write_session_summary(&SessionStats::default());
    assert_eq!(output(terminal), "");
}

#[test]
fn numbers_are_rounded_as_floats_are() {
    let mut checked = 0;
    let mut check = |tokens: u64| {
        let expected = if tokens < 1_000 {
            tokens.to_string()
        } else if tokens < 1_000_000 {
            format!("{:.1}k", tokens as f64 / 1_000.0)
        } else {
            format!("{:.1}m", tokens as f64 / 1_000_000.0)
        };
        assert_eq!(format_tokens(tokens), expected);
        let expected = if tokens < 1_024 {
            format!("{tokens}B")
        } else if tokens < 1_024 * 1_024 {
            format!("{:.1}KB", tokens as f64 / 1_024.0)
        } else {
            format!("{:.1}MB", tokens as f64 / (1_024.0 * 1_024.0))
        };
        assert_eq!(format_bytes(tokens), expected);
        let expected = if tokens < 1_000 {
            format!("{tokens}ms")
        } else {
            format!("{:.1}s", tokens as f64 / 1_000.0)
        };
        assert_eq!(format_duration(tokens as u128), expected);
        checked += 1;
    };
    for n in 0..20_000 {
        check(n);
    }
    let mut n: u64 = 12_345;
    for _ in 0..20_000 {
        n = n.wrapping_mul(6_364_136_223_846_793_005).wrapping_add(1_442_695_040_888_963_407);
        check(n);
        check(n >> 20);
        check(n >> 40);
    }
    for n in [999_949, 999_950, 999_999, 1_000_000, 1_048_575, 1_048_576, u64::MAX] {
        check(n);
    }
    assert_eq!(checked, 80_007);
    for duration in [u128::MAX, u128::MAX / 3, 1 << 100, (1 << 90) + 12_345] {
        assert_eq!(
            format_duration(duration),
            format!("{:.1}s", duration as f64 / 1_000.0)
        );
    }
}

#[test]
fn the_share_of_the_cache_is_capped_as_it_saturates() {
    assert_eq!(format_cache_percent(1, 3), "33%");
    assert_eq!(
        format_cache_percent(u64::MAX, 2),
        format!("{}%", u64::MAX.saturating_mul(100) / 2)
    );
}

#[test]
fn dim_text_ends_in_a_reset() {
    assert_eq!(dim("x"), "\x1b[2mx\x1b[0m");
}

#[test]
fn prompts_and_answers_clear_the_status() {
    let mut terminal = TerminalUi::new(b"> ".to_vec(), true, false);
    terminal.write_prompt();
    terminal.set_status("a");
    terminal.set_status("b");
    terminal.write_answer_delta("hé");
    terminal.finish_answer();
    terminal.set_status("c");
    terminal.clear_status();
    terminal.clear_status();
    terminal.write_error("model request failed: no route");
    assert_eq!(
        output(terminal),
        "> ferrix> \r\x1b[2Ka\r\x1b[2Kb\r\x1b[2Khé\n\r\x1b[2Kc\r\x1b[2K[ERR] [RUN] error: model request failed: no route\n"
    );
}

#[test]
fn status_lines_are_for_terminals() {
    let config = UiConfig {
        status_line: true,
        color: true,
    };
    let mut piped = TerminalUi::stdout(config, false);
    piped.set_status("thinking");
    piped.log_event(LogLevel::Success, "[A]", "b");
    assert_eq!(piped.take_output(), b"[OK] [A] b\n".to_vec());
    assert_eq!(piped.take_output(), Vec::<u8>::new());

    let mut shown = TerminalUi::stdout(config, true);
    shown.set_status("thinking");
    shown.log_event(LogLevel::Success, "[A]", "b");
    assert_eq!(
        output(shown),
        "\r\x1b[2Kthinking\r\x1b[2K\x1b[32m[OK]\x1b[0m [A] b\n"
    );
}

#[test]
fn reports_of_the_agent_are_shown() {
    let mut terminal = TerminalUi::new(Vec::new(), true, false);
    terminal.handle_agent_event(&AgentEvent::ModelStarted {
        iteration: 1,
        model: "m".to_string(),
    });
    terminal.handle_agent_event(&AgentEvent::ModelCompleted {
        iteration: 1,
        model: "m".to_string(),
        duration_ms: 1_250,
        usage_totals: ModelUsageTotals {
            input_tokens: 1_000,
            cached_input_tokens: 250,
            total_tokens: 1_500,
            ..Default::default()
        },
        tool_call_count: 2,
    });
    terminal.handle_agent_event(&AgentEvent::ToolStarted {
        tag: "[TOOL:bash]".to_string(),
        name: "bash".to_string(),
        call_id: "call_1".to_string(),
    });
    terminal.handle_agent_event(&AgentEvent::ToolCompleted {
        tag: "[TOOL:bash]".to_string(),
        name: "bash".to_string(),
        call_id: "call_1".to_string(),
        ok: false,
        duration_ms: 12,
        exit_code: Some(-1),
        stdout_bytes: Some(10),
        stderr_bytes: Some(2_048),
        truncated: true,
    });
    terminal.handle_agent_event(&AgentEvent::ToolCompleted {
        tag: "[TOOL:read]".to_string(),
        name: "read".to_string(),
        call_id: "call_2".to_string(),
        ok: true,
        duration_ms: 0,
        exit_code: None,
        stdout_bytes: None,
        stderr_bytes: None,
        truncated: false,
    });
    assert_eq!(
        output(terminal),
        "\r\x1b[2Kthinking | iter 1 | model m\
         \r\x1b[2K[OK] [MODEL] m iter=1 completed in 1.2s tokens=1.5k cache=25% tool_calls=2\n\
         \r\x1b[2Ktool bash running | [TOOL:bash] call=call_1\
         \r\x1b[2K[ERR] [TOOL:bash] bash call=call_1 completed in 12ms exit=-1 stdout=10B stderr=2.0KB truncated=true\n\
         [OK] [TOOL:read] read call=call_2 completed in 0ms\n"
    );
}

#[test]
fn tool_totals_appear_in_the_summary() {
    let mut terminal = TerminalUi::new(Vec::new(), false, false);
    let stats = SessionStats {
        turns: 1,
        failed_turns: 0,
        model_usage: ModelUsageTotals::default(),
        tool_usage: ToolUsageTotals {
            tool_calls: 4,
            failed_tool_calls: 1,
            duration_ms: 2_000,
        },
    };
    terminal.write_session_summary(&stats);
    assert!(output(terminal).ends_with("tools=4 failed_tools=1 tool_time=2.0s\n"));
}
