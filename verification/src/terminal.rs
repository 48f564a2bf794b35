//! What the agent shows on the terminal.

use crate::agent::AgentEvent;
use crate::agent::AgentEventView;
use crate::agent::SessionStats;
use crate::agent::SessionView;
use crate::config::UiConfig;
use crate::decimal::decimal;
use crate::decimal::digits;
use crate::decimal::digits_are_worth_the_number;
use crate::decimal::scaled_text;
use crate::decimal::signed_decimal;
use crate::decimal::signed_digits;
use crate::decimal::with_one_decimal;
use crate::decimal::worth;
use crate::text::around;
use crate::text::begins_with;
use crate::text::ends_in;
use crate::text::joining_is_associative;
use crate::text::last_part_occurs;
use crate::text::last_parts_occur;
use crate::text::occurs;
use crate::text::start_occurs;
use crate::text::whole_occurs;
use vstd::arithmetic::div_mod::lemma_fundamental_div_mod;
use vstd::prelude::*;
use vstd::utf8::encode_utf8;
use vstd::utf8::valid_utf8;

verus! {

/// Goes back to the start of the line and clears it.
pub const CLEAR_LINE: &'static str = "\r\x1b[2K";

/// Ends colors and dimming.
pub const RESET: &'static str = "\x1b[0m";

/// Starts green text.
pub const GREEN: &'static str = "\x1b[32m";

/// Starts red text.
pub const RED: &'static str = "\x1b[31m";

/// Starts dim text.
pub const DIM: &'static str = "\x1b[2m";

/// How an event went.
#[derive(Debug, Clone, Copy, PartialEq, Eq, Structural)]
pub enum LogLevel {
    Success,
    Failure,
}

/// Text for the terminal. It gathers in a buffer, from which it is taken to be
/// written.
#[derive(Debug)]
pub struct TerminalUi {
    writer: Vec<u8>,
    status_enabled: bool,
    color_enabled: bool,
    status_visible: bool,
}

/// What the terminal's state holds.
#[verifier::ext_equal]
pub struct TerminalView {
    pub written: Seq<u8>,
    pub status_enabled: bool,
    pub color_enabled: bool,
    pub status_visible: bool,
}

impl View for TerminalUi {
    type V = TerminalView;

    closed spec fn view(&self) -> TerminalView {
        TerminalView {
            written: self.writer@,
            status_enabled: self.status_enabled,
            color_enabled: self.color_enabled,
            status_visible: self.status_visible,
        }
    }
}

/// A terminal with more text on it, and with a status line or without.
pub open spec fn wrote(terminal: TerminalView, text: Seq<char>, status_visible: bool) -> TerminalView {
    TerminalView {
        written: terminal.written + encode_utf8(text),
        status_visible,
        ..terminal
    }
}

/// What clears the status line, where there is one.
pub open spec fn clearing(terminal: TerminalView) -> Seq<char> {
    if terminal.status_visible {
        CLEAR_LINE@
    } else {
        Seq::empty()
    }
}

/// A terminal with a status line, where these are shown.
pub open spec fn with_status(terminal: TerminalView, status: Seq<char>) -> TerminalView {
    if terminal.status_enabled {
        wrote(terminal, CLEAR_LINE@ + status, true)
    } else {
        terminal
    }
}

/// The mark in front of a line of the log.
pub open spec fn level_mark(level: LogLevel, color_enabled: bool) -> Seq<char> {
    let label = match level {
        LogLevel::Success => "[OK]"@,
        LogLevel::Failure => "[ERR]"@,
    };
    let color = match level {
        LogLevel::Success => GREEN@,
        LogLevel::Failure => RED@,
    };
    if color_enabled {
        color + label + RESET@
    } else {
        label
    }
}

/// A line of the log.
pub open spec fn log_line(
    level: LogLevel,
    color_enabled: bool,
    tag: Seq<char>,
    message: Seq<char>,
) -> Seq<char> {
    level_mark(level, color_enabled) + " "@ + tag + " "@ + message + "\n"@
}

/// A terminal with one more line of the log.
pub open spec fn with_log(
    terminal: TerminalView,
    level: LogLevel,
    tag: Seq<char>,
    message: Seq<char>,
) -> TerminalView {
    wrote(
        terminal,
        clearing(terminal) + log_line(level, terminal.color_enabled, tag, message),
        false,
    )
}

/// The share of the input that came from the cache, in per cent.
pub open spec fn cache_text(cached_tokens: nat, input_tokens: nat) -> Seq<char> {
    if input_tokens == 0 {
        "n/a"@
    } else {
        let hundredfold: nat = if 100 * cached_tokens <= u64::MAX {
            100 * cached_tokens
        } else {
            u64::MAX as nat
        };
        digits(hundredfold / input_tokens) + "%"@
    }
}

/// A number of tokens, in thousands or millions where it is large.
pub open spec fn tokens_text(tokens: nat) -> Seq<char> {
    if tokens < 1_000 {
        digits(tokens)
    } else if tokens < 1_000_000 {
        scaled_text(tokens, 1_000) + "k"@
    } else {
        scaled_text(tokens, 1_000_000) + "m"@
    }
}

/// A duration, in seconds from one second on.
pub open spec fn duration_text(duration_ms: nat) -> Seq<char> {
    if duration_ms < 1_000 {
        digits(duration_ms) + "ms"@
    } else {
        scaled_text(duration_ms, 1_000) + "s"@
    }
}

/// A number of bytes, in units of 1024 bytes and their multiples where it is
/// large.
pub open spec fn bytes_text(bytes: nat) -> Seq<char> {
    if bytes < 1_024 {
        digits(bytes) + "B"@
    } else if bytes < 1_048_576 {
        scaled_text(bytes, 1_024) + "KB"@
    } else {
        scaled_text(bytes, 1_048_576) + "MB"@
    }
}

/// What is said of a call of the model that has come back.
pub open spec fn model_message(
    model: Seq<char>,
    iteration: nat,
    duration_ms: nat,
    total_tokens: nat,
    cached_input_tokens: nat,
    input_tokens: nat,
    tool_call_count: nat,
) -> Seq<char> {
    model + " iter="@ + digits(iteration) + " completed in "@ + duration_text(duration_ms)
        + " tokens="@ + tokens_text(total_tokens) + " cache="@ + cache_text(
        cached_input_tokens,
        input_tokens,
    ) + " tool_calls="@ + digits(tool_call_count)
}

/// What is said of a tool that has run.
pub open spec fn tool_message(
    name: Seq<char>,
    call_id: Seq<char>,
    duration_ms: nat,
    exit_code: Option<i64>,
    stdout_bytes: Option<u64>,
    stderr_bytes: Option<u64>,
    truncated: bool,
) -> Seq<char> {
    let base = name + " call="@ + call_id + " completed in "@ + duration_text(duration_ms);
    let with_exit = match exit_code {
        Some(code) => base + " exit="@ + signed_digits(code as int),
        None => base,
    };
    let with_stdout = match stdout_bytes {
        Some(n) => with_exit + " stdout="@ + bytes_text(n as nat),
        None => with_exit,
    };
    let with_stderr = match stderr_bytes {
        Some(n) => with_stdout + " stderr="@ + bytes_text(n as nat),
        None => with_stdout,
    };
    if truncated {
        with_stderr + " truncated=true"@
    } else {
        with_stderr
    }
}

/// A terminal after a report of the agent: a status line for what has started, a
/// line of the log for what has come back.
pub open spec fn with_agent_event(terminal: TerminalView, event: AgentEventView) -> TerminalView {
    match event {
        AgentEventView::ModelStarted { iteration, model } => with_status(
            terminal,
            "thinking | iter "@ + digits(iteration) + " | model "@ + model,
        ),
        AgentEventView::ModelCompleted {
            iteration,
            model,
            duration_ms,
            usage_totals,
            tool_call_count,
        } => with_log(
            terminal,
            LogLevel::Success,
            "[MODEL]"@,
            model_message(
                model,
                iteration,
                duration_ms,
                usage_totals.total_tokens,
                usage_totals.cached_input_tokens,
                usage_totals.input_tokens,
                tool_call_count,
            ),
        ),
        AgentEventView::ToolStarted { tag, name, call_id } => with_status(
            terminal,
            "tool "@ + name + " running | "@ + tag + " call="@ + call_id,
        ),
        AgentEventView::ToolCompleted {
            tag,
            name,
            call_id,
            ok,
            duration_ms,
            exit_code,
            stdout_bytes,
            stderr_bytes,
            truncated,
        } => with_log(
            terminal,
            if ok {
                LogLevel::Success
            } else {
                LogLevel::Failure
            },
            tag,
            tool_message(
                name,
                call_id,
                duration_ms,
                exit_code,
                stdout_bytes,
                stderr_bytes,
                truncated,
            ),
        ),
    }
}

/// What is said at the end of a session.
pub open spec fn summary_message(stats: SessionView) -> Seq<char> {
    "complete turns="@ + digits(stats.turns) + " failed_turns="@ + digits(stats.failed_turns)
        + " model_calls="@ + digits(stats.model_usage.model_calls) + " tokens="@ + tokens_text(
        stats.model_usage.total_tokens,
    ) + " cache="@ + cache_text(
        stats.model_usage.cached_input_tokens,
        stats.model_usage.input_tokens,
    ) + " reasoning="@ + tokens_text(stats.model_usage.reasoning_tokens) + " tools="@ + digits(
        stats.tool_usage.tool_calls,
    ) + " failed_tools="@ + digits(stats.tool_usage.failed_tool_calls) + " tool_time="@
        + duration_text(stats.tool_usage.duration_ms)
}

/// The share of the input that came from the cache, in per cent.
pub fn format_cache_percent(cached_tokens: u64, input_tokens: u64) -> (r: String)
    ensures
        r@ == cache_text(cached_tokens as nat, input_tokens as nat),
{
    if input_tokens == 0 {
        return "n/a".to_owned();
    }
    let hundredfold: u128 = 100 * (cached_tokens as u128);
    let capped: u128 = if hundredfold <= u64::MAX as u128 {
        hundredfold
    } else {
        u64::MAX as u128
    };
    let mut text = decimal(capped / (input_tokens as u128));
    text.push_str("%");
    text
}

/// A number of tokens, in thousands or millions where it is large.
pub fn format_tokens(tokens: u64) -> (r: String)
    ensures
        r@ == tokens_text(tokens as nat),
{
    if tokens < 1_000 {
        decimal(tokens as u128)
    } else if tokens < 1_000_000 {
        let mut text = with_one_decimal(tokens as u128, 1_000);
        text.push_str("k");
        text
    } else {
        let mut text = with_one_decimal(tokens as u128, 1_000_000);
        text.push_str("m");
        text
    }
}

/// A duration, in seconds from one second on.
pub fn format_duration(duration_ms: u128) -> (r: String)
    ensures
        r@ == duration_text(duration_ms as nat),
{
    if duration_ms < 1_000 {
        let mut text = decimal(duration_ms);
        text.push_str("ms");
        text
    } else {
        let mut text = with_one_decimal(duration_ms, 1_000);
        text.push_str("s");
        text
    }
}

/// A number of bytes, in units of 1024 bytes and their multiples where it is
/// large.
pub fn format_bytes(bytes: u64) -> (r: String)
    ensures
        r@ == bytes_text(bytes as nat),
{
    if bytes < 1_024 {
        let mut text = decimal(bytes as u128);
        text.push_str("B");
        text
    } else if bytes < 1_048_576 {
        let mut text = with_one_decimal(bytes as u128, 1_024);
        text.push_str("KB");
        text
    } else {
        let mut text = with_one_decimal(bytes as u128, 1_048_576);
        text.push_str("MB");
        text
    }
}

/// A text that is shown dim.
pub fn dim(value: &str) -> (r: String)
    ensures
        r@ == DIM@ + value@ + RESET@,
{
    around(DIM, value, RESET)
}

impl TerminalUi {
    /// A terminal whose text goes behind what a buffer holds.
    pub fn new(writer: Vec<u8>, status_enabled: bool, color_enabled: bool) -> (r: TerminalUi)
        ensures
            r@ == (TerminalView {
                written: writer@,
                status_enabled,
                color_enabled,
                status_visible: false,
            }),
    {
        TerminalUi { writer, status_enabled, color_enabled, status_visible: false }
    }

    /// The terminal of a session. Status lines and colors are for a person to
    /// see.
    pub fn stdout(config: UiConfig, interactive: bool) -> (r: TerminalUi)
        ensures
            r@ == (TerminalView {
                written: Seq::empty(),
                status_enabled: config.status_line && interactive,
                color_enabled: config.color && interactive,
                status_visible: false,
            }),
    {
        TerminalUi::new(Vec::new(), config.status_line && interactive, config.color && interactive)
    }

    /// Puts text behind what was written, and says whether it is a status line.
    fn put(&mut self, text: &str, status_visible: bool)
        ensures
            final(self)@ == wrote(old(self)@, text@, status_visible),
    {
        let ghost before = self@;
        let bytes = text.as_bytes();
        let mut i: usize = 0;
        while i < bytes.len()
            invariant
                i <= bytes@.len(),
                bytes@ == encode_utf8(text@),
                self@ == (TerminalView {
                    written: before.written + bytes@.take(i as int),
                    ..before
                }),
            decreases bytes@.len() - i,
        {
            self.writer.push(bytes[i]);
            assert(self@.written =~= before.written + bytes@.take(i + 1));
            i += 1;
        }
        assert(bytes@.take(bytes@.len() as int) =~= bytes@);
        self.status_visible = status_visible;
    }

    /// What clears the status line, where there is one.
    fn clearing_text(&self) -> (r: String)
        ensures
            r@ == clearing(self@),
    {
        if self.status_visible {
            CLEAR_LINE.to_owned()
        } else {
            String::new()
        }
    }

    /// Asks for input.
    pub fn write_prompt(&mut self)
        ensures
            final(self)@ == wrote(old(self)@, clearing(old(self)@) + "ferrix> "@, false),
    {
        let mut text = self.clearing_text();
        text.push_str("ferrix> ");
        self.put(text.as_str(), false);
    }

    /// Shows a status line in place of the one before, where these are shown.
    pub fn set_status(&mut self, status: &str)
        ensures
            final(self)@ == with_status(old(self)@, status@),
    {
        if !self.status_enabled {
            return ;
        }
        let mut text: String = CLEAR_LINE.to_owned();
        text.push_str(status);
        self.put(text.as_str(), true);
    }

    /// Clears the status line, where there is one.
    pub fn clear_status(&mut self)
        ensures
            final(self)@ == wrote(old(self)@, clearing(old(self)@), false),
    {
        let text = self.clearing_text();
        self.put(text.as_str(), false);
    }

    /// The mark in front of a line of the log.
    fn level_prefix(&self, level: LogLevel) -> (r: String)
        ensures
            r@ == level_mark(level, self@.color_enabled),
    {
        let label = match level {
            LogLevel::Success => "[OK]",
            LogLevel::Failure => "[ERR]",
        };
        if !self.color_enabled {
            return label.to_owned();
        }
        let color = match level {
            LogLevel::Success => GREEN,
            LogLevel::Failure => RED,
        };
        around(color, label, RESET)
    }

    /// Writes a line of the log.
    pub fn log_event(&mut self, level: LogLevel, tag: &str, message: &str)
        ensures
            final(self)@ == with_log(old(self)@, level, tag@, message@),
    {
        let mut line = self.level_prefix(level);
        line.push_str(" ");
        line.push_str(tag);
        line.push_str(" ");
        line.push_str(message);
        line.push_str("\n");
        let mut text = self.clearing_text();
        text.push_str(line.as_str());
        self.put(text.as_str(), false);
    }

    /// Writes a piece of the answer.
    pub fn write_answer_delta(&mut self, delta: &str)
        ensures
            final(self)@ == wrote(old(self)@, clearing(old(self)@) + delta@, false),
    {
        let mut text = self.clearing_text();
        text.push_str(delta);
        self.put(text.as_str(), false);
    }

    /// Ends the line of the answer.
    pub fn finish_answer(&mut self)
        ensures
            final(self)@ == wrote(old(self)@, clearing(old(self)@) + "\n"@, false),
    {
        let mut text = self.clearing_text();
        text.push_str("\n");
        self.put(text.as_str(), false);
    }

    /// Writes the words of an error.
    pub fn write_error(&mut self, error: &str)
        ensures
            final(self)@ == with_log(
                old(self)@,
                LogLevel::Failure,
                "[RUN]"@,
                "error: "@ + error@,
            ),
    {
        let mut message: String = "error: ".to_owned();
        message.push_str(error);
        self.log_event(LogLevel::Failure, "[RUN]", message.as_str());
    }

    /// Shows a report of the agent.
    pub fn handle_agent_event(&mut self, event: &AgentEvent)
        ensures
            final(self)@ == with_agent_event(old(self)@, event@),
    {
        match event {
            AgentEvent::ModelStarted { iteration, model } => {
                let mut status: String = "thinking | iter ".to_owned();
                status.push_str(decimal(*iteration as u128).as_str());
                status.push_str(" | model ");
                status.push_str(model.as_str());
                self.set_status(status.as_str());
            },
            AgentEvent::ModelCompleted {
                iteration,
                model,
                duration_ms,
                usage_totals,
                tool_call_count,
            } => {
                let mut message: String = model.clone();
                message.push_str(" iter=");
                message.push_str(decimal(*iteration as u128).as_str());
                message.push_str(" completed in ");
                message.push_str(format_duration(*duration_ms).as_str());
                message.push_str(" tokens=");
                message.push_str(format_tokens(usage_totals.total_tokens).as_str());
                message.push_str(" cache=");
                message.push_str(
                    format_cache_percent(
                        usage_totals.cached_input_tokens,
                        usage_totals.input_tokens,
                    ).as_str(),
                );
                message.push_str(" tool_calls=");
                message.push_str(decimal(*tool_call_count as u128).as_str());
                self.log_event(LogLevel::Success, "[MODEL]", message.as_str());
            },
            AgentEvent::ToolStarted { tag, name, call_id } => {
                let mut status: String = "tool ".to_owned();
                status.push_str(name.as_str());
                status.push_str(" running | ");
                status.push_str(tag.as_str());
                status.push_str(" call=");
                status.push_str(call_id.as_str());
                self.set_status(status.as_str());
            },
            AgentEvent::ToolCompleted {
                tag,
                name,
                call_id,
                ok,
                duration_ms,
                exit_code,
                stdout_bytes,
                stderr_bytes,
                truncated,
            } => {
                let mut message: String = name.clone();
                message.push_str(" call=");
                message.push_str(call_id.as_str());
                message.push_str(" completed in ");
                message.push_str(format_duration(*duration_ms).as_str());
                match exit_code {
                    Some(code) => {
                        message.push_str(" exit=");
                        message.push_str(signed_decimal(*code).as_str());
                    },
                    None => {},
                }
                match stdout_bytes {
                    Some(n) => {
                        message.push_str(" stdout=");
                        message.push_str(format_bytes(*n).as_str());
                    },
                    None => {},
                }
                match stderr_bytes {
                    Some(n) => {
                        message.push_str(" stderr=");
                        message.push_str(format_bytes(*n).as_str());
                    },
                    None => {},
                }
                if *truncated {
                    message.push_str(" truncated=true");
                }
                let level = if *ok {
                    LogLevel::Success
                } else {
                    LogLevel::Failure
                };
                self.log_event(level, tag.as_str(), message.as_str());
            },
        }
    }

    /// Writes what a session has used, where it had a turn.
    pub fn write_session_summary(&mut self, stats: &SessionStats)
        ensures
            final(self)@ == (if stats@.turns == 0 {
                old(self)@
            } else {
                with_log(
                    old(self)@,
                    LogLevel::Success,
                    "[SESSION]"@,
                    summary_message(stats@),
                )
            }),
    {
        if stats.turns == 0 {
            return ;
        }
        let usage = &stats.model_usage;
        let mut message: String = "complete turns=".to_owned();
        message.push_str(decimal(stats.turns as u128).as_str());
        message.push_str(" failed_turns=");
        message.push_str(decimal(stats.failed_turns as u128).as_str());
        message.push_str(" model_calls=");
        message.push_str(decimal(usage.model_calls as u128).as_str());
        message.push_str(" tokens=");
        message.push_str(format_tokens(usage.total_tokens).as_str());
        message.push_str(" cache=");
        message.push_str(
            format_cache_percent(usage.cached_input_tokens, usage.input_tokens).as_str(),
        );
        message.push_str(" reasoning=");
        message.push_str(format_tokens(usage.reasoning_tokens).as_str());
        message.push_str(" tools=");
        message.push_str(decimal(stats.tool_usage.tool_calls as u128).as_str());
        message.push_str(" failed_tools=");
        message.push_str(decimal(stats.tool_usage.failed_tool_calls as u128).as_str());
        message.push_str(" tool_time=");
        message.push_str(format_duration(stats.tool_usage.duration_ms).as_str());
        self.log_event(LogLevel::Success, "[SESSION]", message.as_str());
    }

    /// Takes what was written out of the buffer.
    pub fn take_output(&mut self) -> (r: Vec<u8>)
        ensures
            r@ == old(self)@.written,
            final(self)@ == (TerminalView { written: Seq::empty(), ..old(self)@ }),
    {
        let mut out: Vec<u8> = Vec::new();
        out.append(&mut self.writer);
        assert(self@ =~= TerminalView { written: Seq::empty(), ..old(self)@ });
        out
    }

    /// What was written.
    pub fn into_inner(self) -> (r: Vec<u8>)
        ensures
            r@ == self@.written,
    {
        self.writer
    }
}

/// A line of the log that is written over a status line starts by clearing it,
/// and leaves none.
pub proof fn status_is_cleared_first(
    terminal: TerminalView,
    level: LogLevel,
    tag: Seq<char>,
    message: Seq<char>,
)
    requires
        terminal.status_visible,
    ensures
        with_log(terminal, level, tag, message) == wrote(
            terminal,
            CLEAR_LINE@ + log_line(level, terminal.color_enabled, tag, message),
            false,
        ),
        !with_log(terminal, level, tag, message).status_visible,
{
}

/// What is written stays UTF-8.
pub proof fn output_stays_utf8(terminal: TerminalView, text: Seq<char>, status_visible: bool)
    requires
        valid_utf8(terminal.written),
    ensures
        valid_utf8(wrote(terminal, text, status_visible).written),
{
    broadcast use vstd::utf8::encode_utf8_valid_utf8, vstd::utf8::valid_utf8_concat;

    assert(valid_utf8(encode_utf8(text)));
}

/// What is written goes behind what was written before, and changes no setting.
pub proof fn output_goes_behind(terminal: TerminalView, text: Seq<char>, status_visible: bool)
    ensures
        ({
            let after = wrote(terminal, text, status_visible);
            &&& after.written.take(terminal.written.len() as int) == terminal.written
            &&& after.written.skip(terminal.written.len() as int) == encode_utf8(text)
            &&& after.status_visible == status_visible
            &&& after.status_enabled == terminal.status_enabled
            &&& after.color_enabled == terminal.color_enabled
        }),
{
    let after = wrote(terminal, text, status_visible).written;
    assert(after.take(terminal.written.len() as int) =~= terminal.written);
    assert(after.skip(terminal.written.len() as int) =~= encode_utf8(text));
}

/// Whether a terminal shows a text behind what it showed before.
pub open spec fn shows(before: TerminalView, after: TerminalView, text: Seq<char>) -> bool {
    after.written == before.written + encode_utf8(text)
}

/// A status line is shown only where these are wanted: then the line that was there
/// is cleared, the status takes its place, and is visible.
pub proof fn status_lines_replace_each_other(terminal: TerminalView, status: Seq<char>)
    ensures
        ({
            let after = with_status(terminal, status);
            &&& !terminal.status_enabled ==> after == terminal
            &&& terminal.status_enabled ==> after.status_visible && shows(
                terminal,
                after,
                "\r\x1b[2K"@ + status,
            )
            &&& after.status_enabled == terminal.status_enabled
            &&& after.color_enabled == terminal.color_enabled
        }),
{
}

/// A line of the log ends with its message, behind its tag, behind a mark that tells
/// success from failure, in color only where that is wanted.
pub proof fn log_lines_tell_their_message(
    level: LogLevel,
    color_enabled: bool,
    tag: Seq<char>,
    message: Seq<char>,
)
    ensures
        ({
            let line = log_line(level, color_enabled, tag, message);
            let mark = match level {
                LogLevel::Success => "[OK]"@,
                LogLevel::Failure => "[ERR]"@,
            };
            &&& ends_in(line, " "@ + tag + " "@ + message + "\n"@)
            &&& occurs(line, mark)
            &&& !color_enabled ==> line == mark + " "@ + tag + " "@ + message + "\n"@
        }),
{
    broadcast use whole_occurs, start_occurs, last_part_occurs;

    let line = log_line(level, color_enabled, tag, message);
    let mark = level_mark(level, color_enabled);
    let end = " "@ + tag + " "@ + message + "\n"@;
    joining_is_associative(mark, " "@ + tag + " "@ + message, "\n"@);
    joining_is_associative(mark, " "@ + tag + " "@, message);
    joining_is_associative(mark, " "@ + tag, " "@);
    joining_is_associative(mark, " "@, tag);
    assert(line == mark + end);
    assert(line.subrange(mark.len() as int, line.len() as int) =~= end);
}

/// A line of the log clears a status line, is shown behind what was written, and
/// leaves no status line.
pub proof fn log_lines_are_shown(
    terminal: TerminalView,
    level: LogLevel,
    tag: Seq<char>,
    message: Seq<char>,
)
    ensures
        ({
            let after = with_log(terminal, level, tag, message);
            let line = log_line(level, terminal.color_enabled, tag, message);
            &&& !after.status_visible
            &&& terminal.status_visible ==> shows(terminal, after, "\r\x1b[2K"@ + line)
            &&& !terminal.status_visible ==> shows(terminal, after, line)
            &&& after.status_enabled == terminal.status_enabled
            &&& after.color_enabled == terminal.color_enabled
        }),
{
    let line = log_line(level, terminal.color_enabled, tag, message);
    assert(Seq::<char>::empty() + line =~= line);
}

/// What is said of the model's answer tells the model, the iteration, the time, the
/// tokens, the share that came from the cache, and how many calls it asks for.
pub proof fn model_messages_tell_the_call(
    model: Seq<char>,
    iteration: nat,
    duration_ms: nat,
    total_tokens: nat,
    cached_input_tokens: nat,
    input_tokens: nat,
    tool_call_count: nat,
)
    ensures
        ({
            let message = model_message(
                model,
                iteration,
                duration_ms,
                total_tokens,
                cached_input_tokens,
                input_tokens,
                tool_call_count,
            );
            &&& occurs(message, model)
            &&& occurs(message, " iter="@ + digits(iteration))
            &&& occurs(message, " completed in "@ + duration_text(duration_ms))
            &&& occurs(message, " tokens="@ + tokens_text(total_tokens))
            &&& occurs(message, " cache="@ + cache_text(cached_input_tokens, input_tokens))
            &&& occurs(message, " tool_calls="@ + digits(tool_call_count))
        }),
{
    broadcast use whole_occurs, start_occurs, last_part_occurs, last_parts_occur;

}

/// What is said of a tool tells its name, its call, its time and, of a command, its
/// exit code, the length of each stream, and whether either was cut short.
pub proof fn tool_messages_tell_the_result(
    name: Seq<char>,
    call_id: Seq<char>,
    duration_ms: nat,
    exit_code: Option<i64>,
    stdout_bytes: Option<u64>,
    stderr_bytes: Option<u64>,
    truncated: bool,
)
    ensures
        ({
            let message = tool_message(
                name,
                call_id,
                duration_ms,
                exit_code,
                stdout_bytes,
                stderr_bytes,
                truncated,
            );
            &&& begins_with(message, name)
            &&& occurs(message, " call="@ + call_id)
            &&& occurs(message, " completed in "@ + duration_text(duration_ms))
            &&& exit_code matches Some(code) ==> occurs(
                message,
                " exit="@ + signed_digits(code as int),
            )
            &&& stdout_bytes matches Some(n) ==> occurs(message, " stdout="@ + bytes_text(n as nat))
            &&& stderr_bytes matches Some(n) ==> occurs(message, " stderr="@ + bytes_text(n as nat))
            &&& truncated ==> occurs(message, " truncated=true"@)
            &&& exit_code is None && stdout_bytes is None && stderr_bytes is None && !truncated
                ==> ends_in(message, " completed in "@ + duration_text(duration_ms))
        }),
{
    broadcast use whole_occurs, start_occurs, last_part_occurs, last_parts_occur;

    let message = tool_message(
        name,
        call_id,
        duration_ms,
        exit_code,
        stdout_bytes,
        stderr_bytes,
        truncated,
    );
    assert(message.subrange(0, name.len() as int) =~= name);
    if exit_code is None && stdout_bytes is None && stderr_bytes is None && !truncated {
        let end = " completed in "@ + duration_text(duration_ms);
        assert(message.subrange(message.len() - end.len(), message.len() as int) =~= end);
    }
}

/// What is said at the end of a session tells each of its numbers, under its name.
pub proof fn summaries_tell_the_session(stats: SessionView)
    ensures
        ({
            let message = summary_message(stats);
            &&& occurs(message, "complete turns="@ + digits(stats.turns))
            &&& occurs(message, " failed_turns="@ + digits(stats.failed_turns))
            &&& occurs(message, " model_calls="@ + digits(stats.model_usage.model_calls))
            &&& occurs(message, " tokens="@ + tokens_text(stats.model_usage.total_tokens))
            &&& occurs(
                message,
                " cache="@ + cache_text(
                    stats.model_usage.cached_input_tokens,
                    stats.model_usage.input_tokens,
                ),
            )
            &&& occurs(message, " reasoning="@ + tokens_text(stats.model_usage.reasoning_tokens))
            &&& occurs(message, " tools="@ + digits(stats.tool_usage.tool_calls))
            &&& occurs(message, " failed_tools="@ + digits(stats.tool_usage.failed_tool_calls))
            &&& occurs(message, " tool_time="@ + duration_text(stats.tool_usage.duration_ms))
        }),
{
    broadcast use whole_occurs, start_occurs, last_part_occurs, last_parts_occur;

}

/// A report of the agent is shown as what it is: what has started as a status line
/// that names it, what has come back as a line of the log that tells it, marked as
/// a failure where a tool failed.
pub proof fn reports_are_shown_as_they_are(terminal: TerminalView, event: AgentEventView)
    ensures
        match event {
            AgentEventView::ModelStarted { iteration, model } => exists|status: Seq<char>|
                with_agent_event(terminal, event) == #[trigger] with_status(terminal, status)
                    && occurs(status, model) && occurs(status, digits(iteration)),
            AgentEventView::ToolStarted { tag, name, call_id } => exists|status: Seq<char>|
                with_agent_event(terminal, event) == #[trigger] with_status(terminal, status)
                    && occurs(status, name) && occurs(status, tag) && occurs(
                    status,
                    "call="@ + call_id,
                ),
            AgentEventView::ModelCompleted {
                iteration,
                model,
                duration_ms,
                usage_totals,
                tool_call_count,
            } => with_agent_event(terminal, event) == with_log(
                terminal,
                LogLevel::Success,
                "[MODEL]"@,
                model_message(
                    model,
                    iteration,
                    duration_ms,
                    usage_totals.total_tokens,
                    usage_totals.cached_input_tokens,
                    usage_totals.input_tokens,
                    tool_call_count,
                ),
            ),
            AgentEventView::ToolCompleted {
                tag,
                name,
                call_id,
                ok,
                duration_ms,
                exit_code,
                stdout_bytes,
                stderr_bytes,
                truncated,
            } => {
                let message = tool_message(
                    name,
                    call_id,
                    duration_ms,
                    exit_code,
                    stdout_bytes,
                    stderr_bytes,
                    truncated,
                );
                &&& ok ==> with_agent_event(terminal, event) == with_log(
                    terminal,
                    LogLevel::Success,
                    tag,
                    message,
                )
                &&& !ok ==> with_agent_event(terminal, event) == with_log(
                    terminal,
                    LogLevel::Failure,
                    tag,
                    message,
                )
            },
        },
{
    broadcast use whole_occurs, start_occurs, last_part_occurs, last_parts_occur;

    match event {
        AgentEventView::ModelStarted { iteration, model } => {
            let status = "thinking | iter "@ + digits(iteration) + " | model "@ + model;
            assert(with_agent_event(terminal, event) == with_status(terminal, status));
        },
        AgentEventView::ToolStarted { tag, name, call_id } => {
            let status = "tool "@ + name + " running | "@ + tag + " call="@ + call_id;
            assert(with_agent_event(terminal, event) == with_status(terminal, status));
            reveal_strlit(" call=");
            reveal_strlit("call=");
            assert(" call="@ =~= " "@.take(0) + " call="@.take(1) + "call="@);
            let lead = "tool "@ + name + " running | "@ + tag;
            joining_is_associative(lead, " call="@.take(1), "call="@);
            assert(" call="@ =~= " call="@.take(1) + "call="@);
            assert(status == lead + " call="@.take(1) + "call="@ + call_id);
        },
        _ => {},
    }
}

/// The share that came from the cache is the whole number of per cent of the input
/// that it makes up, where there is any input and the product can be counted.
pub proof fn cache_shares_are_per_cent(cached_tokens: nat, input_tokens: nat)
    requires
        100 * cached_tokens <= u64::MAX,
        input_tokens > 0,
    ensures
        ({
            let text = cache_text(cached_tokens, input_tokens);
            let share = worth(text.drop_last());
            &&& text.last() == '%'
            &&& share * input_tokens <= 100 * cached_tokens < (share + 1) * input_tokens
        }),
{
    reveal_strlit("%");
    let share = (100 * cached_tokens) / input_tokens;
    digits_are_worth_the_number(share);
    assert((digits(share) + "%"@).drop_last() =~= digits(share));
    lemma_fundamental_div_mod((100 * cached_tokens) as int, input_tokens as int);
    assert(share * input_tokens <= 100 * cached_tokens < (share + 1) * input_tokens)
        by (nonlinear_arith)
        requires
            100 * cached_tokens == input_tokens * share + (100 * cached_tokens) % input_tokens,
            0 <= (100 * cached_tokens) % input_tokens < input_tokens,
    ;
}

/// Numbers below the first unit are shown exactly; above it, the unit stands behind
/// the number of units.
pub proof fn amounts_are_shown_in_their_unit(n: nat)
    ensures
        n < 1_000 ==> worth(tokens_text(n)) == n,
        1_000 <= n < 1_000_000 ==> tokens_text(n) == scaled_text(n, 1_000) + "k"@,
        1_000_000 <= n ==> tokens_text(n) == scaled_text(n, 1_000_000) + "m"@,
        n < 1_000 ==> worth(duration_text(n).take(duration_text(n).len() - 2)) == n && ends_in(
            duration_text(n),
            "ms"@,
        ),
        1_000 <= n ==> duration_text(n) == scaled_text(n, 1_000) + "s"@,
        n < 1_024 ==> worth(bytes_text(n).drop_last()) == n && ends_in(bytes_text(n), "B"@),
        1_024 <= n < 1_048_576 ==> bytes_text(n) == scaled_text(n, 1_024) + "KB"@,
        1_048_576 <= n ==> bytes_text(n) == scaled_text(n, 1_048_576) + "MB"@,
{
    digits_are_worth_the_number(n);
    reveal_strlit("ms");
    reveal_strlit("B");
    let ms = digits(n) + "ms"@;
    assert(ms.take(ms.len() - 2) =~= digits(n));
    assert(ms.subrange(ms.len() - 2, ms.len() as int) =~= "ms"@);
    let b = digits(n) + "B"@;
    assert(b.drop_last() =~= digits(n));
    assert(b.subrange(b.len() - 1, b.len() as int) =~= "B"@);
}

/// A line is cleared exactly where a status line is visible.
pub proof fn only_status_lines_are_cleared(terminal: TerminalView)
    ensures
        terminal.status_visible ==> clearing(terminal) == "\r\x1b[2K"@,
        !terminal.status_visible ==> clearing(terminal).len() == 0,
{
}

/// In color the mark of a success is green and that of a failure red, and the color
/// ends with the mark; without color the mark is bare.
pub proof fn marks_are_green_or_red(color_enabled: bool)
    ensures
        color_enabled ==> level_mark(LogLevel::Success, color_enabled) == "\x1b[32m"@ + "[OK]"@
            + "\x1b[0m"@,
        color_enabled ==> level_mark(LogLevel::Failure, color_enabled) == "\x1b[31m"@ + "[ERR]"@
            + "\x1b[0m"@,
        !color_enabled ==> level_mark(LogLevel::Success, color_enabled) == "[OK]"@,
        !color_enabled ==> level_mark(LogLevel::Failure, color_enabled) == "[ERR]"@,
{
}

} // verus!
