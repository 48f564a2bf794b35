//! A session at the terminal: what a line of input means, and how an answer is
//! shown.

use crate::config::either;
use crate::config::or_default;
use crate::runs::fresh_id;
use crate::runs::is_uuid_v4;
use crate::text::ascii_lower;
use crate::text::is_blank;
use crate::text::is_white;
use crate::text::middle_occurs;
use crate::text::occurs;
use crate::text::opt_view;
use crate::text::same;
use crate::text::to_ascii_lowercase;
use crate::text::trim;
use crate::text::trimmed;
use crate::text::trimmed_text_is_bare;
use vstd::prelude::*;

verus! {

/// What a line of input asks for.
#[derive(Debug)]
pub enum UserInput {
    EndOfInput,
    Leave,
    Nothing,
    Prompt(String),
}

/// What such a line means.
#[verifier::ext_equal]
pub enum UserInputView {
    EndOfInput,
    Leave,
    Nothing,
    Prompt(Seq<char>),
}

impl View for UserInput {
    type V = UserInputView;

    open spec fn view(&self) -> UserInputView {
        match self {
            UserInput::EndOfInput => UserInputView::EndOfInput,
            UserInput::Leave => UserInputView::Leave,
            UserInput::Nothing => UserInputView::Nothing,
            UserInput::Prompt(text) => UserInputView::Prompt(text@),
        }
    }
}

/// What a line of input asks for, given how many bytes were read for it.
pub open spec fn input_of(bytes_read: usize, line: Seq<char>) -> UserInputView {
    let input = trimmed(line);
    if bytes_read == 0 {
        UserInputView::EndOfInput
    } else if ascii_lower(input) == "exit"@ || ascii_lower(input) == "quit"@ {
        UserInputView::Leave
    } else if input.len() == 0 {
        UserInputView::Nothing
    } else {
        UserInputView::Prompt(input)
    }
}

/// Reads a line of input.
pub fn read_input(bytes_read: usize, line: &str) -> (r: UserInput)
    ensures
        r@ == input_of(bytes_read, line@),
{
    if bytes_read == 0 {
        return UserInput::EndOfInput;
    }
    let input = trim(line);
    let word = to_ascii_lowercase(input.as_str());
    if same(word.as_str(), "exit") || same(word.as_str(), "quit") {
        return UserInput::Leave;
    }
    if input.as_str().is_empty() {
        return UserInput::Nothing;
    }
    UserInput::Prompt(input)
}

/// What is left to show of an answer at the end of its turn.
#[derive(Debug, Clone, Copy, PartialEq, Eq, Structural)]
pub enum AnswerDisplay {
    EndLine,
    WriteAndEndLine,
    Nothing,
}

/// What is left to show of an answer: the end of its line where it was streamed;
/// else the whole of it, unless it is blank.
pub open spec fn display_of(streamed: bool, answer: Seq<char>) -> AnswerDisplay {
    if streamed {
        AnswerDisplay::EndLine
    } else if trimmed(answer).len() > 0 {
        AnswerDisplay::WriteAndEndLine
    } else {
        AnswerDisplay::Nothing
    }
}

/// What is left to show of an answer at the end of its turn.
pub fn answer_display(streamed: bool, answer: &str) -> (r: AnswerDisplay)
    ensures
        r == display_of(streamed, answer@),
{
    if streamed {
        AnswerDisplay::EndLine
    } else if !is_blank(answer) {
        AnswerDisplay::WriteAndEndLine
    } else {
        AnswerDisplay::Nothing
    }
}

/// The key under which a session's prompts are cached, for an identifier.
pub fn cache_key_for(id: &str) -> (r: String)
    ensures
        r@ == "ferrix-"@ + id@,
{
    let mut key: String = "ferrix-".to_owned();
    key.push_str(id);
    key
}

/// A key under which a new session's prompts are cached.
pub fn session_cache_key() -> (r: String)
    ensures
        exists|id: Seq<char>| is_uuid_v4(id) && r@ == "ferrix-"@ + id,
{
    let id = fresh_id();
    let key = cache_key_for(id.as_str());
    assert(is_uuid_v4(id@) && key@ == "ferrix-"@ + id@);
    key
}

/// What is logged: what `FERRIX_LOG` says, else what `RUST_LOG` says, else
/// warnings.
pub fn log_filter(ferrix_log: Option<String>, rust_log: Option<String>) -> (r: String)
    ensures
        r@ == or_default(either(opt_view(ferrix_log), opt_view(rust_log)), "warn"@),
{
    match ferrix_log {
        Some(filter) => filter,
        None => match rust_log {
            Some(filter) => filter,
            None => "warn".to_owned(),
        },
    }
}

/// A line asks for an answer to its text without the white space around it, unless
/// it is blank or says, however it is spelled, that the user leaves. Where nothing
/// was read, the input has ended, whatever the line holds.
pub proof fn lines_are_read_as_they_are_meant(bytes_read: usize, line: Seq<char>)
    ensures
        input_of(bytes_read, line) is EndOfInput <==> bytes_read == 0,
        input_of(bytes_read, line) is Leave <==> bytes_read > 0 && (ascii_lower(trimmed(line))
            == "exit"@ || ascii_lower(trimmed(line)) == "quit"@),
        input_of(bytes_read, line) is Nothing <==> bytes_read > 0 && forall|i: int|
            0 <= i < line.len() ==> is_white(#[trigger] line[i]),
        input_of(bytes_read, line) matches UserInputView::Prompt(text) ==> text.len() > 0
            && !is_white(text[0]) && !is_white(text.last()) && occurs(line, text) && text
            == trimmed(line),
{
    trimmed_text_is_bare(line);
    reveal_strlit("exit");
    reveal_strlit("quit");
    let text = trimmed(line);
    assert(ascii_lower(text).len() == text.len());
    assert("exit"@.len() == 4 && "quit"@.len() == 4);
    let (before, after) = choose|before: Seq<char>, after: Seq<char>|
        #![trigger before + text + after]
        line == before + text + after;
    middle_occurs(before, text, after);
}

/// An answer that was streamed only needs the end of its line; any other is shown
/// whole, unless there is nothing in it but white space.
pub proof fn answers_are_shown_once(streamed: bool, answer: Seq<char>)
    ensures
        display_of(streamed, answer) == AnswerDisplay::EndLine <==> streamed,
        display_of(streamed, answer) == AnswerDisplay::Nothing <==> !streamed && forall|i: int|
            0 <= i < answer.len() ==> is_white(#[trigger] answer[i]),
        display_of(streamed, answer) == AnswerDisplay::WriteAndEndLine <==> !streamed && exists|
            i: int,
        |
            0 <= i < answer.len() && !is_white(#[trigger] answer[i]),
{
    trimmed_text_is_bare(answer);
}

} // verus!
