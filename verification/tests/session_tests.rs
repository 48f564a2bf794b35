use ferrix::session::answer_display;
use ferrix::session::cache_key_for;
use ferrix::session::log_filter;
use ferrix::session::read_input;
use ferrix::session::session_cache_key;
use ferrix::session::AnswerDisplay;
use ferrix::session::UserInput;

#[test]
fn lines_of_input_are_told_apart() {
    assert!(matches!(read_input(0, ""), UserInput::EndOfInput));
    assert!(matches!(read_input(5, " EXIT\n"), UserInput::Leave));
    assert!(matches!(read_input(5, "Quit\r\n"), UserInput::Leave));
    assert!(matches!(read_input(1, "\n"), UserInput::Nothing));
    match read_input(9, "  fix it \n") {
        UserInput::Prompt(text) => assert_eq!(text, "fix it"),
        other => panic!("{other:?}"),
    }
    assert!(matches!(read_input(8, "exit now"), UserInput::Prompt(_)));
}

#[test]
fn answers_are_shown_once() {
    assert_eq!(answer_display(true, "text"), AnswerDisplay::EndLine);
    assert_eq!(answer_display(true, ""), AnswerDisplay::EndLine);
    assert_eq!(answer_display(false, "text"), AnswerDisplay::WriteAndEndLine);
    assert_eq!(answer_display(false, " \n"), AnswerDisplay::Nothing);
}

#[test]
fn cache_keys_are_fresh() {
    assert_eq!(cache_key_for("7"), "ferrix-7");
    let first = session_cache_key();
    let second = session_cache_key();
    assert!(first.starts_with("ferrix-"));
    assert_eq!(first.len(), 43);
    assert_ne!(first, second);
}

#[test]
fn the_log_filter_has_a_default() {
    let some = |text: &str| Some(text.to_string());
    assert_eq!(log_filter(some("debug"), some("info")), "debug");
    assert_eq!(log_filter(None, some("info")), "info");
    assert_eq!(log_filter(None, None), "warn");
}
