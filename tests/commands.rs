use para_editor::commands::{format_mode, Command, Handler};
use para_editor::editor::{CommandError, Editor, FormatMode};
use para_editor::index::word_index;
use para_editor::input::{free_text, is_exit, is_keyword, UserInput};
use para_editor::numeral::{parse_usize, push_decimal};
use para_editor::render::{index_lines, render_lines};
use para_editor::replace::replace_text;
use para_editor::session::{get_command_handler, Session};
use para_editor::text::{split_words, trim_text};
use para_editor::wrap::wrap_paragraph;

fn line(s: &str) -> UserInput {
    UserInput::from_line(s)
}

fn texts(v: &[&str]) -> Vec<String> {
    v.iter().map(|s| s.to_string()).collect()
}

fn run(session: &mut Session, l: &str, answers: &[&str]) -> Result<Vec<String>, CommandError> {
    session.execute(&line(l), &texts(answers))
}

fn store(session: &Session) -> Vec<String> {
    session.editor().paragraphs().clone()
}

fn session_with(paragraphs: &[&str]) -> Session {
    let mut s = Session::new();
    for p in paragraphs {
        run(&mut s, "add", &[p]).unwrap();
    }
    s
}

#[test]
fn adds_without_index_append_in_call_order() {
    let mut s = Session::new();
    for (n, t) in ["first", "second", "third"].iter().enumerate() {
        assert_eq!(run(&mut s, "add", &[t]), Ok(vec![]));
        assert_eq!(s.editor().len(), n + 1);
    }
    assert_eq!(store(&s), texts(&["first", "second", "third"]));
}

#[test]
fn add_at_index_inserts_and_at_length_appends() {
    let mut s = session_with(&["a", "c"]);
    run(&mut s, "add 1", &["b"]).unwrap();
    run(&mut s, "add 3", &["d"]).unwrap();
    assert_eq!(store(&s), texts(&["a", "b", "c", "d"]));
    assert_eq!(run(&mut s, "add 5", &["x"]), Err(CommandError::IndexOutOfBounds));
    assert_eq!(store(&s), texts(&["a", "b", "c", "d"]));
}

#[test]
fn dummy_inserts_placeholder() {
    let mut s = session_with(&["a"]);
    run(&mut s, "dummy 0", &[]).unwrap();
    run(&mut s, "DUMMY", &[]).unwrap();
    assert_eq!(
        store(&s),
        texts(&["this is a dummy paragraph text", "a", "this is a dummy paragraph text"])
    );
}

#[test]
fn delete_then_print_shifts_later_paragraphs() {
    let mut s = session_with(&["zero", "one", "two", "three"]);
    run(&mut s, "del 1", &[]).unwrap();
    let shown = run(&mut s, "print", &[]).unwrap();
    assert_eq!(shown, texts(&["0: zero", "1: two", "2: three"]));
    assert!(!shown.iter().any(|l| l.contains("one")));
}

#[test]
fn delete_without_index_removes_last() {
    let mut s = session_with(&["a", "b"]);
    run(&mut s, "del", &[]).unwrap();
    assert_eq!(store(&s), texts(&["a"]));
    assert_eq!(run(&mut s, "del 1", &[]), Err(CommandError::IndexOutOfBounds));
}

#[test]
fn replace_absent_search_keeps_text() {
    let mut s = session_with(&["hello world"]);
    run(&mut s, "replace 0", &["xyz", "abc"]).unwrap();
    assert_eq!(store(&s), texts(&["hello world"]));
}

#[test]
fn replace_all_occurrences_in_last_paragraph() {
    let mut s = session_with(&["a a", "b a b a"]);
    run(&mut s, "replace", &["a", "cc"]).unwrap();
    assert_eq!(store(&s), texts(&["a a", "b cc b cc"]));
    run(&mut s, "replace 0", &["a a", "x"]).unwrap();
    assert_eq!(store(&s), texts(&["x", "b cc b cc"]));
}

#[test]
fn replace_text_matches_str_replace() {
    for (t, p, r) in [("aaaa", "aa", "b"), ("ab", "", "X"), ("", "", "X"), ("abc", "c", ""), ("héllo", "é", "e")] {
        assert_eq!(replace_text(t, p, r), t.replace(p, r));
    }
}

#[test]
fn index_reports_words_in_more_than_three_paragraphs() {
    let mut s = session_with(&["a b c", "a b", "a", "a d", "a e"]);
    let shown = run(&mut s, "index", &[]).unwrap();
    assert_eq!(shown, texts(&["a: 0, 1, 2, 3, 4"]));
}

#[test]
fn index_omits_word_in_exactly_three_paragraphs() {
    let mut s = session_with(&["w", "w x", "w", "x", "x", "x"]);
    let shown = run(&mut s, "index", &[]).unwrap();
    assert_eq!(shown, texts(&["x: 1, 3, 4, 5"]));
    let entries = word_index(&texts(&["w", "w", "w"]));
    assert!(entries.is_empty());
    assert!(index_lines(&entries).is_empty());
}

#[test]
fn format_fix_then_print_wraps_at_last_space() {
    let mut s = session_with(&["hello world foo", "abcdefghijklmnop", "short"]);
    assert_eq!(run(&mut s, "format fix 10", &[]), Ok(vec![]));
    assert_eq!(s.mode(), FormatMode::Fix(10));
    let shown = run(&mut s, "print", &[]).unwrap();
    assert_eq!(
        shown,
        texts(&["0: hello", "world foo", "1: abcdefghij", "klmnop", "2: short"])
    );
    run(&mut s, "format RAW", &[]).unwrap();
    assert_eq!(s.mode(), FormatMode::Raw);
}

#[test]
fn wrap_breaks_at_space_within_width_plus_one() {
    assert_eq!(wrap_paragraph("abcdefghij klm", 10), texts(&["abcdefghij", "klm"]));
    assert_eq!(wrap_paragraph("abc defghijklmnop", 10), texts(&["abc", "defghijklm", "nop"]));
    assert_eq!(wrap_paragraph("", 3), texts(&[""]));
}

#[test]
fn non_numeric_index_fails_and_keeps_store() {
    let mut s = session_with(&["a", "b"]);
    for l in ["add x", "dummy -1", "del one", "replace 1.5"] {
        assert_eq!(run(&mut s, l, &["q", "r"]), Err(CommandError::InvalidIndexSyntax));
        assert_eq!(store(&s), texts(&["a", "b"]));
    }
}

#[test]
fn empty_store_delete_and_replace_fail() {
    let mut s = Session::new();
    assert_eq!(run(&mut s, "del", &[]), Err(CommandError::NothingToDelete));
    assert_eq!(run(&mut s, "replace 0", &["a", "b"]), Err(CommandError::NothingToReplace));
    assert!(s.prompts(&line("replace")).is_empty());
}

#[test]
fn add_then_identity_replace_keeps_text() {
    let mut s = Session::new();
    run(&mut s, "add", &["some words here"]).unwrap();
    run(&mut s, "replace", &["words", "words"]).unwrap();
    assert_eq!(store(&s), texts(&["some words here"]));
}

#[test]
fn unknown_and_format_errors() {
    let mut s = Session::new();
    assert_eq!(
        run(&mut s, "Frobnicate 1", &[]),
        Err(CommandError::UnknownCommand("Frobnicate".to_string()))
    );
    assert_eq!(run(&mut s, "format", &[]), Err(CommandError::InvalidFormatMode));
    assert_eq!(run(&mut s, "format raw extra", &[]), Err(CommandError::InvalidFormatMode));
    assert_eq!(run(&mut s, "format fix", &[]), Err(CommandError::InvalidFormatMode));
    assert_eq!(run(&mut s, "format fix wide", &[]), Err(CommandError::InvalidWidthSyntax));
    assert_eq!(run(&mut s, "format fix 0", &[]), Err(CommandError::InvalidWidthSyntax));
    assert_eq!(s.mode(), FormatMode::Raw);
    assert_eq!(CommandError::IndexOutOfBounds.message(), "given Paragraph does not exist");
    assert_eq!(CommandError::UnknownCommand(String::new()).message(), "command invalid");
}

#[test]
fn dispatch_is_case_insensitive_and_mode_dependent() {
    assert_eq!(get_command_handler(&line("PrInT"), &FormatMode::Raw), Ok(Handler::Print));
    assert_eq!(get_command_handler(&line("print"), &FormatMode::Fix(7)), Ok(Handler::PrintFix(7)));
    assert_eq!(get_command_handler(&line("Add 3"), &FormatMode::Raw), Ok(Handler::Add));
    assert_eq!(
        get_command_handler(&line(""), &FormatMode::Raw),
        Err(CommandError::UnknownCommand(String::new()))
    );
    assert_eq!(format_mode(&texts(&["format", "fix", "+12"])), Ok(FormatMode::Fix(12)));
}

#[test]
fn handler_runs_through_trait() {
    let mut e = Editor::new();
    let r = Handler::Add.handle(&line("add"), &texts(&["p"]), &mut e);
    assert!(r.is_ok());
    let eff = Handler::Format.handle(&line("format fix 4"), &vec![], &mut e).unwrap();
    assert_eq!(eff.mode, Some(FormatMode::Fix(4)));
    assert_eq!(render_lines(e.paragraphs(), FormatMode::Raw), texts(&["0: p"]));
    assert_eq!(Handler::Replace.prompts(&e).len(), 2);
    assert_eq!(Handler::Add.prompts(&e), texts(&["text to insert"]));
}

#[test]
fn exit_on_keyword_or_empty_line() {
    assert!(is_exit(&line("EXIT")));
    assert!(is_exit(&line("   ")));
    assert!(!is_exit(&line("exits")));
    assert!(is_keyword("Fix", "fix"));
    assert!(!is_keyword("fix", "FIX"));
}

#[test]
fn parses_indices_like_usize_from_str() {
    for t in ["0", "42", "+7", "007", "", "+", "-1", "1a", "18446744073709551616", "99999999999999999999"] {
        assert_eq!(parse_usize(t), t.parse::<usize>().ok(), "{}", t);
    }
    let mut out = String::from("n=");
    push_decimal(&mut out, 1207);
    assert_eq!(out, "n=1207");
}

#[test]
fn tokens_and_text_are_trimmed() {
    assert_eq!(line("\u{a0} add  \t 3 \n").tokens(), &texts(&["add", "3"]));
    assert_eq!(split_words(" a\u{a0}b  c "), texts(&["a\u{a0}b", "c"]));
    assert_eq!(trim_text("\u{3000} x y \r\n"), "x y");
    assert_eq!(free_text("  some text \n"), "some text");
}
