use kanban::cli::{
    command_from_parts, command_of_inputs, gather_inputs, keep_captures, parse_cli_input,
    parse_cli_line, CliCommand, QUOTED_INPUT_PATTERN,
};
use kanban::edit::Edit;
use kanban::text::{blank, join_from, same_text, split_words};

fn strings(v: &[&str]) -> Vec<String> {
    v.iter().map(|s| s.to_string()).collect()
}

fn expect_edit(cmd: CliCommand) -> Edit {
    match cmd {
        CliCommand::Edit(e) => e,
        other => panic!("expected an edit, got {:?}", other),
    }
}

fn expect_pair(e: Edit, kind: &str) -> (String, String) {
    match (kind, e) {
        ("add", Edit::Add(a, b)) | ("rename", Edit::Rename(a, b)) | ("update", Edit::Update(a, b)) => (a, b),
        (_, other) => panic!("unexpected edit {:?}", other),
    }
}

fn expect_one(e: Edit, kind: &str) -> String {
    match (kind, e) {
        ("promote", Edit::Promote(a)) | ("demote", Edit::Demote(a)) | ("remove", Edit::Remove(a)) => a,
        (_, other) => panic!("unexpected edit {:?}", other),
    }
}

#[test]
fn split_words_on_any_white_space() {
    assert_eq!(split_words("  add\tthis  now \n"), strings(&["add", "this", "now"]));
    assert_eq!(split_words("a\u{3000}b\u{00A0}c\u{2003}d"), strings(&["a", "b", "c", "d"]));
    assert_eq!(split_words(""), Vec::<String>::new());
    assert_eq!(split_words(" \t "), Vec::<String>::new());
}

#[test]
fn blank_lines() {
    assert!(blank(""));
    assert!(blank(" \t\u{2028}"));
    assert!(!blank(" x "));
}

#[test]
fn join_from_index() {
    let parts = strings(&["a", "b", "c", "d"]);
    assert_eq!(join_from(&parts, 2, " "), "c d");
    assert_eq!(join_from(&parts, 0, "-"), "a-b-c-d");
    assert_eq!(join_from(&parts, 4, " "), "");
}

#[test]
fn same_text_compares_characters() {
    assert!(same_text("add", "add"));
    assert!(!same_text("add", "Add"));
}

#[test]
fn keep_captures_drops_blank_and_missing() {
    let caps = Some(vec![Some("a b".to_string()), Some("  ".to_string()), None, Some("c".to_string())]);
    assert_eq!(keep_captures(&caps), strings(&["a b", "c"]));
    assert_eq!(keep_captures(&None), Vec::<String>::new());
}

#[test]
fn gather_prefers_quoted_arguments() {
    let simple = strings(&["add", "\"my", "task\"", "x"]);
    let quoted = strings(&["my task", "second", "third"]);
    assert_eq!(gather_inputs(&simple, &quoted), strings(&["add", "my task", "second"]));
    assert_eq!(gather_inputs(&simple, &strings(&["only"])), strings(&["add", "only"]));
    assert_eq!(gather_inputs(&simple, &vec![]), strings(&["add", "\"my", "task\" x"]));
    assert_eq!(gather_inputs(&strings(&["list"]), &vec![]), strings(&["list"]));
    assert_eq!(gather_inputs(&vec![], &quoted), Vec::<String>::new());
}

#[test]
fn command_of_inputs_by_arity() {
    let (a, b) = expect_pair(expect_edit(command_of_inputs(&strings(&["add", "n", "c"]))), "add");
    assert_eq!((a.as_str(), b.as_str()), ("n", "c"));
    let (a, b) = expect_pair(expect_edit(command_of_inputs(&strings(&["rename", "n", "m"]))), "rename");
    assert_eq!((a.as_str(), b.as_str()), ("n", "m"));
    let (a, b) = expect_pair(expect_edit(command_of_inputs(&strings(&["update", "n", "c"]))), "update");
    assert_eq!((a.as_str(), b.as_str()), ("n", "c"));
    assert_eq!(expect_one(expect_edit(command_of_inputs(&strings(&["promote", "n"]))), "promote"), "n");
    assert_eq!(expect_one(expect_edit(command_of_inputs(&strings(&["demote", "n"]))), "demote"), "n");
    assert_eq!(expect_one(expect_edit(command_of_inputs(&strings(&["remove", "n"]))), "remove"), "n");
    assert!(matches!(command_of_inputs(&strings(&["promote", "n", "x"])), CliCommand::UnknownOrTooMany));
    assert!(matches!(command_of_inputs(&strings(&["add", "n"])), CliCommand::UnknownOrTooMany));
    assert!(matches!(command_of_inputs(&strings(&["exit"])), CliCommand::Exit));
    assert!(matches!(command_of_inputs(&strings(&["quit"])), CliCommand::Exit));
    assert!(matches!(command_of_inputs(&strings(&["list"])), CliCommand::List));
    assert!(matches!(command_of_inputs(&strings(&["help"])), CliCommand::Help));
    assert!(matches!(command_of_inputs(&strings(&["format"])), CliCommand::Format));
    assert!(matches!(command_of_inputs(&strings(&["dance"])), CliCommand::Unknown));
    assert!(matches!(command_of_inputs(&vec![]), CliCommand::NoInput));
}

#[test]
fn command_from_parts_uses_the_captures() {
    let simple = strings(&["add", "\"big", "job\"", "\"do", "it\""]);
    let caps = Some(vec![Some("big job".to_string()), Some("do it".to_string())]);
    let (a, b) = expect_pair(expect_edit(command_from_parts(&simple, &caps)), "add");
    assert_eq!((a.as_str(), b.as_str()), ("big job", "do it"));
    let (a, b) = expect_pair(expect_edit(command_from_parts(&strings(&["add", "x", "y", "z"]), &None)), "add");
    assert_eq!((a.as_str(), b.as_str()), ("x", "y z"));
}

#[test]
fn parse_quoted_line() {
    let (a, b) = expect_pair(expect_edit(parse_cli_line("add \"my task\" \"some contents\"")), "add");
    assert_eq!((a.as_str(), b.as_str()), ("my task", "some contents"));
    let (a, b) = expect_pair(expect_edit(parse_cli_line("rename \"old one\" \"new one\"")), "rename");
    assert_eq!((a.as_str(), b.as_str()), ("old one", "new one"));
}

#[test]
fn parse_plain_line() {
    let (a, b) = expect_pair(expect_edit(parse_cli_line("update task more words here")), "update");
    assert_eq!((a.as_str(), b.as_str()), ("task", "more words here"));
    assert_eq!(expect_one(expect_edit(parse_cli_line("promote task")), "promote"), "task");
}

#[test]
fn parse_skips_blank_quotes() {
    assert_eq!(expect_one(expect_edit(parse_cli_line("remove \"  \" \"card\"")), "remove"), "card");
}

#[test]
fn parse_odd_lines() {
    assert!(matches!(parse_cli_line("   "), CliCommand::NoInput));
    assert!(matches!(parse_cli_line("frobnicate"), CliCommand::Unknown));
    assert!(matches!(parse_cli_line("frob a b"), CliCommand::UnknownOrTooMany));
    assert!(matches!(parse_cli_line("add \"only one\""), CliCommand::UnknownOrTooMany));
}

#[test]
fn parse_input_drops_the_line_break() {
    assert!(matches!(parse_cli_input("quit\n"), CliCommand::Exit));
    assert!(matches!(parse_cli_input("list\n"), CliCommand::List));
    assert!(matches!(parse_cli_input(""), CliCommand::NoInput));
    assert!(matches!(parse_cli_input("listx"), CliCommand::List));
}

#[test]
fn quoted_pattern_text() {
    assert_eq!(QUOTED_INPUT_PATTERN, "\"([^\"]+)\"");
}
