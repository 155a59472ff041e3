use rsed::{build_ast, execute, FileAppend, Opt, Run, SedError};

fn buffer() -> Vec<String> {
    vec!["one\n".to_string(), "two\n".to_string(), "three\n".to_string()]
}

fn opt(quiet: bool) -> Opt {
    Opt {
        quiet,
        expression: Vec::new(),
        file: None,
        in_place: None,
        args: Vec::new(),
    }
}

fn run_script(script: &str, lines: &[String], quiet: bool) -> Run {
    let program = build_ast(&[script.to_string()], lines).unwrap();
    execute(&opt(quiet), &program, lines)
}

fn strings(v: &[&str]) -> Vec<String> {
    v.iter().map(|s| s.to_string()).collect()
}

#[test]
fn empty_program_echoes_buffer() {
    let lines = buffer();
    let run = execute(&opt(false), &[], &lines);
    assert_eq!(run.output, lines);
    assert!(run.appends.is_empty());
    assert_eq!(run.failure, None);
}

#[test]
fn empty_program_quiet_prints_nothing() {
    let run = execute(&opt(true), &[], &buffer());
    assert!(run.output.is_empty());
}

#[test]
fn delete_clears_line() {
    let run = run_script("2d", &buffer(), false);
    assert_eq!(run.output, strings(&["one\n", "\n", "three\n"]));
    assert_eq!(run.failure, None);
}

#[test]
fn print_range_duplicates_lines() {
    let run = run_script("1,2p", &buffer(), false);
    assert_eq!(
        run.output,
        strings(&["one\n", "one\n", "two\n", "two\n", "three\n"])
    );
}

#[test]
fn quit_stops_after_first_line() {
    let run = run_script("q", &buffer(), false);
    assert_eq!(run.output, strings(&["one\n"]));
    assert_eq!(run.failure, None);
}

#[test]
fn quiet_print_prints_selected_lines_only() {
    let run = run_script("2p", &buffer(), true);
    assert_eq!(run.output, strings(&["two\n"]));
}

#[test]
fn negated_address_deletes_other_lines() {
    let run = run_script("2!d", &buffer(), false);
    assert_eq!(run.output, strings(&["\n", "two\n", "\n"]));
}

#[test]
fn last_line_address() {
    let run = run_script("$d", &buffer(), false);
    assert_eq!(run.output, strings(&["one\n", "two\n", "\n"]));
}

#[test]
fn regex_address_resolves_to_first_matching_line() {
    let run = run_script("/t/d", &buffer(), false);
    assert_eq!(run.output, strings(&["one\n", "\n", "three\n"]));
}

#[test]
fn unmatched_regex_address_selects_every_line() {
    let run = run_script("/zzz/d", &buffer(), false);
    assert_eq!(run.output, strings(&["\n", "\n", "\n"]));
}

#[test]
fn regex_range_address() {
    let run = run_script("/one/,/two/d", &buffer(), false);
    assert_eq!(run.output, strings(&["\n", "\n", "three\n"]));
}

#[test]
fn line_number_command() {
    let lines = strings(&["one\n", "two\n"]);
    let run = run_script("=", &lines, false);
    assert_eq!(run.output, strings(&["1\n", "one\n", "2\n", "two\n"]));
}

#[test]
fn line_number_of_tenth_line() {
    let lines: Vec<String> = (0..12).map(|i| format!("l{}\n", i)).collect();
    let run = run_script("10=", &lines, true);
    assert_eq!(run.output, strings(&["10\n"]));
}

#[test]
fn insert_before_and_after() {
    let run = run_script("2i  hello", &buffer(), false);
    assert_eq!(run.output, strings(&["one\n", "hello\n", "two\n", "three\n"]));
    let run = run_script("1a bye", &buffer(), false);
    assert_eq!(run.output, strings(&["one\n", "bye\n", "two\n", "three\n"]));
}

#[test]
fn insertions_printed_lines_and_line_come_in_order() {
    let run = run_script("1p;1i before", &buffer(), false);
    assert_eq!(
        run.output,
        strings(&["before\n", "one\n", "one\n", "two\n", "three\n"])
    );
    let run = run_script("1a after;1p", &buffer(), false);
    assert_eq!(
        run.output,
        strings(&["one\n", "after;1p\n", "two\n", "three\n"])
    );
}

#[test]
fn skip_emits_line_and_moves_on() {
    let lines = strings(&["a\n", "b\n", "c\n", "d\n"]);
    let run = run_script("n;d", &lines, false);
    assert_eq!(run.output, strings(&["a\n", "\n", "c\n", "\n"]));
}

#[test]
fn skip_on_last_line_is_an_error() {
    let run = run_script("n", &buffer(), false);
    assert_eq!(run.failure, Some(SedError::SkipPastEnd));
}

#[test]
fn write_command_appends_current_line() {
    let run = run_script("s/o/0/;w out.txt", &buffer(), true);
    assert!(run.output.is_empty());
    let expected: Vec<FileAppend> = ["0ne\n", "tw0\n", "three\n"]
        .iter()
        .map(|t| FileAppend {
            path: "out.txt".to_string(),
            text: t.to_string(),
        })
        .collect();
    assert_eq!(run.appends, expected);
}

#[test]
fn substitution_in_program_edits_line() {
    let run = run_script("s/o/0/g", &buffer(), false);
    assert_eq!(run.output, strings(&["0ne\n", "tw0\n", "three\n"]));
}

#[test]
fn substitution_print_flag_in_program() {
    let run = run_script("s/w/W/p", &buffer(), false);
    assert_eq!(run.output, strings(&["one\n", "tWo\n", "tWo\n", "three\n"]));
}

#[test]
fn substitution_error_at_first_use() {
    let run = run_script("2s/a/b/0", &buffer(), false);
    assert_eq!(run.failure, Some(SedError::ZeroOccurrence));
    let run = run_script("5s/a/b/0", &buffer(), false);
    assert_eq!(run.failure, None);
}

#[test]
fn appends_made_before_an_error_are_kept() {
    let run = run_script("w log;2s/(/x/", &buffer(), false);
    assert_eq!(run.failure, Some(SedError::InvalidRegex));
    assert_eq!(run.appends.len(), 2);
}

#[test]
fn later_commands_see_the_cleared_line() {
    let run = run_script("2d;2p", &buffer(), true);
    assert_eq!(run.output, strings(&["\n"]));
}
