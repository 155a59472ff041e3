use rsed::{finish_substitution, substitute, FileAppend, SedError};

fn produced(pattern: &str, replacement: &str, flags: &str, line: &str) -> Vec<String> {
    substitute(pattern, replacement, flags, line).unwrap().lines
}

#[test]
fn substitute_replaces_first_match() {
    assert_eq!(produced("a", "b", "", "abc\n"), vec!["bbc\n".to_string()]);
}

#[test]
fn substitute_without_flags_leaves_later_matches() {
    assert_eq!(produced("a", "X", "", "aaa\n"), vec!["Xaa\n".to_string()]);
}

#[test]
fn substitute_global_replaces_every_match() {
    assert_eq!(produced("a", "X", "g", "aaa\n"), vec!["XXX\n".to_string()]);
}

#[test]
fn substitute_occurrence_starts_at_nth_match() {
    assert_eq!(produced("a", "X", "2", "aaa\n"), vec!["aXa\n".to_string()]);
}

#[test]
fn substitute_occurrence_with_global_replaces_from_nth_match() {
    assert_eq!(produced("a", "X", "2g", "aaaa\n"), vec!["aXXX\n".to_string()]);
}

#[test]
fn substitute_occurrence_beyond_matches_leaves_line() {
    assert_eq!(produced("a", "X", "4", "aaa\n"), vec!["aaa\n".to_string()]);
}

#[test]
fn substitute_occurrence_of_several_digits() {
    let line = "aaaaaaaaaaaa\n";
    assert_eq!(produced("a", "X", "11", line), vec!["aaaaaaaaaaXa\n".to_string()]);
}

#[test]
fn substitute_huge_occurrence_leaves_line() {
    let flags = "99999999999999999999999999";
    assert_eq!(produced("a", "X", flags, "aaa\n"), vec!["aaa\n".to_string()]);
}

#[test]
fn substitute_occurrence_splits_on_character_boundaries() {
    assert_eq!(produced("é", "E", "2", "aéé\n"), vec!["aéE\n".to_string()]);
}

#[test]
fn substitute_print_flag_doubles_line() {
    let lines = produced("b", "B", "p", "abc\n");
    assert_eq!(lines.len(), 2);
    assert_eq!(lines[0], lines[1]);
    assert_eq!(lines[0], "aBc\n");
}

#[test]
fn substitute_print_flag_without_match_gives_one_line() {
    assert_eq!(produced("z", "B", "p", "abc\n"), vec!["abc\n".to_string()]);
}

#[test]
fn substitute_expands_capture_groups() {
    assert_eq!(produced("(b)(c)", "$2$1", "", "abc\n"), vec!["acb\n".to_string()]);
}

#[test]
fn substitute_write_flag_appends_edited_line() {
    let s = substitute("a", "b", "w out.txt", "abc\n").unwrap();
    assert_eq!(s.lines, vec!["bbc\n".to_string()]);
    assert_eq!(
        s.append,
        Some(FileAppend {
            path: "out.txt".to_string(),
            text: "bbc\n".to_string(),
        })
    );
}

#[test]
fn substitute_write_flag_without_match_appends_nothing() {
    let s = substitute("z", "b", "w out.txt", "abc\n").unwrap();
    assert_eq!(s.append, None);
}

#[test]
fn substitute_zero_occurrence_is_an_error() {
    assert_eq!(
        substitute("a", "b", "0", "abc\n").err(),
        Some(SedError::ZeroOccurrence)
    );
}

#[test]
fn substitute_invalid_regex_is_an_error() {
    assert_eq!(
        substitute("a(", "b", "", "abc\n").err(),
        Some(SedError::InvalidRegex)
    );
}

#[test]
fn substitute_write_flag_without_name_is_an_error() {
    assert_eq!(
        substitute("a", "b", "w ", "abc\n").err(),
        Some(SedError::MissingFileName)
    );
}

#[test]
fn finish_substitution_follows_flags() {
    let s = finish_substitution("p", "x\n".to_string(), true).unwrap();
    assert_eq!(s.lines, vec!["x\n".to_string(), "x\n".to_string()]);
    let s = finish_substitution("p", "x\n".to_string(), false).unwrap();
    assert_eq!(s.lines, vec!["x\n".to_string()]);
    let s = finish_substitution("gw a b", "x\n".to_string(), true).unwrap();
    assert_eq!(
        s.append,
        Some(FileAppend {
            path: "b".to_string(),
            text: "x\n".to_string(),
        })
    );
    let s = finish_substitution("w", "x\n".to_string(), true).unwrap();
    assert_eq!(s.append.unwrap().path, "w");
    assert_eq!(
        finish_substitution("w a ", "x\n".to_string(), true).err(),
        Some(SedError::MissingFileName)
    );
}
