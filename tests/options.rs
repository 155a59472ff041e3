use rsed::{buffer_lines, get_regex_position, split_lines, Opt, Pattern};

fn opt(expression: &[&str], file: Option<&str>, args: &[&str]) -> Opt {
    Opt {
        quiet: false,
        expression: expression.iter().map(|s| s.to_string()).collect(),
        file: file.map(|s| s.to_string()),
        in_place: None,
        args: args.iter().map(|s| s.to_string()).collect(),
    }
}

#[test]
fn split_lines_drops_terminators() {
    assert_eq!(split_lines("a\r\nb\n\nc"), vec!["a", "b", "", "c"]);
    assert_eq!(split_lines("a\n"), vec!["a"]);
    assert!(split_lines("").is_empty());
}

#[test]
fn buffer_lines_concatenates_files() {
    let contents = vec!["one\ntwo\n".to_string(), "three".to_string()];
    assert_eq!(buffer_lines(&contents), vec!["one\n", "two\n", "three\n"]);
}

#[test]
fn expressions_from_script_file() {
    let o = opt(&[], Some("script.sed"), &["in.txt"]);
    assert_eq!(o.get_expressions("2p\ns/a/b/\n"), Some(vec!["2p".to_string(), "s/a/b/".to_string()]));
}

#[test]
fn expressions_from_flags_then_positional() {
    let o = opt(&["p", "d"], None, &["in.txt"]);
    assert_eq!(o.get_expressions(""), Some(vec!["p".to_string(), "d".to_string()]));
    let o = opt(&[], None, &["2p", "in.txt"]);
    assert_eq!(o.get_expressions(""), Some(vec!["2p".to_string()]));
    let o = opt(&[], None, &["in.txt"]);
    assert_eq!(o.get_expressions(""), None);
}

#[test]
fn file_names_skip_positional_script() {
    let o = opt(&[], None, &["2p", "a.txt", "b.txt"]);
    assert_eq!(o.get_file_names(), vec!["a.txt", "b.txt"]);
    assert_eq!(o.get_file_name(), "b.txt");
    let o = opt(&["p"], None, &["a.txt"]);
    assert_eq!(o.get_file_names(), vec!["a.txt"]);
}

#[test]
fn regex_position_is_first_matching_line() {
    let lines = vec!["abc\n".to_string(), "xbz\n".to_string(), "b\n".to_string()];
    let re = Pattern::new("b.").unwrap();
    assert_eq!(get_regex_position(&re, &lines), 1);
    let re = Pattern::new("z").unwrap();
    assert_eq!(get_regex_position(&re, &lines), 2);
    let re = Pattern::new("q").unwrap();
    assert_eq!(get_regex_position(&re, &lines), 0);
    assert!(Pattern::new("(").is_none());
}
