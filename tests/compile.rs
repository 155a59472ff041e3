use rsed::{build_ast, build_insert, build_options, build_subs, build_write};
use rsed::{InsertType, Matcher, Operation, Options, SedError};

fn chars(s: &str) -> Vec<char> {
    s.chars().collect()
}

fn buffer() -> Vec<String> {
    vec!["one\n".to_string(), "two\n".to_string(), "three\n".to_string()]
}

const EVERY: Options = Options {
    matcher: Matcher::All,
    neg: false,
};

#[test]
fn compiling_twice_gives_same_program() {
    let script = vec!["/two/,$s/o/0/g;3!p".to_string(), "/thr/d".to_string()];
    let first = build_ast(&script, &buffer()).unwrap();
    let second = build_ast(&script, &buffer()).unwrap();
    assert_eq!(first, second);
    assert_eq!(first[0].0.matcher, Matcher::Range(2, 3));
    assert_eq!(first[2].0.matcher, Matcher::Single(3));
}

#[test]
fn fragments_are_joined_with_semicolons() {
    let joined = build_ast(&["2p;d".to_string()], &buffer()).unwrap();
    let split = build_ast(&["2p".to_string(), "d".to_string()], &buffer()).unwrap();
    assert_eq!(joined, split);
    assert_eq!(split[1], (EVERY, Operation::Delete));
}

#[test]
fn address_binds_to_following_command_only() {
    let program = build_ast(&["2p;p".to_string()], &buffer()).unwrap();
    assert_eq!(
        program,
        vec![
            (
                Options {
                    matcher: Matcher::Single(2),
                    neg: false
                },
                Operation::Print
            ),
            (EVERY, Operation::Print),
        ]
    );
}

#[test]
fn every_command_letter() {
    let program = build_ast(&["d;n;p;q;=".to_string()], &buffer()).unwrap();
    let ops: Vec<Operation> = program.into_iter().map(|i| i.1).collect();
    assert_eq!(
        ops,
        vec![
            Operation::Delete,
            Operation::Skip,
            Operation::Print,
            Operation::Quit,
            Operation::PrintLineNumber
        ]
    );
}

#[test]
fn invalid_command_is_an_error() {
    assert_eq!(
        build_ast(&["2x".to_string()], &buffer()),
        Err(SedError::InvalidCommand('x'))
    );
}

#[test]
fn invalid_address_regex_is_an_error() {
    assert_eq!(
        build_ast(&["/(/p".to_string()], &buffer()),
        Err(SedError::InvalidRegex)
    );
}

#[test]
fn huge_line_number_is_an_error() {
    assert_eq!(
        build_ast(&["99999999999999999999999p".to_string()], &buffer()),
        Err(SedError::LineNumberTooLarge)
    );
}

#[test]
fn pending_address_at_end_is_dropped() {
    assert_eq!(build_ast(&["p;3".to_string()], &buffer()), Ok(vec![(EVERY, Operation::Print)]));
}

#[test]
fn subs_reads_three_fields() {
    let c = chars("s/a/b/g;p");
    let mut index = 0usize;
    let built = build_subs(&mut index, &c, EVERY).unwrap();
    assert_eq!(
        built.1,
        Operation::Subs("a".to_string(), "b".to_string(), "g".to_string())
    );
    assert_eq!(index, 6);
}

#[test]
fn subs_with_other_delimiter() {
    let c = chars("s|a/b|c|");
    let mut index = 0usize;
    let built = build_subs(&mut index, &c, EVERY).unwrap();
    assert_eq!(
        built.1,
        Operation::Subs("a/b".to_string(), "c".to_string(), String::new())
    );
    assert_eq!(index, c.len());
}

#[test]
fn subs_with_fourth_field_is_an_error() {
    let c = chars("s/a/b/g/x");
    let mut index = 0usize;
    assert_eq!(
        build_subs(&mut index, &c, EVERY),
        Err(SedError::InvalidSubstitution)
    );
}

#[test]
fn subs_without_delimiter_is_an_error() {
    let c = chars("s");
    let mut index = 0usize;
    assert_eq!(
        build_subs(&mut index, &c, EVERY),
        Err(SedError::InvalidSubstitution)
    );
}

#[test]
fn write_reads_path_to_semicolon() {
    let c = chars("w  out.txt;p");
    let mut index = 0usize;
    let built = build_write(&mut index, &c, EVERY).unwrap();
    assert_eq!(built.1, Operation::Write("out.txt".to_string()));
    assert_eq!(index, 9);
}

#[test]
fn write_without_path_is_an_error() {
    for script in ["w", "w   ", "w;p"] {
        let c = chars(script);
        let mut index = 0usize;
        assert_eq!(
            build_write(&mut index, &c, EVERY),
            Err(SedError::EmptyWritePath)
        );
    }
}

#[test]
fn insert_reads_rest_of_script() {
    let c = chars("i  two words;p");
    let mut index = 0usize;
    let built = build_insert(InsertType::Before, &mut index, &c, EVERY);
    assert_eq!(built.1, Operation::InsertBefore("two words;p\n".to_string()));
    assert_eq!(index, c.len());
    let c = chars("a");
    let mut index = 0usize;
    let built = build_insert(InsertType::After, &mut index, &c, EVERY);
    assert_eq!(built.1, Operation::InsertAfter("\n".to_string()));
}

#[test]
fn options_reads_range_and_steps_back() {
    let c = chars("1,3!p");
    let mut index = 0usize;
    let o = build_options(&mut index, &c, &buffer()).unwrap();
    assert_eq!(
        o,
        Options {
            matcher: Matcher::Range(1, 3),
            neg: true
        }
    );
    assert_eq!(index, 2);
}

#[test]
fn options_dollar_is_last_line() {
    let c = chars("$p");
    let mut index = 0usize;
    let o = build_options(&mut index, &c, &buffer()).unwrap();
    assert_eq!(o.matcher, Matcher::Single(3));
}

#[test]
fn options_regex_resolves_against_buffer() {
    let c = chars("/th/p");
    let mut index = 0usize;
    let o = build_options(&mut index, &c, &buffer()).unwrap();
    assert_eq!(o.matcher, Matcher::Single(3));
    assert_eq!(index, 3);
}
