use rsed::{is_valid, Matcher, Options};

#[test]
fn is_valid_returns_true() {
    let options = Options {
        matcher: Matcher::Single(2),
        neg: false,
    };
    assert_eq!(is_valid(&options, 1usize), true);
}

#[test]
fn is_valid_returns_false() {
    let options = Options {
        matcher: Matcher::Single(1),
        neg: false,
    };
    assert_eq!(is_valid(&options, 1usize), false);
}

#[test]
fn range_two_to_four_selects_only_lines_two_to_four() {
    let options = Options {
        matcher: Matcher::Range(2, 4),
        neg: false,
    };
    let selected: Vec<usize> = (0..8usize).filter(|i| is_valid(&options, *i)).collect();
    assert_eq!(selected, vec![1, 2, 3]);
}

#[test]
fn single_zero_selects_every_line() {
    let options = Options {
        matcher: Matcher::Single(0),
        neg: false,
    };
    for i in 0..10usize {
        assert!(is_valid(&options, i));
    }
}

#[test]
fn range_with_unresolved_end_selects_every_line() {
    let options = Options {
        matcher: Matcher::Range(3, 0),
        neg: false,
    };
    for i in 0..10usize {
        assert!(is_valid(&options, i));
    }
}

#[test]
fn negation_inverts_selection() {
    let options = Options {
        matcher: Matcher::Single(2),
        neg: true,
    };
    assert!(is_valid(&options, 0));
    assert!(!is_valid(&options, 1));
    assert!(is_valid(&options, 2));
}

#[test]
fn no_address_selects_every_line() {
    let options = Options {
        matcher: Matcher::All,
        neg: false,
    };
    assert!(is_valid(&options, 0));
    assert!(is_valid(&options, 1000));
}
