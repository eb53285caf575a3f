use timed_quiz::evaluator::{answer_matches, trim_response};
use timed_quiz::tally::Tally;

#[test]
fn surrounding_whitespace_is_trimmed() {
    assert!(answer_matches("Paris", " Paris\n"));
    assert!(answer_matches("Paris", "\tParis\r\n"));
}

#[test]
fn matching_is_case_sensitive() {
    assert!(!answer_matches("Paris", "paris"));
    assert!(!answer_matches("Paris", "PARIS"));
}

#[test]
fn inner_whitespace_is_kept() {
    assert!(!answer_matches("New York", "New  York"));
    assert!(answer_matches("New York", "  New York  "));
}

#[test]
fn trim_removes_unicode_white_space_only() {
    assert_eq!(trim_response("  x y\t\n"), "x y");
    assert_eq!(trim_response("\u{3000}x\u{a0}"), "x");
    assert_eq!(trim_response("x."), "x.");
    assert_eq!(trim_response(" \n "), "");
}

#[test]
fn tally_renders_result_line() {
    let t = Tally { correct_count: 2, denominator: 2 };
    assert_eq!(t.render(), "Result: 2/2 correct");
    let t = Tally { correct_count: 0, denominator: 1 };
    assert_eq!(t.render(), "Result: 0/1 correct");
    let t = Tally { correct_count: 1234, denominator: 10050 };
    assert_eq!(t.render(), "Result: 1234/10050 correct");
}
