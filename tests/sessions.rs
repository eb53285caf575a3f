use timed_quiz::script::{run_session, InputFault, TimedReply};
use timed_quiz::session::{Outcome, Prompt, QuizEntry, Session};

fn entries(pairs: &[(&str, &str)]) -> Vec<QuizEntry> {
    pairs
        .iter()
        .map(|(q, a)| QuizEntry::new(q.to_string(), a.to_string()))
        .collect()
}

fn replies(items: &[(u64, &str)]) -> Vec<TimedReply> {
    items
        .iter()
        .map(|(at, line)| TimedReply { at: *at, line: line.to_string() })
        .collect()
}

#[test]
fn happy_path_scores_all() {
    let lines = run_session(
        entries(&[("1+1", "2"), ("2+2", "4")]),
        1_000_000,
        &replies(&[(1, "2\n"), (2, "4\n")]),
    )
    .unwrap();
    assert_eq!(lines, vec!["1+1", "Correct!", "2+2", "Correct!", "Result: 2/2 correct"]);
}

#[test]
fn wrong_answer_is_reported() {
    let lines = run_session(
        entries(&[("capital of France", "Paris")]),
        1_000,
        &replies(&[(3, "London\n")]),
    )
    .unwrap();
    assert_eq!(
        lines,
        vec![
            "capital of France",
            "Wrong! The answer to capital of France is Paris, not London",
            "Result: 0/1 correct",
        ]
    );
}

#[test]
fn zero_duration_times_out_before_asking() {
    let lines = run_session(
        entries(&[("1+1", "2"), ("2+2", "4")]),
        0,
        &replies(&[(0, "2"), (0, "4")]),
    )
    .unwrap();
    assert_eq!(lines, vec!["Time is up", "Result: 0/2 correct"]);
}

#[test]
fn zero_duration_with_no_replies_is_no_fault() {
    let lines = run_session(entries(&[("1+1", "2")]), 0, &replies(&[])).unwrap();
    assert_eq!(lines, vec!["Time is up", "Result: 0/1 correct"]);
}

#[test]
fn questions_follow_input_order() {
    let lines = run_session(
        entries(&[("2+2", "4"), ("3+3", "6")]),
        100,
        &replies(&[(99, "4"), (99, "6")]),
    )
    .unwrap();
    assert_eq!(lines, vec!["2+2", "Correct!", "3+3", "Correct!", "Result: 2/2 correct"]);
}

#[test]
fn deadline_while_waiting_skips_the_rest() {
    let lines = run_session(
        entries(&[("2+2", "4"), ("3+3", "6"), ("4+4", "8")]),
        10,
        &replies(&[(1, "4"), (10, "6"), (11, "8")]),
    )
    .unwrap();
    assert_eq!(lines, vec!["2+2", "Correct!", "3+3", "Time is up", "Result: 1/3 correct"]);
}

#[test]
fn deadline_on_first_question() {
    let lines = run_session(
        entries(&[("2+2", "4"), ("3+3", "6")]),
        5,
        &replies(&[(7, "4")]),
    )
    .unwrap();
    assert_eq!(lines, vec!["2+2", "Time is up", "Result: 0/2 correct"]);
}

#[test]
fn all_exact_answers_give_full_score() {
    let lines = run_session(
        entries(&[("a", "1"), ("b", "2"), ("c", "3")]),
        50,
        &replies(&[(10, " 1 "), (20, "2\n"), (30, "3")]),
    )
    .unwrap();
    assert_eq!(
        lines,
        vec!["a", "Correct!", "b", "Correct!", "c", "Correct!", "Result: 3/3 correct"]
    );
}

#[test]
fn empty_sequence_reports_zero_of_zero() {
    let lines = run_session(Vec::new(), 30, &replies(&[])).unwrap();
    assert_eq!(lines, vec!["Result: 0/0 correct"]);
}

#[test]
fn input_closed_is_a_fault() {
    let r = run_session(entries(&[("1+1", "2"), ("2+2", "4")]), 30, &replies(&[(1, "2")]));
    assert_eq!(r, Err(InputFault::Closed));
}

#[test]
fn session_steps() {
    let mut s = Session::new(entries(&[("1+1", "2"), ("2+2", "4"), ("3+3", "6")]));
    match s.next_prompt(false) {
        Prompt::Ask(q) => assert_eq!(q, "1+1"),
        _ => panic!("expected a question"),
    }
    let fb = s.record_response("2\n");
    assert_eq!(fb.outcome, Outcome::Correct);
    assert_eq!(fb.message, "Correct!");
    match s.next_prompt(false) {
        Prompt::Ask(q) => assert_eq!(q, "2+2"),
        _ => panic!("expected a question"),
    }
    let fb = s.record_response("5");
    assert_eq!(fb.outcome, Outcome::Incorrect);
    assert_eq!(fb.message, "Wrong! The answer to 2+2 is 4, not 5");
    assert_eq!(s.position(), 2);
    assert_eq!(s.attempted_count(), 2);
    assert_eq!(s.correct_count(), 1);
    match s.next_prompt(false) {
        Prompt::Ask(q) => assert_eq!(q, "3+3"),
        _ => panic!("expected a question"),
    }
    assert_eq!(s.expire(), Outcome::TimedOut);
    assert!(s.terminated_early());
    assert!(matches!(s.next_prompt(false), Prompt::Finished));
    let t = s.summary();
    assert_eq!(t.correct_count, 1);
    assert_eq!(t.denominator, 3);
    assert_eq!(t.render(), "Result: 1/3 correct");
}

#[test]
fn expired_before_asking_ends_session() {
    let mut s = Session::new(entries(&[("1+1", "2")]));
    assert!(matches!(s.next_prompt(true), Prompt::TimeUp));
    assert!(s.terminated_early());
    assert_eq!(s.attempted_count(), 0);
    assert!(matches!(s.next_prompt(false), Prompt::Finished));
    assert_eq!(s.summary().render(), "Result: 0/1 correct");
}

#[test]
fn completed_session_is_finished_even_when_expired() {
    let mut s = Session::new(entries(&[("1+1", "2")]));
    assert!(matches!(s.next_prompt(false), Prompt::Ask(_)));
    s.record_response("2");
    assert!(matches!(s.next_prompt(true), Prompt::Finished));
    assert!(!s.terminated_early());
    assert_eq!(s.summary().render(), "Result: 1/1 correct");
}
