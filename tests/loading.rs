use timed_quiz::source::{entries_from_rows, parse_entries, LoadError};

fn pairs(text: &str) -> Result<Vec<(String, String)>, LoadError> {
    parse_entries(text).map(|v| v.into_iter().map(|e| (e.question, e.answer)).collect())
}

#[test]
fn loads_entries_in_order() {
    let got = pairs("question,answer\n1+1,2\n\"capital of France\",Paris\n").unwrap();
    assert_eq!(
        got,
        vec![
            ("1+1".to_string(), "2".to_string()),
            ("capital of France".to_string(), "Paris".to_string()),
        ]
    );
}

#[test]
fn columns_are_found_by_name() {
    let got = pairs("id,answer,question\n7,4,2+2\n").unwrap();
    assert_eq!(got, vec![("2+2".to_string(), "4".to_string())]);
}

#[test]
fn quoted_field_keeps_comma() {
    let got = pairs("question,answer\n\"a, b\",c\n").unwrap();
    assert_eq!(got, vec![("a, b".to_string(), "c".to_string())]);
}

#[test]
fn header_only_gives_no_entries() {
    assert_eq!(pairs("question,answer\n").unwrap(), vec![]);
    assert_eq!(pairs("").unwrap(), vec![]);
}

#[test]
fn missing_column_is_bad_header() {
    assert_eq!(pairs("question,reply\n1+1,2\n"), Err(LoadError::BadHeader));
}

#[test]
fn duplicate_column_is_bad_header() {
    assert_eq!(pairs("question,answer,answer\n1+1,2,2\n"), Err(LoadError::BadHeader));
}

#[test]
fn uneven_records_are_malformed() {
    assert_eq!(pairs("question,answer\n1+1,2,3\n"), Err(LoadError::Malformed));
}

#[test]
fn short_record_is_reported() {
    let rows = vec![
        vec!["question".to_string(), "answer".to_string()],
        vec!["1+1".to_string()],
    ];
    assert_eq!(entries_from_rows(&rows).map(|v| v.len()), Err(LoadError::ShortRecord));
}
