//! Loading quiz entries from CSV text whose header row names a `question` and
//! an `answer` column.
use vstd::prelude::*;
use crate::session::{entries_view, QuizEntry};

verus! {

/// The records of a CSV text, each a sequence of fields, the header row
/// first; `None` when the text is not well-formed CSV.
pub uninterp spec fn csv_rows(text: Seq<char>) -> Option<Seq<Seq<Seq<char>>>>;

/// Relies on csv's `Reader` (built with `has_headers(false)`, so that the
/// header row is returned as the first record) and its `records` iterator:
/// every record as its fields, or `None` at the first read error.
#[verifier::external_body]
fn read_rows(text: &str) -> (r: Option<Vec<Vec<String>>>)
    ensures
        match r {
            Some(rows) => csv_rows(text@) == Some(rows.deep_view()),
            None => csv_rows(text@) is None,
        },
{
    let mut reader = csv::ReaderBuilder::new().has_headers(false).from_reader(text.as_bytes());
    let mut rows = Vec::new();
    for record in reader.records() {
        match record {
            Ok(record) => rows.push(record.iter().map(|f| f.to_string()).collect()),
            Err(_) => return None,
        }
    }
    Some(rows)
}

/// Why entries could not be loaded.
#[derive(Clone, Copy, PartialEq, Eq, Debug, Structural)]
pub enum LoadError {
    /// The text is not well-formed CSV.
    Malformed,
    /// The header row does not name each of `question` and `answer` exactly once.
    BadHeader,
    /// A record has no field under the `question` or the `answer` column.
    ShortRecord,
}

/// How many fields of `h` equal `name`.
pub open spec fn occurrences(h: Seq<Seq<char>>, name: Seq<char>) -> nat
    decreases h.len(),
{
    if h.len() == 0 {
        0
    } else {
        occurrences(h.drop_last(), name) + if h.last() == name {
            1nat
        } else {
            0nat
        }
    }
}

/// The index of the field of `h` that equals `name`, where there is one.
pub open spec fn column_of(h: Seq<Seq<char>>, name: Seq<char>) -> int {
    choose|i: int| 0 <= i < h.len() && h[i] == name
}

/// Whether every record after the header has both columns.
pub open spec fn records_fit(rows: Seq<Seq<Seq<char>>>, qi: int, ai: int) -> bool {
    forall|i: int| 1 <= i < rows.len() ==> qi < #[trigger] rows[i].len() && ai < rows[i].len()
}

/// The entries that CSV records describe: one per record after the header,
/// in order, taking the fields under the `question` and `answer` columns.
/// Without records after the header there is nothing to check and no entry.
pub open spec fn entries_of_rows(rows: Seq<Seq<Seq<char>>>) -> Result<
    Seq<(Seq<char>, Seq<char>)>,
    LoadError,
> {
    if rows.len() <= 1 {
        Ok(Seq::empty())
    } else if occurrences(rows[0], "question"@) != 1 || occurrences(rows[0], "answer"@) != 1 {
        Err(LoadError::BadHeader)
    } else {
        let qi = column_of(rows[0], "question"@);
        let ai = column_of(rows[0], "answer"@);
        if records_fit(rows, qi, ai) {
            Ok(rows.drop_first().map_values(|row: Seq<Seq<char>>| (row[qi], row[ai])))
        } else {
            Err(LoadError::ShortRecord)
        }
    }
}

/// The entries that a CSV text describes.
pub open spec fn entries_of_text(text: Seq<char>) -> Result<Seq<(Seq<char>, Seq<char>)>, LoadError> {
    match csv_rows(text) {
        None => Err(LoadError::Malformed),
        Some(rows) => entries_of_rows(rows),
    }
}

proof fn lemma_occurrence_at(h: Seq<Seq<char>>, name: Seq<char>, i: int)
    requires
        0 <= i < h.len(),
        h[i] == name,
    ensures
        occurrences(h, name) >= 1,
    decreases h.len(),
{
    if i < h.len() - 1 {
        lemma_occurrence_at(h.drop_last(), name, i);
    }
}

proof fn lemma_single_occurrence(h: Seq<Seq<char>>, name: Seq<char>, i: int, j: int)
    requires
        occurrences(h, name) == 1,
        0 <= i < h.len(),
        0 <= j < h.len(),
        h[i] == name,
        h[j] == name,
    ensures
        i == j,
    decreases h.len(),
{
    let n = h.len() - 1;
    if i == n && j != n {
        lemma_occurrence_at(h.drop_last(), name, j);
    } else if j == n && i != n {
        lemma_occurrence_at(h.drop_last(), name, i);
    } else if i != n && j != n {
        if h.last() == name {
            lemma_occurrence_at(h.drop_last(), name, i);
        }
        lemma_single_occurrence(h.drop_last(), name, i, j);
    }
}

/// The header's single `question` and `answer` columns, or `None` unless each
/// name occurs exactly once.
fn find_columns(header: &Vec<String>) -> (r: Option<(usize, usize)>)
    ensures
        match r {
            Some((qi, ai)) => {
                &&& occurrences(header.deep_view(), "question"@) == 1
                &&& occurrences(header.deep_view(), "answer"@) == 1
                &&& qi == column_of(header.deep_view(), "question"@)
                &&& ai == column_of(header.deep_view(), "answer"@)
            },
            None => occurrences(header.deep_view(), "question"@) != 1 || occurrences(
                header.deep_view(),
                "answer"@,
            ) != 1,
        },
{
    let ghost h = header.deep_view();
    let question = "question".to_owned();
    let answer = "answer".to_owned();
    let mut qn: usize = 0;
    let mut an: usize = 0;
    let mut qi: usize = 0;
    let mut ai: usize = 0;
    let mut i: usize = 0;
    while i < header.len()
        invariant
            h == header.deep_view(),
            i <= header.len(),
            question@ == "question"@,
            answer@ == "answer"@,
            qn == occurrences(h.take(i as int), "question"@),
            an == occurrences(h.take(i as int), "answer"@),
            qn <= i,
            an <= i,
            qn >= 1 ==> qi < i && h[qi as int] == "question"@,
            an >= 1 ==> ai < i && h[ai as int] == "answer"@,
        decreases header.len() - i,
    {
        proof {
            assert(h.take(i + 1).drop_last() =~= h.take(i as int));
            assert(h[i as int] == header@[i as int]@);
        }
        if header[i] == question {
            qn = qn + 1;
            qi = i;
        }
        if header[i] == answer {
            an = an + 1;
            ai = i;
        }
        i = i + 1;
    }
    assert(h.take(i as int) =~= h);
    if qn == 1 && an == 1 {
        proof {
            let cq = column_of(h, "question"@);
            let ca = column_of(h, "answer"@);
            lemma_single_occurrence(h, "question"@, qi as int, cq);
            lemma_single_occurrence(h, "answer"@, ai as int, ca);
        }
        Some((qi, ai))
    } else {
        None
    }
}

/// The entries that CSV records describe (the header row first): `BadHeader`
/// unless there are no records or the header names each of `question` and
/// `answer` exactly once, `ShortRecord` if a record lacks one of those fields.
pub fn entries_from_rows(rows: &Vec<Vec<String>>) -> (r: Result<Vec<QuizEntry>, LoadError>)
    ensures
        match r {
            Ok(entries) => entries_of_rows(rows.deep_view()) == Ok::<
                Seq<(Seq<char>, Seq<char>)>,
                LoadError,
            >(entries_view(entries@)),
            Err(e) => entries_of_rows(rows.deep_view()) == Err::<
                Seq<(Seq<char>, Seq<char>)>,
                LoadError,
            >(e),
        },
{
    let ghost rv = rows.deep_view();
    let mut entries: Vec<QuizEntry> = Vec::new();
    if rows.len() <= 1 {
        assert(entries_view(entries@) =~= Seq::<(Seq<char>, Seq<char>)>::empty());
        return Ok(entries);
    }
    let (qi, ai) = match find_columns(&rows[0]) {
        Some(c) => c,
        None => return Err(LoadError::BadHeader),
    };
    let ghost want = rv.drop_first().map_values(
        |row: Seq<Seq<char>>| (row[qi as int], row[ai as int]),
    );
    let mut i: usize = 1;
    while i < rows.len()
        invariant
            rv == rows.deep_view(),
            rv.len() > 1,
            1 <= i <= rows.len(),
            occurrences(rv[0], "question"@) == 1,
            occurrences(rv[0], "answer"@) == 1,
            qi == column_of(rv[0], "question"@),
            ai == column_of(rv[0], "answer"@),
            forall|j: int| 1 <= j < i ==> qi < #[trigger] rv[j].len() && ai < rv[j].len(),
            entries@.len() == i - 1,
            forall|j: int|
                0 <= j < i - 1 ==> #[trigger] entries_view(entries@)[j] == (
                    rv[j + 1][qi as int],
                    rv[j + 1][ai as int],
                ),
        decreases rows.len() - i,
    {
        let row = &rows[i];
        assert(rv[i as int] == row.deep_view());
        assert(rv[i as int].len() == row@.len());
        if qi >= row.len() || ai >= row.len() {
            assert(!records_fit(rv, qi as int, ai as int));
            return Err(LoadError::ShortRecord);
        }
        let entry = QuizEntry::new(row[qi].clone(), row[ai].clone());
        assert(row.deep_view()[qi as int] == row@[qi as int]@);
        assert(row.deep_view()[ai as int] == row@[ai as int]@);
        let ghost prev = entries@;
        entries.push(entry);
        proof {
            assert forall|j: int| 0 <= j < i implies #[trigger] entries_view(entries@)[j] == (
                rv[j + 1][qi as int],
                rv[j + 1][ai as int],
            ) by {
                if j < i - 1 {
                    assert(entries@[j] == prev[j]);
                    assert(entries_view(prev)[j] == entries_view(entries@)[j]);
                }
            }
        }
        i = i + 1;
    }
    assert(records_fit(rv, qi as int, ai as int));
    assert(entries_view(entries@) =~= want);
    Ok(entries)
}

/// The entries of a CSV text: `Malformed` where the text is not CSV, otherwise
/// as `entries_from_rows` decides on its records.
pub fn parse_entries(text: &str) -> (r: Result<Vec<QuizEntry>, LoadError>)
    ensures
        match r {
            Ok(entries) => entries_of_text(text@) == Ok::<
                Seq<(Seq<char>, Seq<char>)>,
                LoadError,
            >(entries_view(entries@)),
            Err(e) => entries_of_text(text@) == Err::<Seq<(Seq<char>, Seq<char>)>, LoadError>(e),
        },
{
    match read_rows(text) {
        None => Err(LoadError::Malformed),
        Some(rows) => entries_from_rows(&rows),
    }
}

} // verus!
