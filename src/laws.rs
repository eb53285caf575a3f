//! Properties of whole sessions, stated over the transcript of a scripted run.
use vstd::prelude::*;
use crate::evaluator::is_match;
use crate::script::{lemma_prepend_assoc, play, prepend, time_up_line, transcript};
use crate::session::feedback_line;
use crate::tally::result_line;

verus! {

/// The lines written for entries `k..j`, each answered in time: the question,
/// then its feedback.
pub open spec fn answered_lines(
    e: Seq<(Seq<char>, Seq<char>)>,
    r: Seq<(nat, Seq<char>)>,
    k: nat,
    j: nat,
) -> Seq<Seq<char>>
    decreases j - k,
{
    if k >= j {
        Seq::empty()
    } else {
        seq![e[k as int].0, feedback_line(e[k as int].0, e[k as int].1, r[k as int].1)]
            + answered_lines(e, r, k + 1, j)
    }
}

/// How many of the responses to entries `k..j` match their answers.
pub open spec fn correct_in(
    e: Seq<(Seq<char>, Seq<char>)>,
    r: Seq<(nat, Seq<char>)>,
    k: nat,
    j: nat,
) -> nat
    decreases j - k,
{
    if k >= j {
        0
    } else {
        (if is_match(e[k as int].1, r[k as int].1) {
            1nat
        } else {
            0nat
        }) + correct_in(e, r, k + 1, j)
    }
}

/// The time at which entry `j` is reached, when entries `k..j` were answered in time.
pub open spec fn time_at(r: Seq<(nat, Seq<char>)>, k: nat, j: nat, now: nat) -> nat {
    if k < j {
        r[j - 1].0
    } else {
        now
    }
}

/// The index of the first entry from `k` on that is not answered in time.
pub open spec fn stop_index(
    e: Seq<(Seq<char>, Seq<char>)>,
    deadline: nat,
    r: Seq<(nat, Seq<char>)>,
    k: nat,
    now: nat,
) -> nat
    decreases e.len() - k,
{
    if k >= e.len() || now >= deadline || k >= r.len() || r[k as int].0 >= deadline {
        k
    } else {
        stop_index(e, deadline, r, k + 1, r[k as int].0)
    }
}

proof fn lemma_answered_lines_shape(
    e: Seq<(Seq<char>, Seq<char>)>,
    r: Seq<(nat, Seq<char>)>,
    k: nat,
    j: nat,
)
    requires
        k <= j,
    ensures
        answered_lines(e, r, k, j).len() == 2 * (j - k),
        forall|i: int| k <= i < j ==> #[trigger] answered_lines(e, r, k, j)[2 * (i - k)] == e[i].0,
        correct_in(e, r, k, j) <= j - k,
    decreases j - k,
{
    if k < j {
        lemma_answered_lines_shape(e, r, k + 1, j);
        let rest = answered_lines(e, r, k + 1, j);
        let head = seq![e[k as int].0, feedback_line(e[k as int].0, e[k as int].1, r[k as int].1)];
        assert forall|i: int| k <= i < j implies #[trigger] answered_lines(e, r, k, j)[2 * (i - k)]
            == e[i].0 by {
            if i > k {
                assert(answered_lines(e, r, k, j)[2 * (i - k)] == rest[2 * (i - (k + 1))]);
            }
        }
    }
}

/// Entries answered in time, one after another, write their questions and
/// feedback in order, and the session goes on from the next entry.
proof fn lemma_in_time_prefix(
    e: Seq<(Seq<char>, Seq<char>)>,
    deadline: nat,
    r: Seq<(nat, Seq<char>)>,
    k: nat,
    j: nat,
    now: nat,
    c: nat,
)
    requires
        k <= j <= e.len(),
        k < j ==> now < deadline,
        forall|i: int| k <= i < j ==> i < r.len() && #[trigger] r[i].0 < deadline,
    ensures
        play(e, deadline, r, k, now, c) == prepend(
            answered_lines(e, r, k, j),
            play(e, deadline, r, j, time_at(r, k, j, now), c + correct_in(e, r, k, j)),
        ),
    decreases j - k,
{
    lemma_prepend_assoc(Seq::empty(), Seq::empty(), play(e, deadline, r, j, now, c));
    if k < j {
        let b: nat = if is_match(e[k as int].1, r[k as int].1) {
            1
        } else {
            0
        };
        assert(r[k as int].0 < deadline);
        lemma_in_time_prefix(e, deadline, r, k + 1, j, r[k as int].0, c + b);
        let head = seq![e[k as int].0, feedback_line(e[k as int].0, e[k as int].1, r[k as int].1)];
        lemma_prepend_assoc(
            head,
            answered_lines(e, r, k + 1, j),
            play(
                e,
                deadline,
                r,
                j,
                time_at(r, k + 1, j, r[k as int].0),
                c + b + correct_in(e, r, k + 1, j),
            ),
        );
    }
}

proof fn lemma_stop_index(
    e: Seq<(Seq<char>, Seq<char>)>,
    deadline: nat,
    r: Seq<(nat, Seq<char>)>,
    k: nat,
    now: nat,
)
    requires
        k <= e.len(),
    ensures
        ({
            let j = stop_index(e, deadline, r, k, now);
            &&& k <= j <= e.len()
            &&& k < j ==> now < deadline
            &&& forall|i: int| k <= i < j ==> i < r.len() && #[trigger] r[i].0 < deadline
            &&& j >= e.len() || time_at(r, k, j, now) >= deadline || j >= r.len() || r[j as int].0
                >= deadline
        }),
    decreases e.len() - k,
{
    if !(k >= e.len() || now >= deadline || k >= r.len() || r[k as int].0 >= deadline) {
        lemma_stop_index(e, deadline, r, k + 1, r[k as int].0);
        let j = stop_index(e, deadline, r, k, now);
        assert forall|i: int| k <= i < j implies i < r.len() && #[trigger] r[i].0 < deadline by {
            if i > k {
                assert(r[i].0 < deadline);
            }
        }
        assert(time_at(r, k, j, now) == time_at(r, k + 1, j, r[k as int].0));
    }
}

/// When every response comes before the deadline and matches its answer
/// exactly (after trimming), every entry is counted correct and the session
/// reports all of them: `N/N`.
pub proof fn lemma_exact_answers_score_all(
    e: Seq<(Seq<char>, Seq<char>)>,
    deadline: nat,
    r: Seq<(nat, Seq<char>)>,
)
    requires
        r.len() >= e.len(),
        forall|i: int| 0 <= i < e.len() ==> #[trigger] r[i].0 < deadline,
        forall|i: int| 0 <= i < e.len() ==> is_match(e[i].1, #[trigger] r[i].1),
    ensures
        correct_in(e, r, 0, e.len()) == e.len(),
        forall|i: int| 0 <= i < e.len() ==> feedback_line(e[i].0, e[i].1, #[trigger] r[i].1)
            == "Correct!"@,
        transcript(e, deadline, r) == Some(
            answered_lines(e, r, 0, e.len()).push(result_line(e.len(), e.len())),
        ),
{
    lemma_all_correct(e, r, 0, e.len());
    if e.len() > 0 {
        assert(r[0].0 < deadline);
    }
    lemma_in_time_prefix(e, deadline, r, 0, e.len(), 0, 0);
    let lines = answered_lines(e, r, 0, e.len());
    assert(lines + seq![result_line(e.len(), e.len())] =~= lines.push(
        result_line(e.len(), e.len()),
    ));
}

proof fn lemma_all_correct(e: Seq<(Seq<char>, Seq<char>)>, r: Seq<(nat, Seq<char>)>, k: nat, j: nat)
    requires
        k <= j <= e.len(),
        j <= r.len(),
        forall|i: int| 0 <= i < e.len() ==> is_match(e[i].1, #[trigger] r[i].1),
    ensures
        correct_in(e, r, k, j) == j - k,
    decreases j - k,
{
    if k < j {
        assert(is_match(e[k as int].1, r[k as int].1));
        lemma_all_correct(e, r, k + 1, j);
    }
}

/// With no time at all, a session of one or more entries announces the
/// timeout before asking anything and reports `0/N`.
pub proof fn lemma_zero_duration_asks_nothing(
    e: Seq<(Seq<char>, Seq<char>)>,
    r: Seq<(nat, Seq<char>)>,
)
    requires
        e.len() > 0,
    ensures
        transcript(e, 0, r) == Some(seq![time_up_line(), result_line(0, e.len())]),
{
}

/// Questions are presented in the order of the entries, whatever the timing of
/// the responses: the first `m` entries are asked and answered in order, and
/// after them at most entry `m` is asked before the session reports.
pub proof fn lemma_questions_in_input_order(
    e: Seq<(Seq<char>, Seq<char>)>,
    deadline: nat,
    r: Seq<(nat, Seq<char>)>,
)
    requires
        transcript(e, deadline, r) is Some,
    ensures
        ({
            let lines = transcript(e, deadline, r)->0;
            let m = stop_index(e, deadline, r, 0, 0);
            let c = correct_in(e, r, 0, m);
            let rest = lines.subrange(2 * m as int, lines.len() as int);
            &&& m <= e.len()
            &&& 2 * m < lines.len()
            &&& lines.subrange(0, 2 * m as int) == answered_lines(e, r, 0, m)
            &&& forall|i: int| 0 <= i < m ==> #[trigger] lines[2 * i] == e[i].0
            &&& {
                ||| m == e.len() && rest == seq![result_line(c, e.len())]
                ||| m < e.len() && rest == seq![time_up_line(), result_line(c, e.len())]
                ||| m < e.len() && rest == seq![
                    e[m as int].0,
                    time_up_line(),
                    result_line(c, e.len()),
                ]
            }
        }),
{
    let m = stop_index(e, deadline, r, 0, 0);
    lemma_stop_index(e, deadline, r, 0, 0);
    lemma_in_time_prefix(e, deadline, r, 0, m, 0, 0);
    lemma_answered_lines_shape(e, r, 0, m);
    let head = answered_lines(e, r, 0, m);
    let lines = transcript(e, deadline, r)->0;
    let tail = play(e, deadline, r, m, time_at(r, 0, m, 0), correct_in(e, r, 0, m))->0;
    assert(lines == head + tail);
    assert(lines.subrange(0, 2 * m as int) =~= head);
    assert(lines.subrange(2 * m as int, lines.len() as int) =~= tail);
    assert forall|i: int| 0 <= i < m implies #[trigger] lines[2 * i] == e[i].0 by {
        assert(head[2 * (i - 0)] == e[i].0);
    }
}

/// When the deadline passes while the response to question `k` of `N` is
/// awaited, the first `k - 1` entries are asked and answered in order, question
/// `k` is asked, the timeout is announced, and no later question is presented;
/// at most `k - 1` answers count, and the report is still out of `N`.
pub proof fn lemma_deadline_mid_session(
    e: Seq<(Seq<char>, Seq<char>)>,
    deadline: nat,
    r: Seq<(nat, Seq<char>)>,
    k: nat,
)
    requires
        1 <= k <= e.len(),
        k <= r.len(),
        deadline > 0,
        forall|i: int| 0 <= i < k - 1 ==> #[trigger] r[i].0 < deadline,
        r[k - 1].0 >= deadline,
    ensures
        transcript(e, deadline, r) == Some(
            answered_lines(e, r, 0, (k - 1) as nat) + seq![
                e[k - 1].0,
                time_up_line(),
                result_line(correct_in(e, r, 0, (k - 1) as nat), e.len()),
            ],
        ),
        answered_lines(e, r, 0, (k - 1) as nat).len() == 2 * (k - 1),
        correct_in(e, r, 0, (k - 1) as nat) <= k - 1,
{
    let j = (k - 1) as nat;
    lemma_in_time_prefix(e, deadline, r, 0, j, 0, 0);
    lemma_answered_lines_shape(e, r, 0, j);
    if j > 0 {
        assert(r[j - 1].0 < deadline);
    }
}

} // verus!
