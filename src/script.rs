//! A whole session run against a scripted operator: each reply carries the
//! time, counted from the start of the session, at which it is typed.
use vstd::prelude::*;
use crate::evaluator::is_match;
use crate::session::{entries_view, feedback_line, Prompt, QuizEntry, Session};
use crate::tally::result_line;

verus! {

/// One scripted line of operator input and when it arrives.
pub struct TimedReply {
    pub at: u64,
    pub line: String,
}

impl View for TimedReply {
    type V = (nat, Seq<char>);

    open spec fn view(&self) -> (nat, Seq<char>) {
        (self.at as nat, self.line@)
    }
}

/// The view of a script.
pub open spec fn replies_view(v: Seq<TimedReply>) -> Seq<(nat, Seq<char>)> {
    v.map_values(|r: TimedReply| r@)
}

/// The view of the lines written so far.
pub open spec fn lines_view(v: Seq<String>) -> Seq<Seq<char>> {
    v.map_values(|s: String| s@)
}

/// The operator's input ended while a response was awaited.
#[derive(Clone, Copy, PartialEq, Eq, Debug, Structural)]
pub enum InputFault {
    Closed,
}

/// The line that announces an expired deadline.
pub open spec fn time_up_line() -> Seq<char> {
    "Time is up"@
}

/// `a` before the lines of `o`, if there are any.
pub open spec fn prepend(a: Seq<Seq<char>>, o: Option<Seq<Seq<char>>>) -> Option<Seq<Seq<char>>> {
    match o {
        Some(rest) => Some(a + rest),
        None => None,
    }
}

/// The lines written from entry `k` on, at time `now`, with `correct` answers
/// so far, under a deadline `deadline` time units after the start; `None` when
/// the script runs out while a response is awaited.
pub open spec fn play(
    e: Seq<(Seq<char>, Seq<char>)>,
    deadline: nat,
    r: Seq<(nat, Seq<char>)>,
    k: nat,
    now: nat,
    correct: nat,
) -> Option<Seq<Seq<char>>>
    decreases e.len() - k,
{
    if k >= e.len() {
        Some(seq![result_line(correct, e.len())])
    } else if now >= deadline {
        Some(seq![time_up_line(), result_line(correct, e.len())])
    } else if k >= r.len() {
        None
    } else if r[k as int].0 >= deadline {
        Some(seq![e[k as int].0, time_up_line(), result_line(correct, e.len())])
    } else {
        let (q, a) = e[k as int];
        let got = r[k as int].1;
        prepend(
            seq![q, feedback_line(q, a, got)],
            play(e, deadline, r, k + 1, r[k as int].0, correct + if is_match(a, got) {
                1nat
            } else {
                0nat
            }),
        )
    }
}

/// The whole transcript of a session.
pub open spec fn transcript(
    e: Seq<(Seq<char>, Seq<char>)>,
    deadline: nat,
    r: Seq<(nat, Seq<char>)>,
) -> Option<Seq<Seq<char>>> {
    play(e, deadline, r, 0, 0, 0)
}

pub(crate) proof fn lemma_prepend_assoc(
    a: Seq<Seq<char>>,
    b: Seq<Seq<char>>,
    o: Option<Seq<Seq<char>>>,
)
    ensures
        prepend(a, prepend(b, o)) == prepend(a + b, o),
        prepend(Seq::empty(), o) == o,
{
    if let Some(rest) = o {
        assert(a + (b + rest) =~= (a + b) + rest);
        assert(Seq::<Seq<char>>::empty() + rest =~= rest);
    }
}

/// Runs a session over `entries` with a deadline `duration` time units after
/// the start, the operator typing `replies[i]` in answer to the `i`th question.
/// Returns every line written: each question, its feedback, the timeout notice
/// if the deadline ended the session, and the result line.
pub fn run_session(entries: Vec<QuizEntry>, duration: u64, replies: &Vec<TimedReply>) -> (r: Result<
    Vec<String>,
    InputFault,
>)
    ensures
        match r {
            Ok(lines) => transcript(entries_view(entries@), duration as nat, replies_view(replies@))
                == Some(lines_view(lines@)),
            Err(_) => transcript(entries_view(entries@), duration as nat, replies_view(replies@))
                is None,
        },
{
    let ghost e = entries_view(entries@);
    let ghost rs = replies_view(replies@);
    let ghost d = duration as nat;
    let mut session = Session::new(entries);
    let mut out: Vec<String> = Vec::new();
    let mut now: u64 = 0;
    loop
        invariant
            session.wf(),
            session@.entries == e,
            e == entries_view(entries@),
            !session@.awaiting,
            !session@.terminated_early,
            rs == replies_view(replies@),
            d == duration as nat,
            transcript(e, d, rs) == prepend(
                lines_view(out@),
                play(e, d, rs, session@.position, now as nat, session@.correct_count),
            ),
        decreases e.len() - session@.position,
    {
        let ghost k = session@.position;
        let ghost c = session@.correct_count;
        let ghost before = lines_view(out@);
        let expired = now >= duration;
        match session.next_prompt(expired) {
            Prompt::Finished => {
                let line = session.summary().render();
                out.push(line);
                assert(lines_view(out@) =~= before + seq![result_line(c, e.len())]);
                return Ok(out);
            },
            Prompt::TimeUp => {
                let mut notice = String::new();
                notice.append("Time is up");
                out.push(notice);
                let line = session.summary().render();
                out.push(line);
                assert(lines_view(out@) =~= before + seq![time_up_line(), result_line(c, e.len())]);
                return Ok(out);
            },
            Prompt::Ask(question) => {
                let i = session.position();
                if i >= replies.len() {
                    return Err(InputFault::Closed);
                }
                let reply = &replies[i];
                if reply.at >= duration {
                    let _ = session.expire();
                    out.push(question);
                    let mut notice = String::new();
                    notice.append("Time is up");
                    out.push(notice);
                    let line = session.summary().render();
                    out.push(line);
                    assert(lines_view(out@) =~= before + seq![
                        e[k as int].0,
                        time_up_line(),
                        result_line(c, e.len()),
                    ]);
                    return Ok(out);
                }
                let feedback = session.record_response(reply.line.as_str());
                proof {
                    let (q, a) = e[k as int];
                    lemma_prepend_assoc(before, seq![q, feedback_line(q, a, rs[k as int].1)],
                        play(e, d, rs, k + 1, reply.at as nat, session@.correct_count));
                }
                out.push(question);
                out.push(feedback.message);
                now = reply.at;
                assert(lines_view(out@) =~= before + seq![
                    e[k as int].0,
                    feedback_line(e[k as int].0, e[k as int].1, rs[k as int].1),
                ]);
            },
        }
    }
}

} // verus!
