//! The session state machine: which entry is asked next, what a response or an
//! expired deadline does to the session, and what is reported at its end.
use vstd::prelude::*;
use crate::evaluator::{answer_matches, is_match, trim_response, trimmed};
use crate::tally::Tally;

verus! {

/// One question and its canonical answer.
pub struct QuizEntry {
    pub question: String,
    pub answer: String,
}

impl QuizEntry {
    pub fn new(question: String, answer: String) -> (r: QuizEntry)
        ensures
            r.question@ == question@,
            r.answer@ == answer@,
    {
        QuizEntry { question, answer }
    }
}

impl View for QuizEntry {
    type V = (Seq<char>, Seq<char>);

    open spec fn view(&self) -> (Seq<char>, Seq<char>) {
        (self.question@, self.answer@)
    }
}

/// The view of a list of entries: (question, answer) pairs in order.
pub open spec fn entries_view(v: Seq<QuizEntry>) -> Seq<(Seq<char>, Seq<char>)> {
    v.map_values(|e: QuizEntry| e@)
}

/// The fate of one entry.
#[derive(Clone, Copy, PartialEq, Eq, Debug, Structural)]
pub enum Outcome {
    Correct,
    Incorrect,
    TimedOut,
}

/// How many of the first `responses.len()` entries were answered correctly.
pub open spec fn count_correct(
    entries: Seq<(Seq<char>, Seq<char>)>,
    responses: Seq<Seq<char>>,
) -> nat
    decreases responses.len(),
{
    if responses.len() == 0 {
        0
    } else {
        let k = (responses.len() - 1) as int;
        count_correct(entries, responses.drop_last()) + if is_match(entries[k].1, responses[k]) {
            1nat
        } else {
            0nat
        }
    }
}

/// The feedback line for a response to `question` whose answer is `answer`.
pub open spec fn feedback_line(question: Seq<char>, answer: Seq<char>, raw: Seq<char>) -> Seq<char> {
    if is_match(answer, raw) {
        "Correct!"@
    } else {
        "Wrong! The answer to "@ + question + " is "@ + answer + ", not "@ + trimmed(raw)
    }
}

/// What the driver is to do next.
pub enum Prompt {
    /// Present this question and race its response against the deadline.
    Ask(String),
    /// The deadline has passed: announce it, then report.
    TimeUp,
    /// No entry is left to present: report.
    Finished,
}

/// What a response did.
pub struct Feedback {
    pub outcome: Outcome,
    pub message: String,
}

/// The view of a session.
pub struct SessionView {
    pub entries: Seq<(Seq<char>, Seq<char>)>,
    pub position: nat,
    pub correct_count: nat,
    pub attempted_count: nat,
    pub terminated_early: bool,
    pub awaiting: bool,
    pub responses: Seq<Seq<char>>,
}

/// A quiz session over an ordered list of entries.
pub struct Session {
    entries: Vec<QuizEntry>,
    position: usize,
    correct_count: usize,
    attempted_count: usize,
    terminated_early: bool,
    awaiting: bool,
    responses: Ghost<Seq<Seq<char>>>,
}

impl View for Session {
    type V = SessionView;

    closed spec fn view(&self) -> SessionView {
        SessionView {
            entries: entries_view(self.entries@),
            position: self.position as nat,
            correct_count: self.correct_count as nat,
            attempted_count: self.attempted_count as nat,
            terminated_early: self.terminated_early,
            awaiting: self.awaiting,
            responses: self.responses@,
        }
    }
}

impl SessionView {
    /// The session's invariant.
    pub open spec fn wf(self) -> bool {
        &&& self.position <= self.entries.len() <= usize::MAX
        &&& self.attempted_count == self.position
        &&& self.responses.len() == self.position
        &&& self.correct_count == count_correct(self.entries, self.responses)
        &&& self.correct_count <= self.attempted_count
        &&& self.awaiting ==> self.position < self.entries.len() && !self.terminated_early
    }
}

proof fn lemma_count_correct_bound(entries: Seq<(Seq<char>, Seq<char>)>, responses: Seq<Seq<char>>)
    ensures
        count_correct(entries, responses) <= responses.len(),
    decreases responses.len(),
{
    if responses.len() > 0 {
        lemma_count_correct_bound(entries, responses.drop_last());
    }
}

impl Session {
    pub open spec fn wf(&self) -> bool {
        self@.wf()
    }

    /// A session that has presented nothing yet.
    pub fn new(entries: Vec<QuizEntry>) -> (r: Session)
        ensures
            r.wf(),
            r@.entries == entries_view(entries@),
            r@.position == 0,
            r@.correct_count == 0,
            r@.attempted_count == 0,
            !r@.terminated_early,
            !r@.awaiting,
            r@.responses == Seq::<Seq<char>>::empty(),
    {
        // Asking for the length brings in that it fits a `usize`.
        let _len: usize = entries.len();
        Session {
            entries,
            position: 0,
            correct_count: 0,
            attempted_count: 0,
            terminated_early: false,
            awaiting: false,
            responses: Ghost(Seq::empty()),
        }
    }

    /// Decides the next step, given whether the deadline has already passed.
    /// A finished or timed-out session asks nothing; otherwise an expired
    /// deadline ends the session before the next entry is presented, and a live
    /// one presents the entry at the current position.
    pub fn next_prompt(&mut self, expired: bool) -> (r: Prompt)
        requires
            old(self).wf(),
            !old(self)@.awaiting,
        ensures
            final(self).wf(),
            final(self)@.entries == old(self)@.entries,
            final(self)@.position == old(self)@.position,
            final(self)@.correct_count == old(self)@.correct_count,
            final(self)@.attempted_count == old(self)@.attempted_count,
            final(self)@.responses == old(self)@.responses,
            old(self)@.terminated_early || old(self)@.position == old(self)@.entries.len() ==> {
                &&& r is Finished
                &&& final(self)@.terminated_early == old(self)@.terminated_early
                &&& !final(self)@.awaiting
            },
            !old(self)@.terminated_early && old(self)@.position < old(self)@.entries.len() ==> {
                if expired {
                    &&& r is TimeUp
                    &&& final(self)@.terminated_early
                    &&& !final(self)@.awaiting
                } else {
                    &&& r is Ask
                    &&& r->Ask_0@ == old(self)@.entries[old(self)@.position as int].0
                    &&& !final(self)@.terminated_early
                    &&& final(self)@.awaiting
                }
            },
    {
        if self.terminated_early || self.position == self.entries.len() {
            Prompt::Finished
        } else if expired {
            self.terminated_early = true;
            Prompt::TimeUp
        } else {
            self.awaiting = true;
            Prompt::Ask(self.entries[self.position].question.clone())
        }
    }

    /// The response to the entry being asked arrived before the deadline: it is
    /// judged, counted, and the session moves to the next entry.
    pub fn record_response(&mut self, raw: &str) -> (r: Feedback)
        requires
            old(self).wf(),
            old(self)@.awaiting,
        ensures
            final(self).wf(),
            ({
                let s = old(self)@;
                let (q, a) = s.entries[s.position as int];
                &&& final(self)@.entries == s.entries
                &&& final(self)@.position == s.position + 1
                &&& final(self)@.attempted_count == s.attempted_count + 1
                &&& final(self)@.correct_count == s.correct_count + if is_match(a, raw@) {
                    1nat
                } else {
                    0nat
                }
                &&& final(self)@.responses == s.responses.push(raw@)
                &&& !final(self)@.terminated_early
                &&& !final(self)@.awaiting
                &&& r.outcome == if is_match(a, raw@) {
                    Outcome::Correct
                } else {
                    Outcome::Incorrect
                }
                &&& r.message@ == feedback_line(q, a, raw@)
            }),
    {
        let ghost s = self@;
        let entry = &self.entries[self.position];
        let ok = answer_matches(entry.answer.as_str(), raw);
        let mut message = String::new();
        if ok {
            message.append("Correct!");
        } else {
            message.append("Wrong! The answer to ");
            message.append(entry.question.as_str());
            message.append(" is ");
            message.append(entry.answer.as_str());
            message.append(", not ");
            let got = trim_response(raw);
            message.append(got.as_str());
        }
        proof {
            lemma_count_correct_bound(s.entries, s.responses);
            let r2 = s.responses.push(raw@);
            assert(r2.drop_last() == s.responses);
        }
        if ok {
            self.correct_count = self.correct_count + 1;
        }
        self.position = self.position + 1;
        self.attempted_count = self.attempted_count + 1;
        self.awaiting = false;
        self.responses = Ghost(self.responses@.push(raw@));
        Feedback {
            outcome: if ok { Outcome::Correct } else { Outcome::Incorrect },
            message,
        }
    }

    /// The deadline passed while the current entry's response was awaited: the
    /// session ends, and a response that comes later is never looked at.
    pub fn expire(&mut self) -> (r: Outcome)
        requires
            old(self).wf(),
            old(self)@.awaiting,
        ensures
            final(self).wf(),
            final(self)@ == (SessionView {
                terminated_early: true,
                awaiting: false,
                ..old(self)@
            }),
            r == Outcome::TimedOut,
    {
        self.terminated_early = true;
        self.awaiting = false;
        Outcome::TimedOut
    }

    /// The index of the entry being asked, or to be asked next.
    pub fn position(&self) -> (r: usize)
        ensures
            r == self@.position,
    {
        self.position
    }

    /// How many entries were answered correctly so far.
    pub fn correct_count(&self) -> (r: usize)
        ensures
            r == self@.correct_count,
    {
        self.correct_count
    }

    /// How many entries received a response so far.
    pub fn attempted_count(&self) -> (r: usize)
        ensures
            r == self@.attempted_count,
    {
        self.attempted_count
    }

    /// Whether the deadline ended the session.
    pub fn terminated_early(&self) -> (r: bool)
        ensures
            r == self@.terminated_early,
    {
        self.terminated_early
    }

    /// The counts to report: correct answers over every entry of the session.
    pub fn summary(&self) -> (r: Tally)
        requires
            self.wf(),
        ensures
            r.correct_count == self@.correct_count,
            r.denominator == self@.entries.len(),
    {
        Tally { correct_count: self.correct_count, denominator: self.entries.len() }
    }
}

} // verus!
