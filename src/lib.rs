//! A timed quiz engine: an ordered list of question/answer entries is asked
//! under one session-wide deadline, each response is checked by a trimmed,
//! case-sensitive comparison, and a tally is reported over all entries.
pub mod evaluator;
pub mod laws;
pub mod script;
pub mod session;
pub mod source;
pub mod tally;
