//! The final count of a session and its one-line report.
use vstd::prelude::*;

verus! {

/// The character of a decimal digit.
pub open spec fn digit_char(d: nat) -> char {
    if d == 0 { '0' }
    else if d == 1 { '1' }
    else if d == 2 { '2' }
    else if d == 3 { '3' }
    else if d == 4 { '4' }
    else if d == 5 { '5' }
    else if d == 6 { '6' }
    else if d == 7 { '7' }
    else if d == 8 { '8' }
    else { '9' }
}

/// The decimal notation of `n`, without sign or leading zeros.
pub open spec fn decimal(n: nat) -> Seq<char>
    decreases n,
{
    if n < 10 {
        seq![digit_char(n)]
    } else {
        decimal(n / 10).push(digit_char(n % 10))
    }
}

/// `Result: <correct>/<total> correct`.
pub open spec fn result_line(correct: nat, total: nat) -> Seq<char> {
    "Result: "@ + decimal(correct) + "/"@ + decimal(total) + " correct"@
}

/// Relies on the `Display` of `usize` (through `to_string`): plain decimal digits.
#[verifier::external_body]
fn decimal_text(n: usize) -> (r: String)
    ensures
        r@ == decimal(n as nat),
{
    n.to_string()
}

/// The outcome of a session: how many entries were answered correctly, out of
/// how many entries the session held (asked or not).
pub struct Tally {
    pub correct_count: usize,
    pub denominator: usize,
}

impl Tally {
    /// The report line, `Result: <correct>/<denominator> correct`.
    pub fn render(&self) -> (r: String)
        ensures
            r@ == result_line(self.correct_count as nat, self.denominator as nat),
    {
        let mut s = String::new();
        s.append("Result: ");
        let c = decimal_text(self.correct_count);
        s.append(c.as_str());
        s.append("/");
        let d = decimal_text(self.denominator);
        s.append(d.as_str());
        s.append(" correct");
        s
    }
}

} // verus!
