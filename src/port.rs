//! Choice of the MIDI output port.
use vstd::prelude::*;

verus! {

/// Why no output port could be chosen.
#[derive(Debug, Clone, Copy, PartialEq, Eq, Structural)]
pub enum PortError {
    /// The system offers no output port.
    NoOutputPort,
    /// The operator's answer is not a port number.
    InvalidSelection,
}

/// How the output port is chosen among those available.
#[derive(Debug, Clone, Copy, PartialEq, Eq, Structural)]
pub enum PortSelection {
    /// The port with this number, the only one there is.
    Only(usize),
    /// Several ports: the operator picks one by number.
    Prompt,
}

/// Chooses how to pick a port among `port_count`: fails with none, takes the
/// only one, or asks the operator when there are several.
pub fn select_port(port_count: usize) -> (r: Result<PortSelection, PortError>)
    ensures
        port_count == 0 <==> r == Err::<PortSelection, PortError>(PortError::NoOutputPort),
        port_count == 1 <==> r == Ok::<PortSelection, PortError>(PortSelection::Only(0)),
        port_count >= 2 <==> r == Ok::<PortSelection, PortError>(PortSelection::Prompt),
{
    if port_count == 0 {
        Err(PortError::NoOutputPort)
    } else if port_count == 1 {
        Ok(PortSelection::Only(0))
    } else {
        Ok(PortSelection::Prompt)
    }
}

/// The text with the white space at both ends removed.
pub uninterp spec fn trimmed(s: Seq<char>) -> Seq<char>;

/// An ASCII decimal digit.
pub open spec fn is_digit(c: char) -> bool {
    '0' <= c && c <= '9'
}

/// The value of a string of decimal digits.
pub open spec fn digits_value(d: Seq<char>) -> int
    decreases d.len(),
{
    if d.len() == 0 {
        0
    } else {
        digits_value(d.drop_last()) * 10 + (d.last() as int - '0' as int)
    }
}

/// The digits of an unsigned decimal numeral: the text less one leading `+`.
pub open spec fn numeral_digits(s: Seq<char>) -> Seq<char> {
    if s.len() > 0 && s[0] == '+' {
        s.skip(1)
    } else {
        s
    }
}

/// The number that `s` writes in decimal, with an optional leading `+`, if it
/// writes one that fits in a `usize`.
pub open spec fn usize_of_text(s: Seq<char>) -> Option<usize> {
    let d = numeral_digits(s);
    if d.len() > 0 && (forall|i: int| 0 <= i < d.len() ==> is_digit(#[trigger] d[i]))
        && digits_value(d) <= usize::MAX {
        Some(digits_value(d) as usize)
    } else {
        None
    }
}

/// The port that the operator's answer names, read from text without
/// surrounding white space.
pub open spec fn port_of_answer(s: Seq<char>) -> Result<usize, PortError> {
    match usize_of_text(s) {
        Some(n) => Ok(n),
        None => Err(PortError::InvalidSelection),
    }
}

/// Relies on `str::trim`: removes leading and trailing white space, a
/// function of the text alone.
#[verifier::external_body]
fn trim_text(s: &str) -> (r: &str)
    ensures
        r@ == trimmed(s@),
{
    s.trim()
}

/// Relies on `usize::from_str`: an optional `+` followed by one or more ASCII
/// digits whose value fits, and nothing else, parses to that value.
#[verifier::external_body]
fn parse_usize(s: &str) -> (r: Option<usize>)
    ensures
        r == usize_of_text(s@),
{
    s.parse::<usize>().ok()
}

/// Reads a port number from an answer already stripped of white space.
pub fn port_from_trimmed(answer: &str) -> (r: Result<usize, PortError>)
    ensures
        r == port_of_answer(answer@),
{
    match parse_usize(answer) {
        Some(n) => Ok(n),
        None => Err(PortError::InvalidSelection),
    }
}

/// Reads the port number that the operator typed, ignoring white space at
/// both ends; any other text is an invalid selection.
pub fn parse_port_choice(input: &str) -> (r: Result<usize, PortError>)
    ensures
        r == port_of_answer(trimmed(input@)),
{
    let answer = trim_text(input);
    port_from_trimmed(answer)
}

} // verus!
