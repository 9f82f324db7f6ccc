use std::num::ParseIntError;
use vstd::prelude::*;

verus! {

/// `std::num::ParseIntError`, the error of a text that is no number. It is
/// carried through as it is; nothing is said of what it holds.
#[verifier::external_type_specification]
#[verifier::external_body]
pub struct ExParseIntError(ParseIntError);

/// Why no input port could be chosen.
pub enum PortError {
    /// There is no input port at all.
    NoInputPort,
    /// What the user typed is not a number.
    NotANumber(ParseIntError),
    /// No port has the number that the user typed.
    InvalidPort,
}

/// What to do once the number of input ports is known.
pub enum PortPlan {
    /// There is one port only: take it, it has index 0.
    UseOnlyPort,
    /// There are several: the user has to choose.
    AskUser,
}

/// What `str::trim` returns for `input`: `input` without the white space at
/// both its ends.
pub uninterp spec fn trimmed(input: Seq<char>) -> Seq<char>;

/// Whether `c` is one of the digits `0` to `9`.
pub open spec fn is_digit(c: char) -> bool {
    '0' as u32 <= c as u32 <= '9' as u32
}

/// The number that a run of digits writes in base ten.
pub open spec fn decimal_value(digits: Seq<char>) -> nat
    decreases digits.len(),
{
    if digits.len() == 0 {
        0
    } else {
        (10 * decimal_value(digits.drop_last()) + (digits.last() as u32 - '0' as u32)) as nat
    }
}

/// Whether `text` holds digits only.
pub open spec fn all_digits(text: Seq<char>) -> bool {
    forall|i: int| 0 <= i < text.len() ==> is_digit(#[trigger] text[i])
}

/// `text` without the `+` that may stand at its head.
pub open spec fn unsigned_part(text: Seq<char>) -> Seq<char> {
    if text.len() > 0 && text[0] == '+' {
        text.skip(1)
    } else {
        text
    }
}

/// The index that `text` writes: an optional `+`, then at least one digit
/// and nothing but digits, of a value that fits. `None` for any other text.
pub open spec fn written_index(text: Seq<char>) -> Option<usize> {
    let digits = unsigned_part(text);
    if digits.len() > 0 && all_digits(digits) && decimal_value(digits) <= usize::MAX {
        Some(decimal_value(digits) as usize)
    } else {
        None
    }
}

/// `str::trim`: the slice of `input` that is left when the white space at
/// its two ends is taken away. The contract gives that slice its name and
/// claims no more than that it depends on the text of `input` alone.
#[verifier::external_body]
fn trim(input: &str) -> (text: &str)
    ensures
        text@ == trimmed(input@),
{
    input.trim()
}

/// `str::parse::<usize>`: succeeds on an optional `+` followed by one or
/// more decimal digits whose value fits in a `usize`, with that value, and
/// fails on every other text.
#[verifier::external_body]
fn parse_index(text: &str) -> (parsed: Result<usize, ParseIntError>)
    ensures
        parsed is Ok <==> written_index(text@) is Some,
        parsed matches Ok(index) ==> written_index(text@) == Some(index),
{
    text.parse::<usize>()
}

/// The first decision: with no port there is nothing to open, with one
/// there is nothing to ask.
pub fn plan_port(port_count: usize) -> (plan: Result<PortPlan, PortError>)
    ensures
        port_count == 0 <==> plan matches Err(PortError::NoInputPort),
        port_count == 1 <==> plan matches Ok(PortPlan::UseOnlyPort),
        port_count > 1 <==> plan matches Ok(PortPlan::AskUser),
{
    if port_count == 0 {
        Err(PortError::NoInputPort)
    } else if port_count == 1 {
        Ok(PortPlan::UseOnlyPort)
    } else {
        Ok(PortPlan::AskUser)
    }
}

/// The port that `text` selects among `port_count` ports: the index it
/// writes, if it writes one and there is such a port.
pub fn port_from_text(port_count: usize, text: &str) -> (port: Result<usize, PortError>)
    ensures
        match written_index(text@) {
            Some(index) => if index < port_count {
                port == Ok::<usize, PortError>(index)
            } else {
                port matches Err(PortError::InvalidPort)
            },
            None => port matches Err(PortError::NotANumber(_)),
        },
{
    match parse_index(text) {
        Ok(index) => {
            if index < port_count {
                Ok(index)
            } else {
                Err(PortError::InvalidPort)
            }
        },
        Err(e) => Err(PortError::NotANumber(e)),
    }
}

/// The port that a line typed by the user selects among `port_count`
/// ports. White space around the number, the line's end included, does not
/// count.
pub fn select_port(port_count: usize, input: &str) -> (port: Result<usize, PortError>)
    ensures
        match written_index(trimmed(input@)) {
            Some(index) => if index < port_count {
                port == Ok::<usize, PortError>(index)
            } else {
                port matches Err(PortError::InvalidPort)
            },
            None => port matches Err(PortError::NotANumber(_)),
        },
{
    port_from_text(port_count, trim(input))
}

impl PortError {
    /// The error in words.
    pub fn message(&self) -> (text: String)
        ensures
            self is NoInputPort ==> text@ == "no input port found"@,
            self is InvalidPort ==> text@ == "invalid input port selected"@,
    {
        match self {
            PortError::NoInputPort => "no input port found".to_string(),
            PortError::NotANumber(e) => e.to_string(),
            PortError::InvalidPort => "invalid input port selected".to_string(),
        }
    }
}

} // verus!
