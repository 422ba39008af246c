//! What can go wrong while a word is carried out.

use vstd::prelude::*;
use vstd::string::*;

verus! {

/// A failure of one word. It ends the line that the word stands in and
/// nothing else: the session goes on with the next line.
#[derive(Debug, PartialEq, Eq)]
pub enum RpnError {
    /// A word needed more numbers than the stack holds.
    StackUnderflow,
    /// The word is no number, no built-in word and no defined word.
    UndefinedWord(String),
}

/// An [`RpnError`] with its word as a sequence of characters.
pub enum Failure {
    StackUnderflow,
    UndefinedWord(Seq<char>),
}

impl View for RpnError {
    type V = Failure;

    open spec fn view(&self) -> Failure {
        match self {
            RpnError::StackUnderflow => Failure::StackUnderflow,
            RpnError::UndefinedWord(w) => Failure::UndefinedWord(w@),
        }
    }
}

impl Failure {
    /// The line that reports the failure.
    pub open spec fn message(self) -> Seq<char> {
        match self {
            Failure::StackUnderflow => "stack underflow"@,
            Failure::UndefinedWord(w) => "unrecognised word: "@ + w,
        }
    }
}

impl RpnError {
    /// The line that reports the failure.
    pub fn message(&self) -> (text: String)
        ensures
            text@ == self@.message(),
    {
        match self {
            RpnError::StackUnderflow => String::from_str("stack underflow"),
            RpnError::UndefinedWord(w) => {
                let mut text = String::from_str("unrecognised word: ");
                text.append(w.as_str());
                text
            },
        }
    }
}

} // verus!
