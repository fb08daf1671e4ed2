//! What went wrong, in words for the person who gave the command.

use vstd::prelude::*;

verus! {

/// An error: its message, from the general to the particular, the parts joined by `: `.
#[derive(Debug, PartialEq, Eq)]
pub struct Failure {
    pub message: String,
}

impl View for Failure {
    type V = Seq<char>;

    open spec fn view(&self) -> Seq<char> {
        self.message@
    }
}

impl Clone for Failure {
    fn clone(&self) -> (r: Self)
        ensures
            r@ == self@,
    {
        Failure { message: self.message.clone() }
    }
}

/// A result with its error as text.
pub open spec fn outcome<T>(r: Result<T, Failure>) -> Result<T, Seq<char>> {
    match r {
        Ok(value) => Ok(value),
        Err(e) => Err(e@),
    }
}

/// A result with its value and its error as texts.
pub open spec fn text_outcome(r: Result<String, Failure>) -> Result<Seq<char>, Seq<char>> {
    match r {
        Ok(value) => Ok(value@),
        Err(e) => Err(e@),
    }
}

/// An error that a check found, or none.
pub open spec fn verdict(problem: Option<Seq<char>>) -> Result<(), Seq<char>> {
    match problem {
        Some(message) => Err(message),
        None => Ok(()),
    }
}

/// A message and the cause behind it.
pub open spec fn because(context: Seq<char>, cause: Seq<char>) -> Seq<char> {
    context + ": "@ + cause
}

impl Failure {
    pub fn new(message: &str) -> (r: Failure)
        ensures
            r@ == message@,
    {
        Failure { message: message.to_owned() }
    }

    pub fn of(message: String) -> (r: Failure)
        ensures
            r@ == message@,
    {
        Failure { message }
    }

    /// An error with its cause.
    pub fn caused(context: &str, cause: &str) -> (r: Failure)
        ensures
            r@ == because(context@, cause@),
    {
        let mut message = context.to_owned();
        message.append(": ");
        message.append(cause);
        Failure { message }
    }
}

/// A failure names what was tried and, behind a colon, why it failed.
pub proof fn law_because(context: Seq<char>, cause: Seq<char>)
    ensures
        because(context, cause) == context + ": "@ + cause,
{
}

} // verus!
