//! The error of a failed command.

use vstd::prelude::*;

verus! {

/// A message for whoever ran the command.
#[derive(Debug)]
pub struct TemperError {
    message: String,
}

impl View for TemperError {
    type V = Seq<char>;

    closed spec fn view(&self) -> Seq<char> {
        self.message@
    }
}

impl TemperError {
    pub fn new(message: String) -> (error: TemperError)
        ensures
            error@ == message@,
    {
        TemperError { message }
    }

    pub fn message(&self) -> (message: &str)
        ensures
            message@ == self@,
    {
        self.message.as_str()
    }
}

} // verus!
