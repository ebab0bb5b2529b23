//! What a command reports when it cannot go on.

use vstd::prelude::*;

verus! {

/// A message for the user.
#[derive(Debug)]
pub struct CliError {
    pub message: String,
}

impl View for CliError {
    type V = Seq<char>;

    open spec fn view(&self) -> Seq<char> {
        self.message@
    }
}

impl CliError {
    pub fn new(message: String) -> (r: CliError)
        ensures
            r@ == message@,
    {
        CliError { message }
    }

    /// The text of the message.
    pub fn to_string(&self) -> (r: String)
        ensures
            r@ == self@,
    {
        self.message.clone()
    }
}

} // verus!
