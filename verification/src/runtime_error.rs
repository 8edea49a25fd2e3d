//! The error a program run reports.
use vstd::prelude::*;

verus! {

/// An error raised while a program runs, with its message.
#[derive(Debug)]
pub struct RuntimeError {
    pub message: String,
}

impl RuntimeError {
    pub fn new(message: String) -> (e: Self)
        ensures
            e.message == message,
    {
        RuntimeError { message }
    }

    /// The line a failed run prints: `Runtime error: ` and the message.
    pub fn report(&self) -> (s: String)
        ensures
            s@ == "Runtime error: "@ + self.message@,
    {
        let mut s = String::new();
        crate::text::push_str(&mut s, "Runtime error: ");
        crate::text::push_str(&mut s, self.message.as_str());
        s
    }
}

} // verus!
