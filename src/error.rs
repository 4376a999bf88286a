//! The error carried back to the user interface.

use vstd::prelude::*;

verus! {

/// An error with a message for the user.
pub struct AppError {
    pub message: String,
}

impl AppError {
    pub fn new(msg: String) -> (r: Self)
        ensures
            r.message == msg,
    {
        AppError { message: msg }
    }

    /// The message, as the error displays it.
    pub fn to_string(&self) -> (r: String)
        ensures
            r == self.message,
    {
        self.message.clone()
    }
}

} // verus!
