//! Messages for the notice strip and the footer.

use vstd::prelude::*;

verus! {

#[derive(Clone, Copy, Debug, PartialEq, Eq, Structural)]
pub enum MessageSeverity {
    Error,
    Warning,
    Status,
}

/// A line of text with its severity.
#[derive(Debug, PartialEq, Eq)]
pub struct AppMessage {
    pub text: String,
    pub severity: MessageSeverity,
}

impl AppMessage {
    pub fn error(text: String) -> (message: Self)
        ensures
            message == (AppMessage { text, severity: MessageSeverity::Error }),
    {
        AppMessage::new(text, MessageSeverity::Error)
    }

    pub fn warning(text: String) -> (message: Self)
        ensures
            message == (AppMessage { text, severity: MessageSeverity::Warning }),
    {
        AppMessage::new(text, MessageSeverity::Warning)
    }

    pub fn status(text: String) -> (message: Self)
        ensures
            message == (AppMessage { text, severity: MessageSeverity::Status }),
    {
        AppMessage::new(text, MessageSeverity::Status)
    }

    pub fn new(text: String, severity: MessageSeverity) -> (message: Self)
        ensures
            message == (AppMessage { text, severity }),
    {
        AppMessage { text, severity }
    }
}

impl Clone for AppMessage {
    fn clone(&self) -> (copy: Self)
        ensures
            copy == *self,
    {
        AppMessage { text: self.text.clone(), severity: self.severity }
    }
}

} // verus!
