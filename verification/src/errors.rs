//! The errors of the sandbox and the messages they are reported with.
use vstd::prelude::*;
use crate::text::concat;

verus! {

/// An error of the sandbox.
#[derive(Clone, Debug, PartialEq, Eq)]
pub enum SunabaError {
    Docker(String),
    Io(String),
    InvalidInput(String),
    Timeout,
    NotFound(String),
    Internal(String),
}

/// An error with its texts as character sequences.
pub enum ErrorView {
    Docker(Seq<char>),
    Io(Seq<char>),
    InvalidInput(Seq<char>),
    Timeout,
    NotFound(Seq<char>),
    Internal(Seq<char>),
}

impl View for SunabaError {
    type V = ErrorView;

    open spec fn view(&self) -> ErrorView {
        match self {
            SunabaError::Docker(s) => ErrorView::Docker(s@),
            SunabaError::Io(s) => ErrorView::Io(s@),
            SunabaError::InvalidInput(s) => ErrorView::InvalidInput(s@),
            SunabaError::Timeout => ErrorView::Timeout,
            SunabaError::NotFound(s) => ErrorView::NotFound(s@),
            SunabaError::Internal(s) => ErrorView::Internal(s@),
        }
    }
}

/// The message an error is reported with.
pub open spec fn message_spec(e: ErrorView) -> Seq<char> {
    match e {
        ErrorView::Docker(s) => "docker error: "@ + s,
        ErrorView::Io(s) => "io error: "@ + s,
        ErrorView::InvalidInput(s) => "invalid input: "@ + s,
        ErrorView::Timeout => "timeout"@,
        ErrorView::NotFound(s) => "not found: "@ + s,
        ErrorView::Internal(s) => "internal error: "@ + s,
    }
}

impl SunabaError {
    /// The message this error is reported with.
    pub fn message(&self) -> (res: String)
        ensures
            res@ == message_spec(self@),
    {
        match self {
            SunabaError::Docker(s) => concat("docker error: ", s.as_str()),
            SunabaError::Io(s) => concat("io error: ", s.as_str()),
            SunabaError::InvalidInput(s) => concat("invalid input: ", s.as_str()),
            SunabaError::Timeout => String::from_str("timeout"),
            SunabaError::NotFound(s) => concat("not found: ", s.as_str()),
            SunabaError::Internal(s) => concat("internal error: ", s.as_str()),
        }
    }
}

} // verus!
