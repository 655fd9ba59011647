use vstd::prelude::*;

verus! {

/// Why a command was not carried out.
#[derive(Debug, PartialEq, Eq)]
pub enum CommandError {
    /// The command's `what` is none of the known ones; holds that `what`.
    UnknownCommand(String),
    /// The payload is missing where it is required, or has the wrong shape; holds why.
    MalformedPayload(String),
    /// No record has the document name that it holds.
    NotFound(String),
    /// The durable store refused an operation; holds its report.
    StoreError(String),
}

pub ghost enum ErrorView {
    UnknownCommand(Seq<char>),
    MalformedPayload(Seq<char>),
    NotFound(Seq<char>),
    StoreError(Seq<char>),
}

impl View for CommandError {
    type V = ErrorView;

    open spec fn view(&self) -> ErrorView {
        match self {
            CommandError::UnknownCommand(s) => ErrorView::UnknownCommand(s@),
            CommandError::MalformedPayload(s) => ErrorView::MalformedPayload(s@),
            CommandError::NotFound(s) => ErrorView::NotFound(s@),
            CommandError::StoreError(s) => ErrorView::StoreError(s@),
        }
    }
}

/// The text that reports an error to the client.
pub open spec fn error_text(e: ErrorView) -> Seq<char> {
    match e {
        ErrorView::UnknownCommand(w) => "invalid 'what' code:'"@ + w + "'"@,
        ErrorView::MalformedPayload(m) => m,
        ErrorView::NotFound(n) => "no document named '"@ + n + "'"@,
        ErrorView::StoreError(m) => m,
    }
}

impl CommandError {
    /// The text that reports this error to the client.
    pub fn message(&self) -> (r: String)
        ensures
            r@ == error_text(self@),
    {
        match self {
            CommandError::UnknownCommand(w) => {
                let mut t = String::from_str("invalid 'what' code:'");
                t.append(w.as_str());
                t.append("'");
                t
            },
            CommandError::MalformedPayload(m) => m.clone(),
            CommandError::NotFound(n) => {
                let mut t = String::from_str("no document named '");
                t.append(n.as_str());
                t.append("'");
                t
            },
            CommandError::StoreError(m) => m.clone(),
        }
    }
}

} // verus!
