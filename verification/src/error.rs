//! What an override can fail with.

use vstd::prelude::*;
use vstd::string::StringExecFns;

verus! {

/// Why an override was not applied.
#[derive(Debug)]
pub enum NsError {
    /// No leaf and no namespace answers to this key.
    UnknownKey(String),
    /// The option has no `=`, or the value is not of the leaf's type.
    ParseError { key: String, value: String, msg: String },
}

/// An `NsError` as plain sequences of characters.
pub enum NsErrorView {
    UnknownKey(Seq<char>),
    ParseError { key: Seq<char>, value: Seq<char>, msg: Seq<char> },
}

impl View for NsError {
    type V = NsErrorView;

    open spec fn view(&self) -> NsErrorView {
        match self {
            NsError::UnknownKey(k) => NsErrorView::UnknownKey(k@),
            NsError::ParseError { key, value, msg } => NsErrorView::ParseError {
                key: key@,
                value: value@,
                msg: msg@,
            },
        }
    }
}

/// The line that reports `e` to a person.
pub open spec fn error_text(e: NsErrorView) -> Seq<char> {
    match e {
        NsErrorView::UnknownKey(k) => "unknown option: "@ + k,
        NsErrorView::ParseError { key, value, msg } => "invalid value for "@ + key + ": "@ + value
            + " ("@ + msg + ")"@,
    }
}

impl NsError {
    /// The line that reports this error to a person.
    pub fn message(&self) -> (text: String)
        ensures
            text@ == error_text(self@),
    {
        match self {
            NsError::UnknownKey(k) => {
                let mut text = String::from_str("unknown option: ");
                text.append(k.as_str());
                text
            },
            NsError::ParseError { key, value, msg } => {
                let mut text = String::from_str("invalid value for ");
                text.append(key.as_str());
                text.append(": ");
                text.append(value.as_str());
                text.append(" (");
                text.append(msg.as_str());
                text.append(")");
                text
            },
        }
    }
}

} // verus!
