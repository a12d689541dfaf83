//! The errors that the rule model and the rule store report.

use vstd::prelude::*;

use crate::text::decimal_string;
use crate::text::dec_text;

verus! {

/// An error of the rule model or of the rule store.
#[derive(Debug)]
pub enum Error {
    /// A rule, or a part of one, that cannot be accepted, with the reason.
    InvalidRule(String),
    /// No rule has this id.
    RuleNotFound(u32),
    /// The packet filter is not enabled.
    NotEnabled,
    /// The caller lacks the rights that the operation needs.
    PermissionDenied,
}

/// What an [`Error`] says, with its text as characters.
pub enum ErrorView {
    InvalidRule(Seq<char>),
    RuleNotFound(u32),
    NotEnabled,
    PermissionDenied,
}

impl View for Error {
    type V = ErrorView;

    open spec fn view(&self) -> ErrorView {
        match self {
            Error::InvalidRule(m) => ErrorView::InvalidRule(m@),
            Error::RuleNotFound(id) => ErrorView::RuleNotFound(*id),
            Error::NotEnabled => ErrorView::NotEnabled,
            Error::PermissionDenied => ErrorView::PermissionDenied,
        }
    }
}

/// The result of an operation of this library.
pub type Result<T> = std::result::Result<T, Error>;

/// A result with its error taken by its view.
pub open spec fn result_view<T>(r: Result<T>) -> std::result::Result<T, ErrorView> {
    match r {
        Ok(v) => Ok(v),
        Err(e) => Err(e@),
    }
}

/// The message of an error, as a user reads it.
pub open spec fn error_text(e: ErrorView) -> Seq<char> {
    match e {
        ErrorView::InvalidRule(m) => "invalid rule: "@ + m,
        ErrorView::RuleNotFound(id) => "rule #"@ + dec_text(id as nat) + " not found"@,
        ErrorView::NotEnabled => "pf not enabled \u{2014} run `mufw enable` first"@,
        ErrorView::PermissionDenied => "permission denied \u{2014} mufw must run as root (try `sudo`)"@,
    }
}

impl Error {
    /// The message of this error, as a user reads it.
    pub fn message(&self) -> (s: String)
        ensures
            s@ == error_text(self@),
    {
        match self {
            Error::InvalidRule(m) => {
                let mut s = "invalid rule: ".to_owned();
                s.append(m.as_str());
                s
            },
            Error::RuleNotFound(id) => {
                let mut s = "rule #".to_owned();
                let n = decimal_string(*id);
                s.append(n.as_str());
                s.append(" not found");
                s
            },
            Error::NotEnabled => "pf not enabled \u{2014} run `mufw enable` first".to_owned(),
            Error::PermissionDenied => "permission denied \u{2014} mufw must run as root (try `sudo`)".to_owned(),
        }
    }
}

}
