//! The error type shared by the domain core and the adapters.

use vstd::prelude::*;

use crate::text::push_str;

verus! {

/// The abstract value of an error: its kind and its message text.
pub enum ErrorView {
    NotFound(Seq<char>),
    Backend(Seq<char>),
    Config(Seq<char>),
    Invalid(Seq<char>),
    Io(Seq<char>),
    Json(Seq<char>),
}

/// Why an operation failed.
#[derive(Debug)]
pub enum Error {
    /// No task has the given id.
    NotFound(String),
    /// An outside backend (a command-line tool) failed.
    Backend(String),
    /// Loading or saving the configuration failed.
    Config(String),
    /// Input was rejected (an empty title, for instance).
    Invalid(String),
    /// An input/output failure, by its message.
    Io(String),
    /// A JSON document could not be read or written, by its message.
    Json(String),
}

impl View for Error {
    type V = ErrorView;

    open spec fn view(&self) -> ErrorView {
        match self {
            Error::NotFound(s) => ErrorView::NotFound(s@),
            Error::Backend(s) => ErrorView::Backend(s@),
            Error::Config(s) => ErrorView::Config(s@),
            Error::Invalid(s) => ErrorView::Invalid(s@),
            Error::Io(s) => ErrorView::Io(s@),
            Error::Json(s) => ErrorView::Json(s@),
        }
    }
}

/// The text shown for an error.
pub open spec fn error_message_s(e: ErrorView) -> Seq<char> {
    match e {
        ErrorView::NotFound(s) => "작업을 찾을 수 없습니다: "@ + s,
        ErrorView::Backend(s) => "백엔드 오류: "@ + s,
        ErrorView::Config(s) => "설정 오류: "@ + s,
        ErrorView::Invalid(s) => "입력 오류: "@ + s,
        ErrorView::Io(s) => s,
        ErrorView::Json(s) => "JSON 처리 오류: "@ + s,
    }
}

impl Error {
    /// The text shown for this error.
    pub fn message(&self) -> (r: String)
        ensures
            r@ == error_message_s(self@),
    {
        let mut r = String::new();
        match self {
            Error::NotFound(s) => {
                push_str(&mut r, "작업을 찾을 수 없습니다: ");
                push_str(&mut r, s.as_str());
            },
            Error::Backend(s) => {
                push_str(&mut r, "백엔드 오류: ");
                push_str(&mut r, s.as_str());
            },
            Error::Config(s) => {
                push_str(&mut r, "설정 오류: ");
                push_str(&mut r, s.as_str());
            },
            Error::Invalid(s) => {
                push_str(&mut r, "입력 오류: ");
                push_str(&mut r, s.as_str());
            },
            Error::Io(s) => {
                push_str(&mut r, s.as_str());
            },
            Error::Json(s) => {
                push_str(&mut r, "JSON 처리 오류: ");
                push_str(&mut r, s.as_str());
            },
        }
        r
    }
}

} // verus!
