//! Errors found before a program runs: lexical and syntactic.
use vstd::prelude::*;
use crate::text::{append_decimal};

verus! {

/// A lexical or syntactic error, tagged with the line it was found on.
#[derive(Debug)]
pub struct LoxStaticError {
    pub line: u32,
    pub message: String,
}

/// The model of a [`LoxStaticError`].
pub struct StaticErrorView {
    pub line: u32,
    pub message: Seq<char>,
}

impl View for LoxStaticError {
    type V = StaticErrorView;

    open spec fn view(&self) -> StaticErrorView {
        StaticErrorView { line: self.line, message: self.message@ }
    }
}

/// The views of a list of static errors, in order.
pub open spec fn error_views(errors: Seq<LoxStaticError>) -> Seq<StaticErrorView> {
    errors.map_values(|e: LoxStaticError| e@)
}

/// The rendering of a static error: `Error on line <line>: <message>`.
pub open spec fn static_error_text(e: StaticErrorView) -> Seq<char> {
    "Error on line "@ + crate::text::decimal(e.line as nat) + ": "@ + e.message
}

impl LoxStaticError {
    pub fn new(line: u32, message: &str) -> (e: LoxStaticError)
        ensures
            e@ == (StaticErrorView { line, message: message@ }),
    {
        LoxStaticError { line, message: String::from_str(message) }
    }

    /// Renders the error as one line of text.
    pub fn to_string(&self) -> (s: String)
        ensures
            s@ == static_error_text(self@),
    {
        let mut s = String::from_str("Error on line ");
        append_decimal(&mut s, self.line);
        s.append(": ");
        s.append(self.message.as_str());
        s
    }
}

} // verus!
