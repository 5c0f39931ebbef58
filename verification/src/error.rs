//! The errors of parsing and rendering.

use vstd::prelude::*;

verus! {

/// What can go wrong while parsing markup or generating output.
#[derive(Debug)]
pub enum Error {
    /// Malformed or unterminated markup, with a description.
    Parse(String),
    /// A token that may not stand at `position`.
    InvalidToken { position: usize, message: String },
    /// The input ended in the middle of a construct.
    UnexpectedEof,
    /// A custom node names a formatter that is not registered.
    FormatterNotFound(String),
    /// A formatter rejected the value it was given.
    InvalidFormatterValue(String),
    /// The output could not be written.
    Generation(String),
    /// A table whose structure is not valid.
    InvalidTable(String),
    /// A pattern that does not compile, with the reason.
    Regex(String),
}

/// The mathematical value of an [`Error`].
pub enum ErrorView {
    Parse(Seq<char>),
    InvalidToken { position: usize, message: Seq<char> },
    UnexpectedEof,
    FormatterNotFound(Seq<char>),
    InvalidFormatterValue(Seq<char>),
    Generation(Seq<char>),
    InvalidTable(Seq<char>),
    Regex(Seq<char>),
}

impl View for Error {
    type V = ErrorView;

    open spec fn view(&self) -> ErrorView {
        match self {
            Error::Parse(s) => ErrorView::Parse(s@),
            Error::InvalidToken { position, message } => ErrorView::InvalidToken {
                position: *position,
                message: message@,
            },
            Error::UnexpectedEof => ErrorView::UnexpectedEof,
            Error::FormatterNotFound(s) => ErrorView::FormatterNotFound(s@),
            Error::InvalidFormatterValue(s) => ErrorView::InvalidFormatterValue(s@),
            Error::Generation(s) => ErrorView::Generation(s@),
            Error::InvalidTable(s) => ErrorView::InvalidTable(s@),
            Error::Regex(s) => ErrorView::Regex(s@),
        }
    }
}

impl ErrorView {
    /// The error in words.
    pub open spec fn message(self) -> Seq<char> {
        match self {
            ErrorView::Parse(reason) => "Parse error: "@ + reason,
            ErrorView::InvalidToken { position, message } => "Invalid token at position "@
                + crate::text::decimal(position as nat) + ": "@ + message,
            ErrorView::UnexpectedEof => "Unexpected end of input"@,
            ErrorView::FormatterNotFound(name) => "Formatter not found: "@ + name,
            ErrorView::InvalidFormatterValue(reason) => "Invalid formatter value: "@ + reason,
            ErrorView::Generation(reason) => "Generation error: "@ + reason,
            ErrorView::InvalidTable(reason) => "Invalid table structure: "@ + reason,
            ErrorView::Regex(reason) => "Regex error: "@ + reason,
        }
    }
}

impl Error {
    /// The error in words.
    pub fn message(&self) -> (text: String)
        ensures
            text@ == self@.message(),
    {
        let mut text = String::new();
        match self {
            Error::Parse(reason) => {
                text.push_str("Parse error: ");
                text.push_str(reason.as_str());
            },
            Error::InvalidToken { position, message } => {
                text.push_str("Invalid token at position ");
                crate::text::push_decimal(&mut text, *position as u64);
                text.push_str(": ");
                text.push_str(message.as_str());
            },
            Error::UnexpectedEof => {
                text.push_str("Unexpected end of input");
            },
            Error::FormatterNotFound(name) => {
                text.push_str("Formatter not found: ");
                text.push_str(name.as_str());
            },
            Error::InvalidFormatterValue(reason) => {
                text.push_str("Invalid formatter value: ");
                text.push_str(reason.as_str());
            },
            Error::Generation(reason) => {
                text.push_str("Generation error: ");
                text.push_str(reason.as_str());
            },
            Error::InvalidTable(reason) => {
                text.push_str("Invalid table structure: ");
                text.push_str(reason.as_str());
            },
            Error::Regex(reason) => {
                text.push_str("Regex error: ");
                text.push_str(reason.as_str());
            },
        }
        assert(text@ =~= self@.message());
        text
    }
}

} // verus!
