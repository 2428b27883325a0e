//! What can go wrong, where it is reported, and what the user reads.

use crate::token::Location;
use vstd::prelude::*;
use vstd::string::StringExecFns;

verus! {

/// The four forms an argument can take.
#[derive(Clone, Copy, Debug, PartialEq, Eq, Structural)]
pub enum Shape {
    Flag,
    KeyValue,
    Nested,
    Negation,
}

/// What went wrong.
#[derive(Clone, Copy, Debug, PartialEq, Eq, Structural)]
pub enum ErrorKind {
    /// An identifier was wanted and something else, or a keyword, stood there.
    ExpectedIdentifier,
    /// What follows a name is neither `=`, `(`, a separator nor the end.
    ExpectedArgument,
    /// Two arguments of a list are not separated.
    ExpectedComma,
    /// A name is not followed by `=`.
    ExpectedEquals,
    /// Tokens are left over behind a complete value.
    UnexpectedToken,
    /// An argument of this shape is not taken here.
    IncorrectType(Shape),
    /// A flag was given for a setting that is already on.
    AlreadySet,
    /// A configuration record does not know the name.
    UnknownKey,
    /// An element of the field list is not a plain name.
    ExpectedFieldName,
    /// The value is not a bracketed list.
    ExpectedFieldList,
    /// The method does not start with a receiver.
    ExpectedReceiver,
    /// The attribute has no argument list, or an empty one.
    ExpectedArgumentList,
    /// The value is not one string literal.
    ExpectedString,
}

/// An error: its kind, its place, and the name or caption it speaks of
/// (empty where the message names nothing).
#[derive(Debug)]
pub struct Error {
    pub kind: ErrorKind,
    pub at: Location,
    pub subject: String,
}

/// An error as a value.
pub struct ErrorView {
    pub kind: ErrorKind,
    pub at: Location,
    pub subject: Seq<char>,
}

impl View for Error {
    type V = ErrorView;

    open spec fn view(&self) -> ErrorView {
        ErrorView { kind: self.kind, at: self.at, subject: self.subject@ }
    }
}

/// The text of `text` between double quotes, with the escapes that the
/// standard `Debug` formatting of a string writes.
pub uninterp spec fn debug_text(text: Seq<char>) -> Seq<char>;

/// Formats a string with `{:?}` (`<str as core::fmt::Debug>::fmt`). Claims
/// that the result is [`debug_text`] of the argument.
#[verifier::external_body]
fn debug_format(text: &str) -> (out: String)
    ensures
        out@ == debug_text(text@),
{
    format!("{:?}", text)
}

/// An error that names nothing.
pub open spec fn plain_error(kind: ErrorKind, at: Location) -> ErrorView {
    ErrorView { kind, at, subject: Seq::empty() }
}

/// The error `e`, reported at `fallback` where it had no token to point at.
pub open spec fn located(e: ErrorView, fallback: Location) -> ErrorView {
    match e.at {
        Location::At(_) => e,
        Location::EndOfInput => ErrorView { at: fallback, ..e },
    }
}

/// The words that follow the quoted name in the message of a shape mismatch.
pub open spec fn shape_words(shape: Shape) -> Seq<char> {
    match shape {
        Shape::Flag => " is not supported as a flag"@,
        Shape::KeyValue => " is not supported as key-value"@,
        Shape::Nested => " is not supported as nested attribute"@,
        Shape::Negation => " cannot be nullified"@,
    }
}

/// The message of an error.
pub open spec fn message_text(e: ErrorView) -> Seq<char> {
    match e.kind {
        ErrorKind::ExpectedIdentifier => "expected identifier"@,
        ErrorKind::ExpectedArgument => "expected `!<name>`, `<name>=<value>`, or `<name>(…)`"@,
        ErrorKind::ExpectedComma => "expected `,`"@,
        ErrorKind::ExpectedEquals => "expected `=`"@,
        ErrorKind::UnexpectedToken => "unexpected token"@,
        ErrorKind::IncorrectType(shape) => debug_text(e.subject) + shape_words(shape),
        ErrorKind::AlreadySet => "Illegal setting - field is already "@ + e.subject,
        ErrorKind::UnknownKey => "only `requires` is supported"@,
        ErrorKind::ExpectedFieldName => "expected field name"@,
        ErrorKind::ExpectedFieldList => "Only list of field names [field1, field2, …] supported"@,
        ErrorKind::ExpectedReceiver => "must take a reference to the receiver"@,
        ErrorKind::ExpectedArgumentList => "expected a parenthesized argument list"@,
        ErrorKind::ExpectedString => "attribute only allows str values"@,
    }
}

impl Error {
    /// An error that names nothing.
    pub fn new(kind: ErrorKind, at: Location) -> (out: Self)
        ensures
            out@ == plain_error(kind, at),
    {
        Error { kind, at, subject: String::new() }
    }

    /// An error that speaks of `subject`.
    pub fn about(kind: ErrorKind, at: Location, subject: String) -> (out: Self)
        ensures
            out@ == (ErrorView { kind, at, subject: subject@ }),
    {
        Error { kind, at, subject }
    }

    /// The same error, reported at `fallback` where it had no token to point
    /// at.
    pub fn located(self, fallback: Location) -> (out: Self)
        ensures
            out@ == located(self@, fallback),
    {
        match self.at {
            Location::At(_) => self,
            Location::EndOfInput => Error { kind: self.kind, at: fallback, subject: self.subject },
        }
    }

    /// The message shown to the user.
    pub fn message(&self) -> (out: String)
        ensures
            out@ == message_text(self@),
    {
        match self.kind {
            ErrorKind::ExpectedIdentifier => "expected identifier".to_owned(),
            ErrorKind::ExpectedArgument => "expected `!<name>`, `<name>=<value>`, or `<name>(…)`".to_owned(),
            ErrorKind::ExpectedComma => "expected `,`".to_owned(),
            ErrorKind::ExpectedEquals => "expected `=`".to_owned(),
            ErrorKind::UnexpectedToken => "unexpected token".to_owned(),
            ErrorKind::IncorrectType(shape) => {
                let mut text = debug_format(self.subject.as_str());
                match shape {
                    Shape::Flag => text.append(" is not supported as a flag"),
                    Shape::KeyValue => text.append(" is not supported as key-value"),
                    Shape::Nested => text.append(" is not supported as nested attribute"),
                    Shape::Negation => text.append(" cannot be nullified"),
                }
                text
            },
            ErrorKind::AlreadySet => {
                let mut text = "Illegal setting - field is already ".to_owned();
                text.append(self.subject.as_str());
                text
            },
            ErrorKind::UnknownKey => "only `requires` is supported".to_owned(),
            ErrorKind::ExpectedFieldName => "expected field name".to_owned(),
            ErrorKind::ExpectedFieldList => "Only list of field names [field1, field2, …] supported".to_owned(),
            ErrorKind::ExpectedReceiver => "must take a reference to the receiver".to_owned(),
            ErrorKind::ExpectedArgumentList => "expected a parenthesized argument list".to_owned(),
            ErrorKind::ExpectedString => "attribute only allows str values".to_owned(),
        }
    }
}

} // verus!
