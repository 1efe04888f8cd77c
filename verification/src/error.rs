//! Error values of the front end: lexical errors carry the originating line
//! and are accumulated over a whole scan; generation errors are fatal to the
//! build-time generator.

use vstd::prelude::*;

verus! {

/// The two kinds of lexical error the scanner can record.
#[derive(Debug, Clone, Copy, PartialEq, Eq, Structural)]
pub enum LexicalErrorKind {
    /// A character that starts no token.
    UnexpectedCharacter,
    /// A string literal still open at the end of the input.
    UnterminatedString,
}

/// A lexical error: its kind and the 1-based source line it originates from.
/// For an unterminated string this is the line where the string began.
#[derive(Debug, Clone, Copy, PartialEq, Eq, Structural)]
pub struct LoxError {
    pub line: usize,
    pub kind: LexicalErrorKind,
}

/// The mathematical value of a `LoxError`: the same data with an unbounded line.
#[verifier::ext_equal]
pub struct ErrV {
    pub line: int,
    pub kind: LexicalErrorKind,
}

impl View for LoxError {
    type V = ErrV;

    open spec fn view(&self) -> ErrV {
        ErrV { line: self.line as int, kind: self.kind }
    }
}

/// The report text belonging to each kind of lexical error.
pub open spec fn error_message(kind: LexicalErrorKind) -> Seq<char> {
    match kind {
        LexicalErrorKind::UnexpectedCharacter => "Unexpected character"@,
        LexicalErrorKind::UnterminatedString => "Unterminated string"@,
    }
}

impl LoxError {
    /// Build a lexical error for the given line.
    pub fn error(line: usize, kind: LexicalErrorKind) -> (e: LoxError)
        ensures
            e.line == line,
            e.kind == kind,
    {
        LoxError { line, kind }
    }

    /// The human-readable message for this error, independent of its line.
    pub fn message(&self) -> (m: String)
        ensures
            m@ == error_message(self.kind),
    {
        match self.kind {
            LexicalErrorKind::UnexpectedCharacter => String::from_str("Unexpected character"),
            LexicalErrorKind::UnterminatedString => String::from_str("Unterminated string"),
        }
    }
}

/// The one error of the build-time generator: a grammar rule that does not
/// follow the `Variant : Type field, ...` format.
#[derive(Debug, Clone, Copy, PartialEq, Eq, Structural)]
pub enum GenerationError {
    MalformedRule,
}

} // verus!
