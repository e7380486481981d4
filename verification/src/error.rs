//! Errors of parsing and running.
use vstd::prelude::*;

use crate::ast::{Location, LocationV};
use crate::text::decimal;

verus! {

/// Represents a parser error.
#[derive(Debug)]
pub struct ParseError {
    pub message: String,
    pub line: usize,
    pub path: String,
}

/// The model of a [`ParseError`].
pub struct ParseErrorV {
    pub message: Seq<char>,
    pub line: usize,
    pub path: Seq<char>,
}

impl View for ParseError {
    type V = ParseErrorV;

    open spec fn view(&self) -> ParseErrorV {
        ParseErrorV { message: self.message@, line: self.line, path: self.path@ }
    }
}

/// The text of an error: with its file and line where the line is known,
/// else with its file alone.
pub open spec fn spec_error_text(e: ParseErrorV) -> Seq<char> {
    if e.line > 0 {
        e.message + " in "@ + e.path + " at line "@ + decimal(e.line as nat) + "."@
    } else {
        e.message + ": \""@ + e.path + "\"."@
    }
}

impl ParseError {
    pub fn new(message: String, line: usize, path: &String) -> (r: Self)
        ensures
            r@ == (ParseErrorV { message: message@, line, path: path@ }),
    {
        ParseError { message, line, path: path.clone() }
    }

    /// The text of the error, as it is shown to the user.
    pub fn to_string(&self) -> (r: String)
        ensures
            r@ == spec_error_text(self@),
    {
        let mut s = self.message.clone();
        if self.line > 0 {
            s.append(" in ");
            s.append(self.path.as_str());
            s.append(" at line ");
            let n = crate::text::usize_to_string(self.line);
            s.append(n.as_str());
            s.append(".");
        } else {
            s.append(": \"");
            s.append(self.path.as_str());
            s.append("\".");
        }
        s
    }
}

/// An error while compiling or running a program, with where it arose.
#[derive(Debug)]
pub struct RuntimeError {
    pub message: String,
    pub location: Location,
}

/// The model of a [`RuntimeError`].
pub struct RuntimeErrorV {
    pub message: Seq<char>,
    pub location: LocationV,
}

impl View for RuntimeError {
    type V = RuntimeErrorV;

    open spec fn view(&self) -> RuntimeErrorV {
        RuntimeErrorV { message: self.message@, location: self.location@ }
    }
}

impl RuntimeError {
    pub fn new(message: String, loc: &Location) -> (r: Self)
        ensures
            r@ == (RuntimeErrorV { message: message@, location: loc@ }),
    {
        RuntimeError { message, location: Location::new(loc.file.clone(), loc.line) }
    }
}

} // verus!
