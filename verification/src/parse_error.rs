//! Plain textual parse errors, for callers that only need messages.

use vstd::prelude::*;

verus! {

/// One parse error, as its message text.
pub struct ParseError {
    text: String,
}

impl ParseError {
    /// An error carrying the given message.
    pub fn new(text: &str) -> (r: ParseError)
        ensures
            r.spec_text() == text@,
    {
        ParseError { text: String::from_str(text) }
    }

    pub closed spec fn spec_text(&self) -> Seq<char> {
        self.text@
    }

    /// The message.
    pub fn text(&self) -> (r: &str)
        ensures
            r@ == self.spec_text(),
    {
        self.text.as_str()
    }
}

/// A collection of parse errors.
pub struct ParseErrors {
    errors: Vec<ParseError>,
}

impl ParseErrors {
    pub closed spec fn spec_errors(&self) -> Seq<ParseError> {
        self.errors@
    }

    /// The collected errors, in order.
    pub fn errors(&self) -> (r: &Vec<ParseError>)
        ensures
            r@ == self.spec_errors(),
    {
        &self.errors
    }
}

impl From<Vec<ParseError>> for ParseErrors {
    /// Wraps the given errors, in order.
    fn from(errors: Vec<ParseError>) -> (r: ParseErrors)
        ensures
            r.spec_errors() == errors@,
    {
        ParseErrors { errors }
    }
}

impl vstd::std_specs::convert::FromSpecImpl<Vec<ParseError>> for ParseErrors {
    open spec fn obeys_from_spec() -> bool {
        true
    }

    closed spec fn from_spec(errors: Vec<ParseError>) -> ParseErrors {
        ParseErrors { errors }
    }
}

} // verus!
