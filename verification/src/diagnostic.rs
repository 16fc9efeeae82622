//! User-facing errors that point at exact ranges of the original source.
//!
//! A `Diagnostic` carries a message, a primary character range in one file,
//! and any number of secondary diagnostics naming related places.  A
//! `Diagnostics` value aggregates the diagnostics of one operation.

use vstd::prelude::*;

use crate::doc_comment::DocComment;
use crate::span::Span;

verus! {

/// Whether `d`'s primary range is exactly `s`'s place in its file.
pub open spec fn diag_points_at(d: &Diagnostic, s: &Span) -> bool {
    d.spec_start() == s.spec_start() + s.spec_source_offset() && d.spec_len() == s.spec_len()
        && d.spec_file_id() == s.spec_file_id()
}

/// An error message with a primary source range and secondary related
/// locations.
pub struct Diagnostic {
    pub text: String,
    start: usize,
    len: usize,
    file_id: usize,
    additional_diagnostics: Vec<Diagnostic>,
}

impl Diagnostic {
    pub closed spec fn spec_text(&self) -> Seq<char> {
        self.text@
    }

    pub closed spec fn spec_start(&self) -> usize {
        self.start
    }

    pub closed spec fn spec_len(&self) -> usize {
        self.len
    }

    pub closed spec fn spec_file_id(&self) -> usize {
        self.file_id
    }

    pub closed spec fn spec_additional(&self) -> Seq<Diagnostic> {
        self.additional_diagnostics@
    }

    /// A diagnostic pointing at `span`'s place in its file: the span's
    /// position plus the offset of the span's backing text.
    pub fn from_span(text: &str, span: &Span) -> (d: Diagnostic)
        ensures
            d.spec_text() == text@,
            d.spec_start() == span.spec_start() + span.spec_source_offset(),
            d.spec_len() == span.spec_len(),
            d.spec_file_id() == span.spec_file_id(),
            d.spec_additional().len() == 0,
    {
        proof {
            use_type_invariant(span);
            span.wf_facts();
        }
        Diagnostic {
            text: String::from_str(text),
            start: span.start() + span.source_offset(),
            len: span.len(),
            file_id: span.file_id(),
            additional_diagnostics: Vec::new(),
        }
    }

    /// A diagnostic pointing at a whole doc comment.
    pub fn from_doc_comment(text: &str, doc_comment: &DocComment) -> (d: Diagnostic)
        ensures
            d.spec_text() == text@,
            d.spec_start() == doc_comment.spec_start(),
            d.spec_len() == doc_comment.spec_comment().len(),
            d.spec_file_id() == doc_comment.spec_file_id(),
            d.spec_additional().len() == 0,
    {
        Diagnostic {
            text: String::from_str(text),
            start: doc_comment.start(),
            len: doc_comment.comment_len(),
            file_id: doc_comment.file_id(),
            additional_diagnostics: Vec::new(),
        }
    }

    /// A diagnostic pointing at the given character range of a file.
    pub fn at_range(text: &str, start: usize, len: usize, file_id: usize) -> (d: Diagnostic)
        ensures
            d.spec_text() == text@,
            d.spec_start() == start,
            d.spec_len() == len,
            d.spec_file_id() == file_id,
            d.spec_additional().len() == 0,
    {
        Diagnostic {
            text: String::from_str(text),
            start,
            len,
            file_id,
            additional_diagnostics: Vec::new(),
        }
    }

    /// Appends a secondary location to this diagnostic.
    pub fn attach_diagnostic(&mut self, diagnostic: Diagnostic)
        ensures
            final(self).spec_text() == old(self).spec_text(),
            final(self).spec_start() == old(self).spec_start(),
            final(self).spec_len() == old(self).spec_len(),
            final(self).spec_file_id() == old(self).spec_file_id(),
            final(self).spec_additional() == old(self).spec_additional().push(diagnostic),
    {
        self.additional_diagnostics.push(diagnostic);
    }

    /// The primary range's start, for rendering.
    pub fn start(&self) -> (r: usize)
        ensures
            r == self.spec_start(),
    {
        self.start
    }

    /// The primary range's length, for rendering.
    pub fn len(&self) -> (r: usize)
        ensures
            r == self.spec_len(),
    {
        self.len
    }

    /// The file the primary range lies in, for rendering.
    pub fn file_id(&self) -> (r: usize)
        ensures
            r == self.spec_file_id(),
    {
        self.file_id
    }

    /// The secondary locations, for rendering.
    pub fn additional(&self) -> (r: &Vec<Diagnostic>)
        ensures
            r@ == self.spec_additional(),
    {
        &self.additional_diagnostics
    }
}

/// The diagnostics one operation collected.
pub struct Diagnostics {
    errors: Vec<Diagnostic>,
}

impl Diagnostics {
    pub closed spec fn spec_errors(&self) -> Seq<Diagnostic> {
        self.errors@
    }

    /// Hands out the collected diagnostics in order.
    pub fn into_iter(self) -> (r: Vec<Diagnostic>)
        ensures
            r@ == self.spec_errors(),
    {
        self.errors
    }

    pub fn is_empty(&self) -> (r: bool)
        ensures
            r == (self.spec_errors().len() == 0),
    {
        self.errors.len() == 0
    }
}

impl From<Vec<Diagnostic>> for Diagnostics {
    /// Wraps the given diagnostics, in order.
    fn from(errors: Vec<Diagnostic>) -> (r: Diagnostics)
        ensures
            r.spec_errors() == errors@,
    {
        Diagnostics { errors }
    }
}

impl vstd::std_specs::convert::FromSpecImpl<Vec<Diagnostic>> for Diagnostics {
    open spec fn obeys_from_spec() -> bool {
        true
    }

    closed spec fn from_spec(errors: Vec<Diagnostic>) -> Diagnostics {
        Diagnostics { errors }
    }
}

} // verus!
