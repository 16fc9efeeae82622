//! A logical doc comment recovered from the source, before any parsing.

use vstd::prelude::*;

use crate::diagnostic::Diagnostic;
use crate::syntax::StmtShape;

verus! {

/// Where an entry's documentation sits, for the emitted output: a line number
/// and a display path.
pub struct OutputSource {
    pub line: usize,
    pub relative_path: String,
}

impl Clone for OutputSource {
    /// The clone has the same line and path.
    fn clone(&self) -> (r: OutputSource)
        ensures
            r.line == self.line,
            r.relative_path@ == self.relative_path@,
    {
        OutputSource { line: self.line, relative_path: self.relative_path.clone() }
    }
}

/// Where a doc comment sits in its file: enough to point a diagnostic at
/// the whole comment after the comment itself has been consumed.
#[derive(PartialEq, Eq, Structural, Clone, Copy)]
pub struct CommentRef {
    pub start: usize,
    pub comment_len: usize,
    pub file_id: usize,
}

impl CommentRef {
    /// A diagnostic pointing at the whole referenced comment.
    pub fn diagnostic(&self, text: &str) -> (d: Diagnostic)
        ensures
            d.spec_text() == text@,
            d.spec_start() == self.start,
            d.spec_len() == self.comment_len,
            d.spec_file_id() == self.file_id,
            d.spec_additional().len() == 0,
    {
        Diagnostic::at_range(text, self.start, self.comment_len, self.file_id)
    }
}

/// One unparsed doc comment: its text, its place in its file, the output
/// location it documents, and the statement it decorates, if any.
pub struct DocComment {
    comment: String,
    file_id: usize,
    start: usize,
    output_source: OutputSource,
    stmt: Option<StmtShape>,
}

impl DocComment {
    /// The comment's whole range stays addressable when shifted by its start.
    #[verifier::type_invariant]
    pub closed spec fn wf(self) -> bool {
        self.start + self.comment@.len() <= usize::MAX
    }

    pub closed spec fn spec_comment(&self) -> Seq<char> {
        self.comment@
    }

    pub closed spec fn spec_file_id(&self) -> usize {
        self.file_id
    }

    pub closed spec fn spec_start(&self) -> usize {
        self.start
    }

    pub closed spec fn spec_line(&self) -> usize {
        self.output_source.line
    }

    pub closed spec fn spec_path(&self) -> Seq<char> {
        self.output_source.relative_path@
    }

    pub closed spec fn spec_stmt(&self) -> Option<StmtShape> {
        self.stmt
    }

    /// A doc comment with the given text, position and decorated statement.
    pub fn new(
        comment: String,
        start_position: usize,
        target_line: usize,
        file_id: usize,
        relative_path: String,
        stmt: Option<StmtShape>,
    ) -> (r: DocComment)
        requires
            start_position + comment@.len() <= usize::MAX,
        ensures
            r.spec_comment() == comment@,
            r.spec_start() == start_position,
            r.spec_line() == target_line,
            r.spec_file_id() == file_id,
            r.spec_path() == relative_path@,
            r.spec_stmt() == stmt,
    {
        DocComment {
            comment,
            file_id,
            start: start_position,
            output_source: OutputSource { line: target_line, relative_path },
            stmt,
        }
    }

    /// A diagnostic pointing at the whole comment.
    pub fn diagnostic(&self, text: &str) -> (d: Diagnostic)
        ensures
            d.spec_text() == text@,
            d.spec_start() == self.spec_start(),
            d.spec_len() == self.spec_comment().len(),
            d.spec_file_id() == self.spec_file_id(),
            d.spec_additional().len() == 0,
    {
        Diagnostic::from_doc_comment(text, self)
    }

    /// The comment's text.
    pub fn comment(&self) -> (r: &str)
        ensures
            r@ == self.spec_comment(),
    {
        self.comment.as_str()
    }

    /// The comment's length in characters.
    pub fn comment_len(&self) -> (r: usize)
        ensures
            r == self.spec_comment().len(),
    {
        self.comment.as_str().unicode_len()
    }

    pub fn file_id(&self) -> (r: usize)
        ensures
            r == self.spec_file_id(),
    {
        self.file_id
    }

    pub fn start(&self) -> (r: usize)
        ensures
            r == self.spec_start(),
    {
        self.start
    }

    /// The output location the comment documents.
    pub fn output_source(&self) -> (r: &OutputSource)
        ensures
            r.line == self.spec_line(),
            r.relative_path@ == self.spec_path(),
    {
        &self.output_source
    }

    /// The statement the comment decorates, if any.
    pub fn stmt(&self) -> (r: &Option<StmtShape>)
        ensures
            *r == self.spec_stmt(),
    {
        &self.stmt
    }

    /// Where this comment sits, for entries that outlive it.
    pub fn comment_ref(&self) -> (r: CommentRef)
        ensures
            r.start == self.spec_start(),
            r.comment_len == self.spec_comment().len(),
            r.file_id == self.spec_file_id(),
    {
        CommentRef {
            start: self.start,
            comment_len: self.comment_len(),
            file_id: self.file_id,
        }
    }

    /// What the type invariant yields: the comment's range stays addressable.
    pub proof fn wf_facts(&self)
        requires
            self.wf(),
        ensures
            self.spec_start() + self.spec_comment().len() <= usize::MAX,
    {
    }
}

} // verus!
