//! The `@include` tag: a path to splice into an entry's description.

use vstd::prelude::*;

use crate::diagnostic::{diag_points_at, Diagnostic};
use crate::span::Span;

verus! {

/// `@include path`.
pub struct IncludeTag {
    pub path: Span,
    pub source: Span,
}

impl IncludeTag {
    /// Records the whole body as the path; an empty body is rejected.
    pub fn parse(span: Span) -> (r: Result<IncludeTag, Diagnostic>)
        ensures
            r is Ok <==> span@.len() > 0,
            match r {
                Ok(tag) => tag.path@ == span@ && tag.source == span,
                Err(d) => d.spec_text() == "This tag has stuff after it"@ && diag_points_at(
                    &d,
                    &span,
                ) && d.spec_additional().len() == 0,
            },
    {
        if span.is_empty() {
            return Err(span.diagnostic("This tag has stuff after it"));
        }
        let path = span.duplicate();
        Ok(IncludeTag { path, source: span })
    }
}

} // verus!
