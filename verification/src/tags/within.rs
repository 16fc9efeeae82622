//! The `@within` tag: the class a function, property or type entry belongs
//! to.

use vstd::prelude::*;

use crate::diagnostic::{diag_points_at, Diagnostic};
use crate::span::Span;

verus! {

/// `@within ClassName`.
pub struct WithinTag {
    pub name: Span,
    pub source: Span,
}

impl WithinTag {
    /// Records the whole body as the class name; an empty body is rejected.
    pub fn parse(span: Span) -> (r: Result<WithinTag, Diagnostic>)
        ensures
            r is Ok <==> span@.len() > 0,
            match r {
                Ok(tag) => tag.name@ == span@ && tag.source == span,
                Err(d) => d.spec_text() == "This tag has stuff after it"@ && diag_points_at(
                    &d,
                    &span,
                ) && d.spec_additional().len() == 0,
            },
    {
        if span.is_empty() {
            return Err(span.diagnostic("This tag has stuff after it"));
        }
        let name = span.duplicate();
        Ok(WithinTag { name, source: span })
    }
}

} // verus!
