//! The `@__index` tag: the index alias a class is reachable through.

use vstd::prelude::*;

use crate::diagnostic::Diagnostic;
use crate::span::Span;

verus! {

/// `@__index name`.
pub struct IndexTag {
    pub name: Span,
    pub source: Span,
}

impl IndexTag {
    /// Records the whole body as the alias name.
    pub fn parse(span: Span) -> (r: Result<IndexTag, Diagnostic>)
        ensures
            r is Ok,
            match r {
                Ok(tag) => tag.name@ == span@ && tag.source == span,
                Err(d) => true,
            },
    {
        let name = span.duplicate();
        Ok(IndexTag { name, source: span })
    }
}

} // verus!
