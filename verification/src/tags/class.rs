//! The `@class` tag: declares a class entry.

use vstd::prelude::*;

use crate::diagnostic::Diagnostic;
use crate::span::Span;

verus! {

/// `@class ClassName`.
pub struct ClassTag {
    pub name: Span,
    pub source: Span,
}

impl ClassTag {
    /// Records the whole body as the class name.
    pub fn parse(text: Span) -> (r: Result<ClassTag, Diagnostic>)
        ensures
            r is Ok,
            match r {
                Ok(tag) => tag.name@ == text@ && tag.source == text,
                Err(d) => true,
            },
    {
        let name = text.duplicate();
        Ok(ClassTag { name, source: text })
    }
}

} // verus!
