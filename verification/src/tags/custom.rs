//! The `@tag` tag: a free-form custom label on an entry.

use vstd::prelude::*;

use crate::diagnostic::Diagnostic;
use crate::span::Span;

verus! {

/// `@tag name`.
pub struct CustomTag {
    pub name: Span,
    pub source: Span,
}

impl CustomTag {
    /// Records the whole body as the label.
    pub fn parse(name: Span) -> (r: Result<CustomTag, Diagnostic>)
        ensures
            r is Ok,
            match r {
                Ok(tag) => tag.name@ == name@ && tag.source == name,
                Err(d) => true,
            },
    {
        let label = name.duplicate();
        Ok(CustomTag { name: label, source: name })
    }
}

} // verus!
