//! The `@interface` tag: declares a type entry described field by field.

use vstd::prelude::*;

use crate::diagnostic::Diagnostic;
use crate::span::Span;

verus! {

/// `@interface name`.
pub struct InterfaceTag {
    pub name: Span,
    pub source: Span,
}

impl InterfaceTag {
    /// Records the whole body as the interface name.
    pub fn parse(text: Span) -> (r: Result<InterfaceTag, Diagnostic>)
        ensures
            r is Ok,
            match r {
                Ok(tag) => tag.name@ == text@ && tag.source == text,
                Err(d) => true,
            },
    {
        let name = text.duplicate();
        Ok(InterfaceTag { name, source: text })
    }
}

} // verus!
