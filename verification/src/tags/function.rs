//! The `@function` and `@method` tags: declare a function entry of the
//! respective calling convention.

use vstd::prelude::*;

use crate::diagnostic::Diagnostic;
use crate::doc_entry::FunctionType;
use crate::span::Span;

verus! {

/// `@function name` or `@method name`.
pub struct FunctionTag {
    pub name: Span,
    pub function_type: FunctionType,
    pub source: Span,
}

impl FunctionTag {
    /// Records the whole body as the function name, with the given calling
    /// convention.
    pub fn parse(text: Span, function_type: FunctionType) -> (r: Result<FunctionTag, Diagnostic>)
        ensures
            r is Ok,
            match r {
                Ok(tag) => tag.name@ == text@ && tag.function_type == function_type && tag.source
                    == text,
                Err(d) => true,
            },
    {
        let name = text.duplicate();
        Ok(FunctionTag { name, source: text, function_type })
    }
}

} // verus!
