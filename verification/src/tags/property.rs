//! The `@prop` tag: a property entry's name and optional Lua type.

use vstd::prelude::*;

use crate::diagnostic::Diagnostic;
use crate::span::Span;
use crate::tags::status::spec_opt_view;
use crate::tags::type_tag::spec_type_tag;

verus! {

/// `@prop name lua_type`, with the type optional.
pub struct PropertyTag {
    pub name: Span,
    pub lua_type: Option<Span>,
    pub source: Span,
}

impl PropertyTag {
    /// Splits a `@prop` body into name and optional type.
    pub fn parse(span: Span) -> (r: Result<PropertyTag, Diagnostic>)
        ensures
            r is Ok,
            match r {
                Ok(tag) => (tag.name@, spec_opt_view(tag.lua_type)) == spec_type_tag(span@)
                    && tag.source == span,
                Err(d) => true,
            },
    {
        proof {
            reveal_strlit(" ");
        }
        let pieces = span.splitn(2, " ");
        proof {
            crate::text::lemma_splitn2_len(span@, " "@);
            assert(crate::span::span_texts(pieces@)[0] == pieces@[0]@);
            if pieces@.len() >= 2 {
                assert(crate::span::span_texts(pieces@)[1] == pieces@[1]@);
            }
        }
        let name = pieces[0].trim();
        let lua_type = if pieces.len() >= 2 {
            Some(pieces[1].trim())
        } else {
            None
        };
        Ok(PropertyTag { name, lua_type, source: span })
    }
}

} // verus!
