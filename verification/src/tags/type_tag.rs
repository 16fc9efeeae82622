//! The `@type` tag: a type entry's name and optional Lua type.

use vstd::prelude::*;

use crate::diagnostic::Diagnostic;
use crate::span::Span;
use crate::text::{head2, spec_trim, tail2};

verus! {

/// `@type name lua_type`, with the type optional.
pub struct TypeTag {
    pub name: Span,
    pub lua_type: Option<Span>,
    pub source: Span,
}

/// What a `@type` body holds: the name before the first space and the type
/// after it, when a space occurs.
pub open spec fn spec_type_tag(s: Seq<char>) -> (Seq<char>, Option<Seq<char>>) {
    (
        spec_trim(head2(s, " "@)),
        match tail2(s, " "@) {
            Some(t) => Some(spec_trim(t)),
            None => None,
        },
    )
}

impl TypeTag {
    /// Splits a `@type` body into name and optional type.
    pub fn parse(span: Span) -> (r: Result<TypeTag, Diagnostic>)
        ensures
            r is Ok,
            match r {
                Ok(tag) => (tag.name@, crate::tags::status::spec_opt_view(tag.lua_type))
                    == spec_type_tag(span@) && tag.source == span,
                Err(d) => true,
            },
    {
        proof {
            reveal_strlit(" ");
        }
        let pieces = span.splitn(2, " ");
        proof {
            crate::text::lemma_splitn2_len(span@, " "@);
            assert(crate::span::span_texts(pieces@)[0] == pieces@[0]@);
            if pieces@.len() >= 2 {
                assert(crate::span::span_texts(pieces@)[1] == pieces@[1]@);
            }
        }
        let name = pieces[0].trim();
        let lua_type = if pieces.len() >= 2 {
            Some(pieces[1].trim())
        } else {
            None
        };
        Ok(TypeTag { name, lua_type, source: span })
    }
}

} // verus!
