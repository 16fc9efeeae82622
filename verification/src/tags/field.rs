//! The `@field` tag (also written as a leading-dot shorthand): a field's
//! name, required type, and trailing description.

use vstd::prelude::*;

use crate::diagnostic::{diag_points_at, Diagnostic};
use crate::span::Span;
use crate::text::{head2, spec_trim, tail2};

verus! {

/// `@field name type -- description` or `.name type -- description`, with
/// the description optional.
pub struct FieldTag {
    pub name: Span,
    pub desc: Span,
    pub lua_type: Span,
    pub source: Span,
}

/// What an accepted `@field` body holds: the name before the first space,
/// the type after it, the description after `--`; nothing when the name is
/// empty or no space separates a type.
pub open spec fn spec_field_tag(s: Seq<char>) -> Option<(Seq<char>, Seq<char>, Seq<char>)> {
    let nmt = spec_trim(head2(s, "--"@));
    let name = spec_trim(head2(nmt, " "@));
    let desc = match tail2(s, "--"@) {
        Some(d) => spec_trim(d),
        None => Seq::<char>::empty(),
    };
    if name.len() == 0 {
        None
    } else {
        match tail2(nmt, " "@) {
            Some(t) => Some((name, spec_trim(t), desc)),
            None => None,
        }
    }
}

impl FieldTag {
    /// Splits a `@field` body into name, type and description; an empty name
    /// or a missing type is rejected.
    pub fn parse(span: Span) -> (r: Result<FieldTag, Diagnostic>)
        ensures
            match r {
                Ok(tag) => spec_field_tag(span@) == Some((tag.name@, tag.lua_type@, tag.desc@))
                    && tag.source == span,
                Err(d) => spec_field_tag(span@) == None::<(Seq<char>, Seq<char>, Seq<char>)> && ({
                    let nmt = spec_trim(head2(span@, "--"@));
                    &&& d.spec_text() == (if spec_trim(head2(nmt, " "@)).len() == 0 {
                        "Field name is required"@
                    } else {
                        "Field type is required"@
                    })
                    &&& diag_points_at(&d, &span)
                    &&& d.spec_additional().len() == 0
                }),
            },
    {
        proof {
            reveal_strlit("--");
            reveal_strlit(" ");
        }
        let pieces = span.splitn(2, "--");
        proof {
            crate::text::lemma_splitn2_len(span@, "--"@);
            assert(crate::span::span_texts(pieces@)[0] == pieces@[0]@);
            if pieces@.len() >= 2 {
                assert(crate::span::span_texts(pieces@)[1] == pieces@[1]@);
            }
        }
        let nmt = pieces[0].trim();
        let desc = if pieces.len() >= 2 {
            pieces[1].trim()
        } else {
            Span::empty(span.file_id())
        };
        let pieces2 = nmt.splitn(2, " ");
        proof {
            crate::text::lemma_splitn2_len(nmt@, " "@);
            assert(crate::span::span_texts(pieces2@)[0] == pieces2@[0]@);
            if pieces2@.len() >= 2 {
                assert(crate::span::span_texts(pieces2@)[1] == pieces2@[1]@);
            }
        }
        let name = pieces2[0].trim();
        if name.is_empty() {
            return Err(span.diagnostic("Field name is required"));
        }
        if pieces2.len() < 2 {
            return Err(span.diagnostic("Field type is required"));
        }
        let lua_type = pieces2[1].trim();
        Ok(FieldTag { name, desc, lua_type, source: span })
    }
}

} // verus!
