//! The `@return` tag: a return type and a trailing description.

use vstd::prelude::*;

use crate::diagnostic::{diag_points_at, Diagnostic};
use crate::span::Span;
use crate::text::{head2, spec_trim, tail2};

verus! {

/// `@return type -- description`, with the description optional.
pub struct ReturnTag {
    pub desc: Span,
    pub lua_type: Span,
    pub source: Span,
}

/// What an accepted `@return` body holds: the type before `--` and the
/// description after it; nothing when the type is empty.
pub open spec fn spec_return_tag(s: Seq<char>) -> Option<(Seq<char>, Seq<char>)> {
    let lua_type = spec_trim(head2(s, "--"@));
    let desc = match tail2(s, "--"@) {
        Some(d) => spec_trim(d),
        None => Seq::<char>::empty(),
    };
    if lua_type.len() == 0 {
        None
    } else {
        Some((lua_type, desc))
    }
}

impl ReturnTag {
    /// Splits a `@return` body into type and description; an empty type is
    /// rejected.
    pub fn parse(span: Span) -> (r: Result<ReturnTag, Diagnostic>)
        ensures
            match r {
                Ok(tag) => spec_return_tag(span@) == Some((tag.lua_type@, tag.desc@)) && tag.source
                    == span,
                Err(d) => spec_return_tag(span@) == None::<(Seq<char>, Seq<char>)> && (d.spec_text()
                    == "Return type is required"@ && diag_points_at(&d, &span) && d.spec_additional().len() == 0),
            },
    {
        proof {
            reveal_strlit("--");
        }
        let pieces = span.splitn(2, "--");
        proof {
            crate::text::lemma_splitn2_len(span@, "--"@);
            assert(crate::span::span_texts(pieces@)[0] == pieces@[0]@);
            if pieces@.len() >= 2 {
                assert(crate::span::span_texts(pieces@)[1] == pieces@[1]@);
            }
        }
        let lua_type = pieces[0].trim();
        if lua_type.is_empty() {
            return Err(span.diagnostic("Return type is required"));
        }
        let desc = if pieces.len() >= 2 {
            pieces[1].trim()
        } else {
            Span::empty(span.file_id())
        };
        Ok(ReturnTag { desc, lua_type, source: span })
    }
}

} // verus!
