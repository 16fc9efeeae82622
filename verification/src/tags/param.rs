//! The `@param` tag: a parameter's name, optional type, and trailing
//! description.

use vstd::prelude::*;

use crate::diagnostic::{diag_points_at, Diagnostic};
use crate::span::Span;
use crate::text::{head2, spec_trim, tail2};

verus! {

/// `@param name type -- description`, with the type and the description
/// optional.
pub struct ParamTag {
    pub name: Span,
    pub desc: Span,
    pub lua_type: Span,
    pub source: Span,
}

/// What an accepted `@param` body holds: the name before the first space,
/// the type after it, the description after `--`; nothing when the name is
/// empty.
pub open spec fn spec_param_tag(s: Seq<char>) -> Option<(Seq<char>, Seq<char>, Seq<char>)> {
    let nmt = spec_trim(head2(s, "--"@));
    let name = spec_trim(head2(nmt, " "@));
    let lua_type = match tail2(nmt, " "@) {
        Some(t) => spec_trim(t),
        None => Seq::<char>::empty(),
    };
    let desc = match tail2(s, "--"@) {
        Some(d) => spec_trim(d),
        None => Seq::<char>::empty(),
    };
    if name.len() == 0 {
        None
    } else {
        Some((name, lua_type, desc))
    }
}

impl ParamTag {
    /// Splits a `@param` body into name, optional type and description; an
    /// empty name is rejected.
    pub fn parse(span: Span) -> (r: Result<ParamTag, Diagnostic>)
        ensures
            match r {
                Ok(tag) => spec_param_tag(span@) == Some((tag.name@, tag.lua_type@, tag.desc@))
                    && tag.source == span,
                Err(d) => spec_param_tag(span@) == None::<(Seq<char>, Seq<char>, Seq<char>)> && (
                d.spec_text() == "Param name is required"@ && diag_points_at(&d, &span) && d.spec_additional().len() == 0),
            },
    {
        proof {
            reveal_strlit("--");
            reveal_strlit(" ");
        }
        let pieces = span.splitn(2, "--");
        proof {
            crate::text::lemma_splitn2_len(span@, "--"@);
            assert(crate::span::span_texts(pieces@)[0] == pieces@[0]@);
            if pieces@.len() >= 2 {
                assert(crate::span::span_texts(pieces@)[1] == pieces@[1]@);
            }
        }
        let nmt = pieces[0].trim();
        let desc = if pieces.len() >= 2 {
            pieces[1].trim()
        } else {
            Span::empty(span.file_id())
        };
        let pieces2 = nmt.splitn(2, " ");
        proof {
            crate::text::lemma_splitn2_len(nmt@, " "@);
            assert(crate::span::span_texts(pieces2@)[0] == pieces2@[0]@);
            if pieces2@.len() >= 2 {
                assert(crate::span::span_texts(pieces2@)[1] == pieces2@[1]@);
            }
        }
        let name = pieces2[0].trim();
        if name.is_empty() {
            return Err(span.diagnostic("Param name is required"));
        }
        let lua_type = if pieces2.len() >= 2 {
            pieces2[1].trim()
        } else {
            proof {
                reveal_strlit("");
                assert(""@ =~= Seq::<char>::empty());
            }
            Span::dummy("")
        };
        Ok(ParamTag { name, desc, lua_type, source: span })
    }
}

} // verus!
