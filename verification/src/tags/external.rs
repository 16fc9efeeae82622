//! The `@external` tag: a name and the URL it links to.

use vstd::prelude::*;

use crate::diagnostic::{diag_points_at, Diagnostic};
use crate::span::Span;
use crate::text::{head2, spec_trim, tail2};

verus! {

/// `@external name url`.
pub struct ExternalTag {
    pub name: Span,
    pub url: Span,
    pub source: Span,
}

/// What an accepted `@external` body holds: the name before the first space
/// and the URL after it; nothing when no space separates a URL.
pub open spec fn spec_external_tag(s: Seq<char>) -> Option<(Seq<char>, Seq<char>)> {
    let name = spec_trim(head2(s, " "@));
    match tail2(s, " "@) {
        Some(u) => Some((name, spec_trim(u))),
        None => None,
    }
}

impl ExternalTag {
    /// Splits an `@external` body into name and URL; a missing URL is
    /// rejected.
    pub fn parse(span: Span) -> (r: Result<ExternalTag, Diagnostic>)
        ensures
            match r {
                Ok(tag) => spec_external_tag(span@) == Some((tag.name@, tag.url@)) && tag.source
                    == span,
                Err(d) => spec_external_tag(span@) == None::<(Seq<char>, Seq<char>)> && (
                d.spec_text() == "A url is required"@ && diag_points_at(&d, &span) && d.spec_additional().len() == 0),
            },
    {
        proof {
            reveal_strlit(" ");
        }
        let pieces = span.splitn(2, " ");
        proof {
            crate::text::lemma_splitn2_len(span@, " "@);
            assert(crate::span::span_texts(pieces@)[0] == pieces@[0]@);
            if pieces@.len() >= 2 {
                assert(crate::span::span_texts(pieces@)[1] == pieces@[1]@);
            }
        }
        let name = pieces[0].trim();
        if pieces.len() < 2 {
            return Err(span.diagnostic("A url is required"));
        }
        let url = pieces[1].trim();
        Ok(ExternalTag { name, url, source: span })
    }
}

} // verus!
