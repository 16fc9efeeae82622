//! The `@deprecated` and `@since` tags: version metadata.

use vstd::prelude::*;

use crate::diagnostic::Diagnostic;
use crate::span::Span;
use crate::text::{head2, spec_trim, tail2};

verus! {

/// `@deprecated version -- description`, both parts optional.
pub struct DeprecatedTag {
    pub version: Option<Span>,
    pub desc: Option<Span>,
    pub source: Span,
}

/// What a `@deprecated` body holds: the version before `--` when non-empty,
/// and the description after `--` when the separator occurs.
pub open spec fn spec_deprecated_tag(s: Seq<char>) -> (Option<Seq<char>>, Option<Seq<char>>) {
    let version = spec_trim(head2(s, "--"@));
    (
        if version.len() == 0 {
            None
        } else {
            Some(version)
        },
        match tail2(s, "--"@) {
            Some(d) => Some(spec_trim(d)),
            None => None,
        },
    )
}

/// The version a `Deprecated` tag records, as views.
pub open spec fn spec_opt_view(o: Option<Span>) -> Option<Seq<char>> {
    match o {
        Some(sp) => Some(sp@),
        None => None,
    }
}

impl DeprecatedTag {
    /// Splits a `@deprecated` body into optional version and description.
    pub fn parse(span: Span) -> (r: Result<DeprecatedTag, Diagnostic>)
        ensures
            r is Ok,
            match r {
                Ok(tag) => (spec_opt_view(tag.version), spec_opt_view(tag.desc))
                    == spec_deprecated_tag(span@) && tag.source == span,
                Err(d) => true,
            },
    {
        proof {
            reveal_strlit("--");
        }
        let pieces = span.splitn(2, "--");
        proof {
            crate::text::lemma_splitn2_len(span@, "--"@);
            assert(crate::span::span_texts(pieces@)[0] == pieces@[0]@);
            if pieces@.len() >= 2 {
                assert(crate::span::span_texts(pieces@)[1] == pieces@[1]@);
            }
        }
        let version = pieces[0].trim();
        let version = if version.is_empty() {
            None
        } else {
            Some(version)
        };
        let desc = if pieces.len() >= 2 {
            Some(pieces[1].trim())
        } else {
            None
        };
        Ok(DeprecatedTag { version, desc, source: span })
    }
}

/// `@since version`.
pub struct SinceTag {
    pub version: Span,
    pub source: Span,
}

impl SinceTag {
    /// Records the whole body as the version.
    pub fn parse(span: Span) -> (r: Result<SinceTag, Diagnostic>)
        ensures
            r is Ok,
            match r {
                Ok(tag) => tag.version.same_span(span) && tag.source == span,
                Err(d) => true,
            },
    {
        let version = span.duplicate();
        Ok(SinceTag { version, source: span })
    }
}

} // verus!
