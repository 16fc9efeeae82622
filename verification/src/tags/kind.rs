//! A compact representation of the explicit kind tags, keyed by the kind
//! they declare.

use vstd::prelude::*;

use crate::diagnostic::{diag_points_at, Diagnostic};
use crate::span::Span;
use crate::tags::TagType;

verus! {

/// Which kind an explicit kind tag declares.
#[derive(PartialEq, Eq, Structural, Clone, Copy)]
pub enum KindTagType {
    Function,
    Property,
    Class,
    Type,
    External,
}

impl KindTagType {
    /// The tag type a kind tag of this kind counts as during validation.
    pub fn tag_type(&self) -> (r: TagType)
        ensures
            r == self.spec_tag_type(),
    {
        match self {
            KindTagType::Function => TagType::Function,
            KindTagType::Property => TagType::Property,
            KindTagType::Class => TagType::Class,
            KindTagType::Type => TagType::Type,
            KindTagType::External => TagType::External,
        }
    }

    pub open spec fn spec_tag_type(self) -> TagType {
        match self {
            KindTagType::Function => TagType::Function,
            KindTagType::Property => TagType::Property,
            KindTagType::Class => TagType::Class,
            KindTagType::Type => TagType::Type,
            KindTagType::External => TagType::External,
        }
    }
}

/// An explicit kind tag: the declared name and the kind it declares.
pub struct KindTag {
    pub name: Span,
    pub kind_type: KindTagType,
    pub source: Span,
}

impl KindTag {
    /// Records the body as the declared name; an empty body is rejected.
    pub fn parse(text: Span, tag_type: KindTagType) -> (r: Result<KindTag, Diagnostic>)
        ensures
            r is Ok <==> text@.len() > 0,
            match r {
                Ok(tag) => tag.name@ == text@ && tag.kind_type == tag_type && tag.source == text,
                Err(d) => d.spec_text() == "This kind tag has stuff after it"@ && diag_points_at(
                    &d,
                    &text,
                ) && d.spec_additional().len() == 0,
            },
    {
        if text.is_empty() {
            return Err(text.diagnostic("This kind tag has stuff after it"));
        }
        let name = text.duplicate();
        Ok(KindTag { name, kind_type: tag_type, source: text })
    }
}

} // verus!
