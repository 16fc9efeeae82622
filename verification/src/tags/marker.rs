//! The marker tags: payload-free tags that set one boolean flag or realm
//! each.

use vstd::prelude::*;

use crate::diagnostic::Diagnostic;
use crate::span::Span;
use crate::tags::TagType;

verus! {

/// `@server`.
pub struct ServerTag {
    pub source: Span,
}

impl ServerTag {
    pub fn parse() -> (r: Result<ServerTag, Diagnostic>)
        ensures
            r is Ok,
            match r {
                Ok(tag) => tag.source@ == Seq::<char>::empty(),
                Err(d) => true,
            },
    {
        proof {
            reveal_strlit("");
            assert(""@ =~= Seq::<char>::empty());
        }
        Ok(ServerTag { source: Span::dummy("") })
    }
}

/// `@plugin`.
pub struct PluginTag {
    pub source: Span,
}

impl PluginTag {
    pub fn parse() -> (r: Result<PluginTag, Diagnostic>)
        ensures
            r is Ok,
            match r {
                Ok(tag) => tag.source@ == Seq::<char>::empty(),
                Err(d) => true,
            },
    {
        proof {
            reveal_strlit("");
            assert(""@ =~= Seq::<char>::empty());
        }
        Ok(PluginTag { source: Span::dummy("") })
    }
}

/// `@client`.
pub struct ClientTag {
    pub source: Span,
}

impl ClientTag {
    pub fn parse() -> (r: Result<ClientTag, Diagnostic>)
        ensures
            r is Ok,
            match r {
                Ok(tag) => tag.source@ == Seq::<char>::empty(),
                Err(d) => true,
            },
    {
        proof {
            reveal_strlit("");
            assert(""@ =~= Seq::<char>::empty());
        }
        Ok(ClientTag { source: Span::dummy("") })
    }
}

/// `@private`.
pub struct PrivateTag {
    pub source: Span,
}

impl PrivateTag {
    pub fn parse() -> (r: Result<PrivateTag, Diagnostic>)
        ensures
            r is Ok,
            match r {
                Ok(tag) => tag.source@ == Seq::<char>::empty(),
                Err(d) => true,
            },
    {
        proof {
            reveal_strlit("");
            assert(""@ =~= Seq::<char>::empty());
        }
        Ok(PrivateTag { source: Span::dummy("") })
    }
}

/// `@ignore`.
pub struct IgnoreTag {
    pub source: Span,
}

impl IgnoreTag {
    pub fn parse() -> (r: Result<IgnoreTag, Diagnostic>)
        ensures
            r is Ok,
            match r {
                Ok(tag) => tag.source@ == Seq::<char>::empty(),
                Err(d) => true,
            },
    {
        proof {
            reveal_strlit("");
            assert(""@ =~= Seq::<char>::empty());
        }
        Ok(IgnoreTag { source: Span::dummy("") })
    }
}

/// `@yields`.
pub struct YieldsTag {
    pub source: Span,
}

impl YieldsTag {
    pub fn parse() -> (r: Result<YieldsTag, Diagnostic>)
        ensures
            r is Ok,
            match r {
                Ok(tag) => tag.source@ == Seq::<char>::empty(),
                Err(d) => true,
            },
    {
        proof {
            reveal_strlit("");
            assert(""@ =~= Seq::<char>::empty());
        }
        Ok(YieldsTag { source: Span::dummy("") })
    }
}

/// `@readonly`.
pub struct ReadOnlyTag {
    pub source: Span,
}

impl ReadOnlyTag {
    pub fn parse() -> (r: Result<ReadOnlyTag, Diagnostic>)
        ensures
            r is Ok,
            match r {
                Ok(tag) => tag.source@ == Seq::<char>::empty(),
                Err(d) => true,
            },
    {
        proof {
            reveal_strlit("");
            assert(""@ =~= Seq::<char>::empty());
        }
        Ok(ReadOnlyTag { source: Span::dummy("") })
    }
}

/// `@unreleased`.
pub struct UnreleasedTag {
    pub source: Span,
}

impl UnreleasedTag {
    pub fn parse() -> (r: Result<UnreleasedTag, Diagnostic>)
        ensures
            r is Ok,
            match r {
                Ok(tag) => tag.source@ == Seq::<char>::empty(),
                Err(d) => true,
            },
    {
        proof {
            reveal_strlit("");
            assert(""@ =~= Seq::<char>::empty());
        }
        Ok(UnreleasedTag { source: Span::dummy("") })
    }
}

/// Which flag a compact marker tag sets.
#[derive(PartialEq, Eq, Structural, Clone, Copy)]
pub enum MarkerTagType {
    Server,
    Client,
    Private,
    Ignore,
    Yields,
    ReadOnly,
    Unreleased,
}

impl MarkerTagType {
    /// The tag type a marker of this kind counts as during validation.
    pub fn tag_type(&self) -> (r: TagType)
        ensures
            r == self.spec_tag_type(),
    {
        match self {
            MarkerTagType::Server => TagType::Server,
            MarkerTagType::Client => TagType::Client,
            MarkerTagType::Private => TagType::Private,
            MarkerTagType::Ignore => TagType::Ignore,
            MarkerTagType::Yields => TagType::Yields,
            MarkerTagType::ReadOnly => TagType::ReadOnly,
            MarkerTagType::Unreleased => TagType::Unreleased,
        }
    }

    pub open spec fn spec_tag_type(self) -> TagType {
        match self {
            MarkerTagType::Server => TagType::Server,
            MarkerTagType::Client => TagType::Client,
            MarkerTagType::Private => TagType::Private,
            MarkerTagType::Ignore => TagType::Ignore,
            MarkerTagType::Yields => TagType::Yields,
            MarkerTagType::ReadOnly => TagType::ReadOnly,
            MarkerTagType::Unreleased => TagType::Unreleased,
        }
    }
}

/// A compact marker tag: which flag it sets, and its source span.
pub struct MarkerTag {
    pub marker_type: MarkerTagType,
    pub source: Span,
}

impl MarkerTag {
    pub fn parse(tag_type: MarkerTagType) -> (r: Result<MarkerTag, Diagnostic>)
        ensures
            r is Ok,
            match r {
                Ok(tag) => tag.marker_type == tag_type && tag.source@ == Seq::<char>::empty(),
                Err(d) => true,
            },
    {
        proof {
            reveal_strlit("");
            assert(""@ =~= Seq::<char>::empty());
        }
        Ok(MarkerTag { marker_type: tag_type, source: Span::dummy("") })
    }
}

} // verus!
