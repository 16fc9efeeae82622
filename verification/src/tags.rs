//! The tag micro-language: one typed variant per tag, a name-dispatched
//! parser from a tag line to a variant, and the co-occurrence validation.

use vstd::prelude::*;

pub mod class;
pub mod custom;
pub mod error;
pub mod external;
pub mod field;
pub mod function;
pub mod inclusion;
pub mod index;
pub mod interface;
pub mod kind;
pub mod marker;
pub mod param;
pub mod property;
pub mod return_tag;
pub mod status;
pub mod type_tag;
pub mod validation;
pub mod within;

pub use class::ClassTag;
pub use custom::CustomTag;
pub use error::ErrorTag;
pub use external::ExternalTag;
pub use field::FieldTag;
pub use function::FunctionTag;
pub use inclusion::IncludeTag;
pub use index::IndexTag;
pub use interface::InterfaceTag;
pub use kind::KindTag;
pub use kind::KindTagType;
pub use marker::ClientTag;
pub use marker::IgnoreTag;
pub use marker::MarkerTag;
pub use marker::MarkerTagType;
pub use marker::PluginTag;
pub use marker::PrivateTag;
pub use marker::ReadOnlyTag;
pub use marker::ServerTag;
pub use marker::UnreleasedTag;
pub use marker::YieldsTag;
pub use param::ParamTag;
pub use property::PropertyTag;
pub use return_tag::ReturnTag;
pub use status::DeprecatedTag;
pub use status::SinceTag;
pub use type_tag::TypeTag;
pub use validation::validate_global_tags;
pub use validation::validate_tags;
pub use within::WithinTag;

use crate::diagnostic::diag_points_at;
use crate::diagnostic::Diagnostic;
use crate::doc_entry::FunctionType;
use crate::span::Span;
use crate::tags::error::spec_error_tag;
use crate::tags::external::spec_external_tag;
use crate::tags::field::spec_field_tag;
use crate::tags::param::spec_param_tag;
use crate::tags::return_tag::spec_return_tag;
use crate::tags::status::spec_deprecated_tag;
use crate::tags::status::spec_opt_view;
use crate::tags::type_tag::spec_type_tag;
use crate::text::head2;
use crate::text::spec_trim;
use crate::text::tail2;

verus! {

/// The kind of a tag, for the validation tables.
#[derive(PartialEq, Eq, Structural, Clone, Copy, Debug)]
pub enum TagType {
    Param,
    Function,
    Property,
    Class,
    Within,
    Type,
    Interface,
    Field,
    Unreleased,
    Server,
    Client,
    Plugin,
    Private,
    Ignore,
    Yields,
    ReadOnly,
    Return,
    Deprecated,
    Since,
    Custom,
    Error,
    Index,
    External,
}

/// One parsed tag of a doc comment.
pub enum Tag {
    Param(ParamTag),
    Function(FunctionTag),
    Property(PropertyTag),
    Class(ClassTag),
    Within(WithinTag),
    Type(TypeTag),
    Interface(InterfaceTag),
    Field(FieldTag),
    Unreleased(UnreleasedTag),
    Server(ServerTag),
    Client(ClientTag),
    Plugin(PluginTag),
    Private(PrivateTag),
    Ignore(IgnoreTag),
    Yields(YieldsTag),
    ReadOnly(ReadOnlyTag),
    Return(ReturnTag),
    Deprecated(DeprecatedTag),
    Since(SinceTag),
    Custom(CustomTag),
    Error(ErrorTag),
    Index(IndexTag),
    External(ExternalTag),
}

/// What a tag says, with every span rendered to its text: the mathematical
/// content of a parsed tag line.
pub enum TagModel {
    Param { name: Seq<char>, lua_type: Seq<char>, desc: Seq<char> },
    Function { name: Seq<char>, function_type: FunctionType },
    Property { name: Seq<char>, lua_type: Option<Seq<char>> },
    Class { name: Seq<char> },
    Within { name: Seq<char> },
    Type { name: Seq<char>, lua_type: Option<Seq<char>> },
    Interface { name: Seq<char> },
    Field { name: Seq<char>, lua_type: Seq<char>, desc: Seq<char> },
    Unreleased,
    Server,
    Client,
    Plugin,
    Private,
    Ignore,
    Yields,
    ReadOnly,
    Return { lua_type: Seq<char>, desc: Seq<char> },
    Deprecated { version: Option<Seq<char>>, desc: Option<Seq<char>> },
    Since { version: Seq<char> },
    Custom { name: Seq<char> },
    Error { lua_type: Seq<char>, desc: Seq<char> },
    Index { name: Seq<char> },
    External { name: Seq<char>, url: Seq<char> },
}

/// The content of a tag value.
pub open spec fn model_of(tag: Tag) -> TagModel {
    match tag {
        Tag::Param(t) => TagModel::Param { name: t.name@, lua_type: t.lua_type@, desc: t.desc@ },
        Tag::Function(t) => TagModel::Function { name: t.name@, function_type: t.function_type },
        Tag::Property(t) => TagModel::Property {
            name: t.name@,
            lua_type: spec_opt_view(t.lua_type),
        },
        Tag::Class(t) => TagModel::Class { name: t.name@ },
        Tag::Within(t) => TagModel::Within { name: t.name@ },
        Tag::Type(t) => TagModel::Type { name: t.name@, lua_type: spec_opt_view(t.lua_type) },
        Tag::Interface(t) => TagModel::Interface { name: t.name@ },
        Tag::Field(t) => TagModel::Field { name: t.name@, lua_type: t.lua_type@, desc: t.desc@ },
        Tag::Unreleased(t) => TagModel::Unreleased,
        Tag::Server(t) => TagModel::Server,
        Tag::Client(t) => TagModel::Client,
        Tag::Plugin(t) => TagModel::Plugin,
        Tag::Private(t) => TagModel::Private,
        Tag::Ignore(t) => TagModel::Ignore,
        Tag::Yields(t) => TagModel::Yields,
        Tag::ReadOnly(t) => TagModel::ReadOnly,
        Tag::Return(t) => TagModel::Return { lua_type: t.lua_type@, desc: t.desc@ },
        Tag::Deprecated(t) => TagModel::Deprecated {
            version: spec_opt_view(t.version),
            desc: spec_opt_view(t.desc),
        },
        Tag::Since(t) => TagModel::Since { version: t.version@ },
        Tag::Custom(t) => TagModel::Custom { name: t.name@ },
        Tag::Error(t) => TagModel::Error { lua_type: t.lua_type@, desc: t.desc@ },
        Tag::Index(t) => TagModel::Index { name: t.name@ },
        Tag::External(t) => TagModel::External { name: t.name@, url: t.url@ },
    }
}

/// The span a tag blames its diagnostics on.
pub open spec fn spec_source_of(tag: Tag) -> Span {
    match tag {
        Tag::Param(t) => t.source,
        Tag::Function(t) => t.source,
        Tag::Property(t) => t.source,
        Tag::Class(t) => t.source,
        Tag::Within(t) => t.source,
        Tag::Type(t) => t.source,
        Tag::Interface(t) => t.source,
        Tag::Field(t) => t.source,
        Tag::Unreleased(t) => t.source,
        Tag::Server(t) => t.source,
        Tag::Client(t) => t.source,
        Tag::Plugin(t) => t.source,
        Tag::Private(t) => t.source,
        Tag::Ignore(t) => t.source,
        Tag::Yields(t) => t.source,
        Tag::ReadOnly(t) => t.source,
        Tag::Return(t) => t.source,
        Tag::Deprecated(t) => t.source,
        Tag::Since(t) => t.source,
        Tag::Custom(t) => t.source,
        Tag::Error(t) => t.source,
        Tag::Index(t) => t.source,
        Tag::External(t) => t.source,
    }
}

/// The kind of a tag value.
pub open spec fn spec_tag_type(tag: Tag) -> TagType {
    match tag {
        Tag::Param(t) => TagType::Param,
        Tag::Function(t) => TagType::Function,
        Tag::Property(t) => TagType::Property,
        Tag::Class(t) => TagType::Class,
        Tag::Within(t) => TagType::Within,
        Tag::Type(t) => TagType::Type,
        Tag::Interface(t) => TagType::Interface,
        Tag::Field(t) => TagType::Field,
        Tag::Unreleased(t) => TagType::Unreleased,
        Tag::Server(t) => TagType::Server,
        Tag::Client(t) => TagType::Client,
        Tag::Plugin(t) => TagType::Plugin,
        Tag::Private(t) => TagType::Private,
        Tag::Ignore(t) => TagType::Ignore,
        Tag::Yields(t) => TagType::Yields,
        Tag::ReadOnly(t) => TagType::ReadOnly,
        Tag::Return(t) => TagType::Return,
        Tag::Deprecated(t) => TagType::Deprecated,
        Tag::Since(t) => TagType::Since,
        Tag::Custom(t) => TagType::Custom,
        Tag::Error(t) => TagType::Error,
        Tag::Index(t) => TagType::Index,
        Tag::External(t) => TagType::External,
    }
}

/// The content a whole tag line parses to, or nothing when the line is
/// rejected: a line starting with `.` is field-tag shorthand; otherwise the
/// first space-delimited token names the tag, markers take no body, and
/// every other tag parses its body by its own grammar.
pub open spec fn spec_parse_tag(line: Seq<char>) -> Option<TagModel> {
    if line.len() > 0 && line[0] == '.' {
        match spec_field_tag(line.skip(1)) {
            Some(t) => Some(TagModel::Field { name: t.0, lua_type: t.1, desc: t.2 }),
            None => None,
        }
    } else {
        let name = spec_trim(head2(line, " "@));
        if name == "@server"@ {
            Some(TagModel::Server)
        } else if name == "@client"@ {
            Some(TagModel::Client)
        } else if name == "@plugin"@ {
            Some(TagModel::Plugin)
        } else if name == "@private"@ {
            Some(TagModel::Private)
        } else if name == "@ignore"@ {
            Some(TagModel::Ignore)
        } else if name == "@yields"@ {
            Some(TagModel::Yields)
        } else if name == "@readonly"@ {
            Some(TagModel::ReadOnly)
        } else if name == "@unreleased"@ {
            Some(TagModel::Unreleased)
        } else {
            match tail2(line, " "@) {
                None => None,
                Some(raw_body) => spec_parse_tag_body(name, spec_trim(raw_body)),
            }
        }
    }
}

/// The content the named tag's body parses to, or nothing when it is
/// rejected.
pub open spec fn spec_parse_tag_body(name: Seq<char>, body: Seq<char>) -> Option<TagModel> {
    if name == "@param"@ {
        match spec_param_tag(body) {
            Some(t) => Some(TagModel::Param { name: t.0, lua_type: t.1, desc: t.2 }),
            None => None,
        }
    } else if name == "@return"@ {
        match spec_return_tag(body) {
            Some(t) => Some(TagModel::Return { lua_type: t.0, desc: t.1 }),
            None => None,
        }
    } else if name == "@within"@ {
        if body.len() > 0 {
            Some(TagModel::Within { name: body })
        } else {
            None
        }
    } else if name == "@__index"@ {
        Some(TagModel::Index { name: body })
    } else if name == "@type"@ {
        Some(TagModel::Type { name: spec_type_tag(body).0, lua_type: spec_type_tag(body).1 })
    } else if name == "@interface"@ {
        Some(TagModel::Interface { name: body })
    } else if name == "@field"@ {
        match spec_field_tag(body) {
            Some(t) => Some(TagModel::Field { name: t.0, lua_type: t.1, desc: t.2 }),
            None => None,
        }
    } else if name == "@prop"@ {
        Some(TagModel::Property { name: spec_type_tag(body).0, lua_type: spec_type_tag(body).1 })
    } else if name == "@class"@ {
        Some(TagModel::Class { name: body })
    } else if name == "@function"@ {
        Some(TagModel::Function { name: body, function_type: FunctionType::Static })
    } else if name == "@method"@ {
        Some(TagModel::Function { name: body, function_type: FunctionType::Method })
    } else if name == "@deprecated"@ {
        Some(
            TagModel::Deprecated {
                version: spec_deprecated_tag(body).0,
                desc: spec_deprecated_tag(body).1,
            },
        )
    } else if name == "@since"@ {
        Some(TagModel::Since { version: body })
    } else if name == "@tag"@ {
        Some(TagModel::Custom { name: body })
    } else if name == "@error"@ {
        match spec_error_tag(body) {
            Some(t) => Some(TagModel::Error { lua_type: t.0, desc: t.1 }),
            None => None,
        }
    } else if name == "@external"@ {
        match spec_external_tag(body) {
            Some(t) => Some(TagModel::External { name: t.0, url: t.1 }),
            None => None,
        }
    } else {
        None
    }
}

impl Tag {
    /// A diagnostic blamed on this tag's source span.
    pub fn diagnostic(&self, text: &str) -> (d: Diagnostic)
        ensures
            d.spec_text() == text@,
            diag_points_at(&d, &spec_source_of(*self)),
            d.spec_additional().len() == 0,
    {
        match self {
            Tag::Param(t) => t.source.diagnostic(text),
            Tag::Function(t) => t.source.diagnostic(text),
            Tag::Property(t) => t.source.diagnostic(text),
            Tag::Class(t) => t.source.diagnostic(text),
            Tag::Within(t) => t.source.diagnostic(text),
            Tag::Type(t) => t.source.diagnostic(text),
            Tag::Interface(t) => t.source.diagnostic(text),
            Tag::Field(t) => t.source.diagnostic(text),
            Tag::Unreleased(t) => t.source.diagnostic(text),
            Tag::Server(t) => t.source.diagnostic(text),
            Tag::Client(t) => t.source.diagnostic(text),
            Tag::Plugin(t) => t.source.diagnostic(text),
            Tag::Private(t) => t.source.diagnostic(text),
            Tag::Ignore(t) => t.source.diagnostic(text),
            Tag::Yields(t) => t.source.diagnostic(text),
            Tag::ReadOnly(t) => t.source.diagnostic(text),
            Tag::Return(t) => t.source.diagnostic(text),
            Tag::Deprecated(t) => t.source.diagnostic(text),
            Tag::Since(t) => t.source.diagnostic(text),
            Tag::Custom(t) => t.source.diagnostic(text),
            Tag::Error(t) => t.source.diagnostic(text),
            Tag::Index(t) => t.source.diagnostic(text),
            Tag::External(t) => t.source.diagnostic(text),
        }
    }

    /// This tag's kind, for the validation tables.
    pub fn tag_type(&self) -> (r: TagType)
        ensures
            r == spec_tag_type(*self),
    {
        match self {
            Tag::Param(t) => TagType::Param,
            Tag::Function(t) => TagType::Function,
            Tag::Property(t) => TagType::Property,
            Tag::Class(t) => TagType::Class,
            Tag::Within(t) => TagType::Within,
            Tag::Type(t) => TagType::Type,
            Tag::Interface(t) => TagType::Interface,
            Tag::Field(t) => TagType::Field,
            Tag::Unreleased(t) => TagType::Unreleased,
            Tag::Server(t) => TagType::Server,
            Tag::Client(t) => TagType::Client,
            Tag::Plugin(t) => TagType::Plugin,
            Tag::Private(t) => TagType::Private,
            Tag::Ignore(t) => TagType::Ignore,
            Tag::Yields(t) => TagType::Yields,
            Tag::ReadOnly(t) => TagType::ReadOnly,
            Tag::Return(t) => TagType::Return,
            Tag::Deprecated(t) => TagType::Deprecated,
            Tag::Since(t) => TagType::Since,
            Tag::Custom(t) => TagType::Custom,
            Tag::Error(t) => TagType::Error,
            Tag::Index(t) => TagType::Index,
            Tag::External(t) => TagType::External,
        }
    }

    /// Replaces the source span with a new span for error reporting clarity;
    /// the tag's content and kind stay as they were.
    pub fn blame(&mut self, span: Span)
        ensures
            model_of(*final(self)) == model_of(*old(self)),
            spec_tag_type(*final(self)) == spec_tag_type(*old(self)),
            spec_source_of(*final(self)) == span,
    {
        match self {
            Tag::Param(t) => t.source.replace(span),
            Tag::Function(t) => t.source.replace(span),
            Tag::Property(t) => t.source.replace(span),
            Tag::Class(t) => t.source.replace(span),
            Tag::Within(t) => t.source.replace(span),
            Tag::Type(t) => t.source.replace(span),
            Tag::Interface(t) => t.source.replace(span),
            Tag::Field(t) => t.source.replace(span),
            Tag::Unreleased(t) => t.source.replace(span),
            Tag::Server(t) => t.source.replace(span),
            Tag::Client(t) => t.source.replace(span),
            Tag::Plugin(t) => t.source.replace(span),
            Tag::Private(t) => t.source.replace(span),
            Tag::Ignore(t) => t.source.replace(span),
            Tag::Yields(t) => t.source.replace(span),
            Tag::ReadOnly(t) => t.source.replace(span),
            Tag::Return(t) => t.source.replace(span),
            Tag::Deprecated(t) => t.source.replace(span),
            Tag::Since(t) => t.source.replace(span),
            Tag::Custom(t) => t.source.replace(span),
            Tag::Error(t) => t.source.replace(span),
            Tag::Index(t) => t.source.replace(span),
            Tag::External(t) => t.source.replace(span),
        }
    }

    /// Parses one tag line into a tag.  The accepted lines and their
    /// contents are exactly those of `spec_parse_tag`; an accepted tag is
    /// blamed on the whole line.
    pub fn try_from(text: Span) -> (r: Result<Tag, Diagnostic>)
        ensures
            match r {
                Ok(tag) => spec_parse_tag(text@) == Some(model_of(tag)) && spec_source_of(
                    tag,
                ).same_span(text),
                Err(e) => spec_parse_tag(text@) == None::<TagModel>,
            },
    {
        proof {
            reveal_strlit(".");
        }
        if text.starts_with(".") {
            proof {
                assert(text@.subrange(0, 1) =~= seq![text@[0]]);
                assert(text@[0] == "."@[0]);
                assert(text@[0] == '.');
            }
            let n = text.len();
            let body = text.slice(1, n - 1);
            proof {
                assert(body@ =~= text@.skip(1));
            }
            let parsed = FieldTag::parse(body);
            match parsed {
                Ok(field_tag) => {
                    let mut tag = Tag::Field(field_tag);
                    tag.blame(text.duplicate());
                    return Ok(tag);
                },
                Err(e) => {
                    return Err(e);
                },
            }
        }
        proof {
            assert(!(text@.len() > 0 && text@[0] == '.')) by {
                if text@.len() > 0 && text@[0] == '.' {
                    assert(text@.subrange(0, 1) =~= "."@);
                }
            }
        }
        proof {
            reveal_strlit(" ");
        }
        let pieces = text.splitn(2, " ");
        proof {
            crate::text::lemma_splitn2_len(text@, " "@);
            assert(crate::span::span_texts(pieces@)[0] == pieces@[0]@);
            if pieces@.len() >= 2 {
                assert(crate::span::span_texts(pieces@)[1] == pieces@[1]@);
            }
        }
        let tag_name = pieces[0].trim();
        let tag_text: Option<Span> = if pieces.len() >= 2 {
            Some(pieces[1].trim())
        } else {
            None
        };
        let mut parsed_tag: Tag = if tag_name.eq_str("@server") {
            match ServerTag::parse() {
                Ok(t) => Tag::Server(t),
                Err(e) => {
                    return Err(e);
                },
            }
        } else if tag_name.eq_str("@client") {
            match ClientTag::parse() {
                Ok(t) => Tag::Client(t),
                Err(e) => {
                    return Err(e);
                },
            }
        } else if tag_name.eq_str("@plugin") {
            match PluginTag::parse() {
                Ok(t) => Tag::Plugin(t),
                Err(e) => {
                    return Err(e);
                },
            }
        } else if tag_name.eq_str("@private") {
            match PrivateTag::parse() {
                Ok(t) => Tag::Private(t),
                Err(e) => {
                    return Err(e);
                },
            }
        } else if tag_name.eq_str("@ignore") {
            match IgnoreTag::parse() {
                Ok(t) => Tag::Ignore(t),
                Err(e) => {
                    return Err(e);
                },
            }
        } else if tag_name.eq_str("@yields") {
            match YieldsTag::parse() {
                Ok(t) => Tag::Yields(t),
                Err(e) => {
                    return Err(e);
                },
            }
        } else if tag_name.eq_str("@readonly") {
            match ReadOnlyTag::parse() {
                Ok(t) => Tag::ReadOnly(t),
                Err(e) => {
                    return Err(e);
                },
            }
        } else if tag_name.eq_str("@unreleased") {
            match UnreleasedTag::parse() {
                Ok(t) => Tag::Unreleased(t),
                Err(e) => {
                    return Err(e);
                },
            }
        } else if tag_name.eq_str("@param") {
            match tag_text {
                None => {
                    return Err(text.diagnostic("This tag requires text following it"));
                },
                Some(body) => match ParamTag::parse(body) {
                    Ok(t) => Tag::Param(t),
                    Err(e) => {
                        return Err(e);
                    },
                },
            }
        } else if tag_name.eq_str("@return") {
            match tag_text {
                None => {
                    return Err(text.diagnostic("This tag requires text following it"));
                },
                Some(body) => match ReturnTag::parse(body) {
                    Ok(t) => Tag::Return(t),
                    Err(e) => {
                        return Err(e);
                    },
                },
            }
        } else if tag_name.eq_str("@within") {
            match tag_text {
                None => {
                    return Err(text.diagnostic("This tag requires text following it"));
                },
                Some(body) => match WithinTag::parse(body) {
                    Ok(t) => Tag::Within(t),
                    Err(e) => {
                        return Err(e);
                    },
                },
            }
        } else if tag_name.eq_str("@__index") {
            match tag_text {
                None => {
                    return Err(text.diagnostic("This tag requires text following it"));
                },
                Some(body) => match IndexTag::parse(body) {
                    Ok(t) => Tag::Index(t),
                    Err(e) => {
                        return Err(e);
                    },
                },
            }
        } else if tag_name.eq_str("@type") {
            match tag_text {
                None => {
                    return Err(text.diagnostic("This tag requires text following it"));
                },
                Some(body) => match TypeTag::parse(body) {
                    Ok(t) => Tag::Type(t),
                    Err(e) => {
                        return Err(e);
                    },
                },
            }
        } else if tag_name.eq_str("@interface") {
            match tag_text {
                None => {
                    return Err(text.diagnostic("This tag requires text following it"));
                },
                Some(body) => match InterfaceTag::parse(body) {
                    Ok(t) => Tag::Interface(t),
                    Err(e) => {
                        return Err(e);
                    },
                },
            }
        } else if tag_name.eq_str("@field") {
            match tag_text {
                None => {
                    return Err(text.diagnostic("This tag requires text following it"));
                },
                Some(body) => match FieldTag::parse(body) {
                    Ok(t) => Tag::Field(t),
                    Err(e) => {
                        return Err(e);
                    },
                },
            }
        } else if tag_name.eq_str("@prop") {
            match tag_text {
                None => {
                    return Err(text.diagnostic("This tag requires text following it"));
                },
                Some(body) => match PropertyTag::parse(body) {
                    Ok(t) => Tag::Property(t),
                    Err(e) => {
                        return Err(e);
                    },
                },
            }
        } else if tag_name.eq_str("@class") {
            match tag_text {
                None => {
                    return Err(text.diagnostic("This tag requires text following it"));
                },
                Some(body) => match ClassTag::parse(body) {
                    Ok(t) => Tag::Class(t),
                    Err(e) => {
                        return Err(e);
                    },
                },
            }
        } else if tag_name.eq_str("@function") {
            match tag_text {
                None => {
                    return Err(text.diagnostic("This tag requires text following it"));
                },
                Some(body) => match FunctionTag::parse(body, FunctionType::Static) {
                    Ok(t) => Tag::Function(t),
                    Err(e) => {
                        return Err(e);
                    },
                },
            }
        } else if tag_name.eq_str("@method") {
            match tag_text {
                None => {
                    return Err(text.diagnostic("This tag requires text following it"));
                },
                Some(body) => match FunctionTag::parse(body, FunctionType::Method) {
                    Ok(t) => Tag::Function(t),
                    Err(e) => {
                        return Err(e);
                    },
                },
            }
        } else if tag_name.eq_str("@deprecated") {
            match tag_text {
                None => {
                    return Err(text.diagnostic("This tag requires text following it"));
                },
                Some(body) => match DeprecatedTag::parse(body) {
                    Ok(t) => Tag::Deprecated(t),
                    Err(e) => {
                        return Err(e);
                    },
                },
            }
        } else if tag_name.eq_str("@since") {
            match tag_text {
                None => {
                    return Err(text.diagnostic("This tag requires text following it"));
                },
                Some(body) => match SinceTag::parse(body) {
                    Ok(t) => Tag::Since(t),
                    Err(e) => {
                        return Err(e);
                    },
                },
            }
        } else if tag_name.eq_str("@tag") {
            match tag_text {
                None => {
                    return Err(text.diagnostic("This tag requires text following it"));
                },
                Some(body) => match CustomTag::parse(body) {
                    Ok(t) => Tag::Custom(t),
                    Err(e) => {
                        return Err(e);
                    },
                },
            }
        } else if tag_name.eq_str("@error") {
            match tag_text {
                None => {
                    return Err(text.diagnostic("This tag requires text following it"));
                },
                Some(body) => match ErrorTag::parse(body) {
                    Ok(t) => Tag::Error(t),
                    Err(e) => {
                        return Err(e);
                    },
                },
            }
        } else if tag_name.eq_str("@external") {
            match tag_text {
                None => {
                    return Err(text.diagnostic("This tag requires text following it"));
                },
                Some(body) => match ExternalTag::parse(body) {
                    Ok(t) => Tag::External(t),
                    Err(e) => {
                        return Err(e);
                    },
                },
            }
        } else {
            return Err(text.diagnostic("Unknown tag"));
        };
        parsed_tag.blame(text.duplicate());
        Ok(parsed_tag)
    }
}

/// A tag accepted from a line of a doc comment blames a range inside the
/// comment's own range in its file: the line is cut from the comment's
/// text, an accepted tag is blamed on the whole line, and a diagnostic
/// built from the tag points at the line's place in the file.
pub proof fn lemma_tag_diagnostic_within_comment(line: Span, root: Span, tag: Tag, d: Diagnostic)
    requires
        root.spec_start() == 0,
        line.derived_from(root),
        spec_source_of(tag).same_span(line),
        diag_points_at(&d, &spec_source_of(tag)),
    ensures
        root.spec_source_offset() <= d.spec_start(),
        d.spec_start() + d.spec_len() <= root.spec_source_offset() + root.spec_len(),
{
}

/// The kind of a tag's content.
pub open spec fn model_tag_type(m: TagModel) -> TagType {
    match m {
        TagModel::Param { name, lua_type, desc } => TagType::Param,
        TagModel::Function { name, function_type } => TagType::Function,
        TagModel::Property { name, lua_type } => TagType::Property,
        TagModel::Class { name } => TagType::Class,
        TagModel::Within { name } => TagType::Within,
        TagModel::Type { name, lua_type } => TagType::Type,
        TagModel::Interface { name } => TagType::Interface,
        TagModel::Field { name, lua_type, desc } => TagType::Field,
        TagModel::Unreleased => TagType::Unreleased,
        TagModel::Server => TagType::Server,
        TagModel::Client => TagType::Client,
        TagModel::Plugin => TagType::Plugin,
        TagModel::Private => TagType::Private,
        TagModel::Ignore => TagType::Ignore,
        TagModel::Yields => TagType::Yields,
        TagModel::ReadOnly => TagType::ReadOnly,
        TagModel::Return { lua_type, desc } => TagType::Return,
        TagModel::Deprecated { version, desc } => TagType::Deprecated,
        TagModel::Since { version } => TagType::Since,
        TagModel::Custom { name } => TagType::Custom,
        TagModel::Error { lua_type, desc } => TagType::Error,
        TagModel::Index { name } => TagType::Index,
        TagModel::External { name, url } => TagType::External,
    }
}

/// The contents of a list of tags.
pub open spec fn models_of(tags: Seq<Tag>) -> Seq<TagModel> {
    tags.map_values(|t: Tag| model_of(t))
}

/// A tag's kind is determined by its content.
pub proof fn lemma_model_tag_type(tag: Tag)
    ensures
        spec_tag_type(tag) == model_tag_type(model_of(tag)),
{
}

/// The kinds of a list of tags are the kinds of their contents.
pub proof fn lemma_model_types(tags: Seq<Tag>)
    ensures
        crate::tags::validation::types_of(tags) =~= models_of(tags).map_values(
            |m: TagModel| model_tag_type(m),
        ),
{
    assert forall|i: int| 0 <= i < tags.len() implies crate::tags::validation::types_of(tags)[i]
        == models_of(tags).map_values(|m: TagModel| model_tag_type(m))[i] by {
        lemma_model_tag_type(tags[i]);
    }
}

} // verus!
