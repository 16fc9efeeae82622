//! The typed documentation entries the pipeline produces, and the
//! classification that decides which kind a doc comment denotes.

use vstd::prelude::*;

pub mod class;
pub mod function;
pub mod property;
pub mod type_definition;

pub use class::ClassDocEntry;
pub use property::PropertyDocEntry;
pub use type_definition::token_reference_to_string;
pub use type_definition::Field;
pub use type_definition::TypeDocEntry;
pub use function::FunctionDocEntry;
pub use function::FunctionParam;
pub use function::FunctionReturn;
pub use function::FunctionSource;
pub use function::FunctionType;

use crate::doc_comment::CommentRef;
use crate::doc_comment::OutputSource;
use crate::tags::spec_tag_type;
use crate::tags::validation::has_type;
use crate::tags::validation::types_of;
use crate::tags::CustomTag;
use crate::tags::ErrorTag;
use crate::diagnostic::Diagnostic;
use crate::tags::Tag;
use crate::tags::TagType;

verus! {

/// What a builder consumes: the classified name, the leftover tags, the
/// description, the containing class, and where the doc comment sits.
pub struct DocEntryParseArguments {
    pub name: String,
    pub tags: Vec<Tag>,
    pub desc: String,
    pub within: Option<String>,
    pub output_source: OutputSource,
    pub source: CommentRef,
}

/// The version of the last `@since` tag, if any: a later occurrence
/// overrides an earlier one.
pub open spec fn spec_last_since(tags: Seq<Tag>) -> Option<Seq<char>>
    decreases tags.len(),
{
    if tags.len() == 0 {
        None
    } else {
        match tags.last() {
            Tag::Since(t) => Some(t.version@),
            _ => spec_last_since(tags.drop_last()),
        }
    }
}

/// The version and description of the last `@deprecated` tag, if any.
pub open spec fn spec_last_deprecated(tags: Seq<Tag>) -> Option<
    (Option<Seq<char>>, Option<Seq<char>>),
>
    decreases tags.len(),
{
    if tags.len() == 0 {
        None
    } else {
        match tags.last() {
            Tag::Deprecated(t) => Some(
                (crate::tags::status::spec_opt_view(t.version), crate::tags::status::spec_opt_view(
                    t.desc,
                )),
            ),
            _ => spec_last_deprecated(tags.drop_last()),
        }
    }
}

/// The name of the last `@__index` tag, if any.
pub open spec fn spec_last_index(tags: Seq<Tag>) -> Option<Seq<char>>
    decreases tags.len(),
{
    if tags.len() == 0 {
        None
    } else {
        match tags.last() {
            Tag::Index(t) => Some(t.name@),
            _ => spec_last_index(tags.drop_last()),
        }
    }
}

/// The labels of the custom tags, in order.
pub open spec fn spec_customs(tags: Seq<Tag>) -> Seq<Seq<char>>
    decreases tags.len(),
{
    if tags.len() == 0 {
        Seq::<Seq<char>>::empty()
    } else {
        spec_customs(tags.drop_last()) + (match tags.last() {
            Tag::Custom(t) => seq![t.name@],
            _ => Seq::<Seq<char>>::empty(),
        })
    }
}

/// The type and description of each error tag, in order.
pub open spec fn spec_errors_of(tags: Seq<Tag>) -> Seq<(Seq<char>, Seq<char>)>
    decreases tags.len(),
{
    if tags.len() == 0 {
        Seq::<(Seq<char>, Seq<char>)>::empty()
    } else {
        spec_errors_of(tags.drop_last()) + (match tags.last() {
            Tag::Error(t) => seq![(t.lua_type@, t.desc@)],
            _ => Seq::<(Seq<char>, Seq<char>)>::empty(),
        })
    }
}

/// The recorded deprecation, as views.
pub open spec fn dep_view(d: Option<crate::tags::DeprecatedTag>) -> Option<
    (Option<Seq<char>>, Option<Seq<char>>),
> {
    match d {
        Some(t) => Some(
            (crate::tags::status::spec_opt_view(t.version), crate::tags::status::spec_opt_view(
                t.desc,
            )),
        ),
        None => None,
    }
}

/// An optional string, as a view.
pub open spec fn opt_string_view(o: Option<String>) -> Option<Seq<char>> {
    match o {
        Some(s) => Some(s@),
        None => None,
    }
}

/// The tag kinds every entry builder consumes the same way: metadata,
/// custom labels, visibility flags and realms.
pub open spec fn shared_consumes(t: crate::tags::TagType) -> bool {
    t == crate::tags::TagType::Custom || t == crate::tags::TagType::Deprecated || t
        == crate::tags::TagType::Since || t == crate::tags::TagType::Private || t
        == crate::tags::TagType::Unreleased || t == crate::tags::TagType::Ignore || t
        == crate::tags::TagType::Server || t == crate::tags::TagType::Client || t
        == crate::tags::TagType::Plugin
}

/// The fields every entry builder accumulates the same way.
pub struct SharedAcc {
    pub tags: Vec<CustomTag>,
    pub deprecated: Option<crate::tags::DeprecatedTag>,
    pub since: Option<String>,
    pub private: bool,
    pub unreleased: bool,
    pub ignore: bool,
    pub client: bool,
    pub server: bool,
    pub plugin: bool,
}

impl SharedAcc {
    /// An accumulator with nothing recorded.
    pub fn new() -> (r: SharedAcc)
        ensures
            custom_names(r.tags@) == Seq::<Seq<char>>::empty(),
            r.deprecated is None,
            r.since is None,
            !r.private && !r.unreleased && !r.ignore && !r.client && !r.server && !r.plugin,
    {
        let r = SharedAcc {
            tags: Vec::new(),
            deprecated: None,
            since: None,
            private: false,
            unreleased: false,
            ignore: false,
            client: false,
            server: false,
            plugin: false,
        };
        proof {
            assert(custom_names(r.tags@) =~= Seq::<Seq<char>>::empty());
        }
        r
    }

    /// Applies one tag when its kind is shared; an unshared tag comes back
    /// unchanged.
    pub fn apply(&mut self, tag: Tag) -> (leftover: Option<Tag>)
        ensures
            match leftover {
                Some(t2) => t2 == tag && !shared_consumes(crate::tags::spec_tag_type(tag))
                    && *final(self) == *old(self),
                None => shared_consumes(crate::tags::spec_tag_type(tag)),
            },
            custom_names(final(self).tags@) == custom_names(old(self).tags@) + (match tag {
                Tag::Custom(c) => seq![c.name@],
                _ => Seq::<Seq<char>>::empty(),
            }),
            dep_view(final(self).deprecated) == (match tag {
                Tag::Deprecated(d) => Some(
                    (crate::tags::status::spec_opt_view(d.version),
                    crate::tags::status::spec_opt_view(d.desc)),
                ),
                _ => dep_view(old(self).deprecated),
            }),
            opt_string_view(final(self).since) == (match tag {
                Tag::Since(s) => Some(s.version@),
                _ => opt_string_view(old(self).since),
            }),
            final(self).private == (old(self).private || tag is Private),
            final(self).unreleased == (old(self).unreleased || tag is Unreleased),
            final(self).ignore == (old(self).ignore || tag is Ignore),
            final(self).client == (old(self).client || tag is Client),
            final(self).server == (old(self).server || tag is Server),
            final(self).plugin == (old(self).plugin || tag is Plugin),
    {
        let ghost old_names = custom_names(self.tags@);
        match tag {
            Tag::Custom(c) => {
                self.tags.push(c);
                proof {
                    assert(custom_names(self.tags@) =~= old_names.push(c.name@));
                    assert(old_names.push(c.name@) =~= old_names + seq![c.name@]);
                }
                None
            },
            Tag::Deprecated(d) => {
                self.deprecated = Some(d);
                proof {
                    assert(custom_names(self.tags@) =~= old_names + Seq::<Seq<char>>::empty());
                }
                None
            },
            Tag::Since(s) => {
                self.since = Some(s.version.to_string());
                proof {
                    assert(custom_names(self.tags@) =~= old_names + Seq::<Seq<char>>::empty());
                }
                None
            },
            Tag::Private(t) => {
                self.private = true;
                proof {
                    assert(custom_names(self.tags@) =~= old_names + Seq::<Seq<char>>::empty());
                }
                None
            },
            Tag::Unreleased(t) => {
                self.unreleased = true;
                proof {
                    assert(custom_names(self.tags@) =~= old_names + Seq::<Seq<char>>::empty());
                }
                None
            },
            Tag::Ignore(t) => {
                self.ignore = true;
                proof {
                    assert(custom_names(self.tags@) =~= old_names + Seq::<Seq<char>>::empty());
                }
                None
            },
            Tag::Server(t) => {
                self.server = true;
                proof {
                    assert(custom_names(self.tags@) =~= old_names + Seq::<Seq<char>>::empty());
                }
                None
            },
            Tag::Client(t) => {
                self.client = true;
                proof {
                    assert(custom_names(self.tags@) =~= old_names + Seq::<Seq<char>>::empty());
                }
                None
            },
            Tag::Plugin(t) => {
                self.plugin = true;
                proof {
                    assert(custom_names(self.tags@) =~= old_names + Seq::<Seq<char>>::empty());
                }
                None
            },
            other => {
                proof {
                    assert(custom_names(self.tags@) =~= old_names + Seq::<Seq<char>>::empty());
                }
                Some(other)
            },
        }
    }
}

/// Appending one tag appends its kind.
pub proof fn lemma_types_push(done: Seq<Tag>, tag: Tag)
    ensures
        types_of(done.push(tag)) =~= types_of(done).push(spec_tag_type(tag)),
        types_of(done.push(tag)).drop_last() =~= types_of(done),
        forall|t: TagType|
            has_type(types_of(done.push(tag)), t) <==> (has_type(types_of(done), t) || t
                == spec_tag_type(tag)),
{
    let a = types_of(done.push(tag));
    let b = types_of(done).push(spec_tag_type(tag));
    assert(a =~= b);
    assert forall|t: TagType|
        has_type(a, t) <==> (has_type(types_of(done), t) || t == spec_tag_type(tag)) by {
        if has_type(a, t) {
            let w = choose|w: int| 0 <= w < a.len() && a[w] == t;
            if w < done.len() {
                assert(types_of(done)[w] == t);
            }
        }
        if has_type(types_of(done), t) {
            let w = choose|w: int| 0 <= w < types_of(done).len() && types_of(done)[w] == t;
            assert(a[w] == t);
        }
        if t == spec_tag_type(tag) {
            assert(a[done.len() as int] == t);
        }
    }
}

/// What a doc comment was classified as, before its entry is built.
pub enum DocEntryKind {
    Function {
        within: String,
        name: String,
        function_type: FunctionType,
        function_source: Option<FunctionSource>,
    },
    Property { within: String, name: String, lua_type: Option<String> },
    Type { within: String, name: String },
    Class { name: String },
}

/// A classification as views: which kind, under which names.
pub enum KindModel {
    Function { within: Seq<char>, name: Seq<char>, method: bool, has_source: bool },
    Property { within: Seq<char>, name: Seq<char>, lua_type: Option<Seq<char>> },
    Type { within: Seq<char>, name: Seq<char> },
    Class { name: Seq<char> },
}

/// The views of a classification value.
pub open spec fn kind_model_of(k: DocEntryKind) -> KindModel {
    match k {
        DocEntryKind::Function { within, name, function_type, function_source } => KindModel::Function {
            within: within@,
            name: name@,
            method: function_type == FunctionType::Method,
            has_source: function_source is Some,
        },
        DocEntryKind::Property { within, name, lua_type } => KindModel::Property {
            within: within@,
            name: name@,
            lua_type: opt_string_view(lua_type),
        },
        DocEntryKind::Type { within, name } => KindModel::Type { within: within@, name: name@ },
        DocEntryKind::Class { name } => KindModel::Class { name: name@ },
    }
}

/// The name of the first `@within` tag, if any.
pub open spec fn spec_first_within(tags: Seq<Tag>) -> Option<Seq<char>>
    decreases tags.len(),
{
    if tags.len() == 0 {
        None
    } else {
        match tags[0] {
            Tag::Within(t) => Some(t.name@),
            _ => spec_first_within(tags.skip(1)),
        }
    }
}

/// The classification the first explicit kind tag yields, if one occurs:
/// `Some(Some(model))` for an accepted explicit kind, `Some(None)` for an
/// explicit kind missing its required `@within`, `None` when no kind tag
/// occurs.
pub open spec fn spec_explicit_kind(tags: Seq<Tag>, all: Seq<Tag>) -> Option<Option<KindModel>>
    decreases tags.len(),
{
    if tags.len() == 0 {
        None
    } else {
        match tags[0] {
            Tag::Class(t) => Some(Some(KindModel::Class { name: t.name@ })),
            Tag::Function(t) => Some(
                match spec_first_within(all) {
                    Some(w) => Some(
                        KindModel::Function {
                            within: w,
                            name: t.name@,
                            method: t.function_type == FunctionType::Method,
                            has_source: false,
                        },
                    ),
                    None => None,
                },
            ),
            Tag::Property(t) => Some(
                match spec_first_within(all) {
                    Some(w) => Some(
                        KindModel::Property { within: w, name: t.name@, lua_type: None },
                    ),
                    None => None,
                },
            ),
            Tag::Type(t) => Some(
                match spec_first_within(all) {
                    Some(w) => Some(KindModel::Type { within: w, name: t.name@ }),
                    None => None,
                },
            ),
            Tag::Interface(t) => Some(
                match spec_first_within(all) {
                    Some(w) => Some(KindModel::Type { within: w, name: t.name@ }),
                    None => None,
                },
            ),
            _ => spec_explicit_kind(tags.skip(1), all),
        }
    }
}

/// The name of the first `@within` tag of the comment, or an error blamed
/// on the given kind tag.
pub fn get_within_tag(tags: &Vec<Tag>, kind_tag: &Tag) -> (r: Result<String, Diagnostic>)
    ensures
        match r {
            Ok(name) => spec_first_within(tags@) == Some(name@),
            Err(d) => spec_first_within(tags@) is None && d.spec_text()
                == "Must specify containing class with @within tag"@ && crate::diagnostic::diag_points_at(
                &d,
                &crate::tags::spec_source_of(*kind_tag),
            ) && d.spec_additional().len() == 0,
        },
{
    let n = tags.len();
    let mut i: usize = 0;
    proof {
        assert(tags@.skip(0) =~= tags@);
    }
    while i < n
        invariant
            n == tags@.len(),
            0 <= i <= n,
            spec_first_within(tags@) == spec_first_within(tags@.skip(i as int)),
        decreases n - i,
    {
        proof {
            assert(tags@.skip(i as int)[0] == tags@[i as int]);
            assert(tags@.skip(i as int).skip(1) =~= tags@.skip(i + 1));
        }
        match &tags[i] {
            Tag::Within(within_tag) => {
                return Ok(within_tag.name.to_string());
            },
            _ => {},
        }
        i = i + 1;
    }
    proof {
        assert(tags@.skip(n as int) =~= Seq::<Tag>::empty());
    }
    Err(kind_tag.diagnostic("Must specify containing class with @within tag"))
}

/// The classification the first explicit kind tag yields, if one occurs; an
/// explicit function, property or type kind requires a `@within` tag.
pub fn get_explicit_kind(tags: &Vec<Tag>) -> (r: Result<Option<DocEntryKind>, Diagnostic>)
    ensures
        match r {
            Ok(k) => (match k {
                Some(kind) => spec_explicit_kind(tags@, tags@) == Some(Some(kind_model_of(kind)))
                    && (kind matches DocEntryKind::Function { function_source, .. }
                    ==> function_source is None) && (kind matches DocEntryKind::Property {
                    lua_type,
                    ..
                } ==> lua_type is None),
                None => spec_explicit_kind(tags@, tags@) is None,
            }),
            Err(d) => spec_explicit_kind(tags@, tags@) == Some(None::<KindModel>) && d.spec_text()
                == "Must specify containing class with @within tag"@ && d.spec_additional().len()
                == 0,
        },
{
    let n = tags.len();
    let mut i: usize = 0;
    proof {
        assert(tags@.skip(0) =~= tags@);
    }
    while i < n
        invariant
            n == tags@.len(),
            0 <= i <= n,
            spec_explicit_kind(tags@, tags@) == spec_explicit_kind(tags@.skip(i as int), tags@),
        decreases n - i,
    {
        proof {
            assert(tags@.skip(i as int)[0] == tags@[i as int]);
            assert(tags@.skip(i as int).skip(1) =~= tags@.skip(i + 1));
        }
        match &tags[i] {
            Tag::Class(class_tag) => {
                return Ok(Some(DocEntryKind::Class { name: class_tag.name.to_string() }));
            },
            Tag::Function(function_tag) => {
                let within = match get_within_tag(tags, &tags[i]) {
                    Ok(w) => w,
                    Err(d) => {
                        return Err(d);
                    },
                };
                return Ok(
                    Some(
                        DocEntryKind::Function {
                            name: function_tag.name.to_string(),
                            function_type: function_tag.function_type,
                            within,
                            function_source: None,
                        },
                    ),
                );
            },
            Tag::Property(property_tag) => {
                let within = match get_within_tag(tags, &tags[i]) {
                    Ok(w) => w,
                    Err(d) => {
                        return Err(d);
                    },
                };
                return Ok(
                    Some(
                        DocEntryKind::Property {
                            name: property_tag.name.to_string(),
                            within,
                            lua_type: None,
                        },
                    ),
                );
            },
            Tag::Type(type_tag) => {
                let within = match get_within_tag(tags, &tags[i]) {
                    Ok(w) => w,
                    Err(d) => {
                        return Err(d);
                    },
                };
                return Ok(
                    Some(DocEntryKind::Type { name: type_tag.name.to_string(), within }),
                );
            },
            Tag::Interface(interface_tag) => {
                let within = match get_within_tag(tags, &tags[i]) {
                    Ok(w) => w,
                    Err(d) => {
                        return Err(d);
                    },
                };
                return Ok(
                    Some(DocEntryKind::Type { name: interface_tag.name.to_string(), within }),
                );
            },
            _ => {},
        }
        i = i + 1;
    }
    proof {
        assert(tags@.skip(n as int) =~= Seq::<Tag>::empty());
    }
    Ok(None)
}

/// A list of name parts joined with dots.
pub open spec fn spec_join_dot(parts: Seq<Seq<char>>) -> Seq<char>
    decreases parts.len(),
{
    if parts.len() == 0 {
        Seq::<char>::empty()
    } else if parts.len() == 1 {
        parts[0]
    } else {
        spec_join_dot(parts.drop_last()) + seq!['.'] + parts.last()
    }
}

/// The views of a list of strings.
pub open spec fn string_views(v: Seq<String>) -> Seq<Seq<char>> {
    v.map_values(|s: String| s@)
}

/// The name parts an assignment target contributes: its plain name, or its
/// prefix name followed by every dot or bracketed-string index.
pub open spec fn spec_var_parts(v: crate::syntax::VarShape) -> Seq<Seq<char>>
    decreases v,
{
    match v {
        crate::syntax::VarShape::Name(s) => seq![s@],
        crate::syntax::VarShape::Expression { prefix_name, suffixes } => (match prefix_name {
            Some(p) => seq![p@],
            None => Seq::<Seq<char>>::empty(),
        }) + spec_suffix_parts(suffixes@),
        crate::syntax::VarShape::Unsupported => Seq::<Seq<char>>::empty(),
    }
}

/// The name parts of an index-suffix list.
pub open spec fn spec_suffix_parts(v: Seq<crate::syntax::Suffix>) -> Seq<Seq<char>>
    decreases v.len(),
{
    if v.len() == 0 {
        Seq::<Seq<char>>::empty()
    } else {
        spec_suffix_parts(v.drop_last()) + (match v.last() {
            crate::syntax::Suffix::IndexBracketString(s) => seq![s@],
            crate::syntax::Suffix::IndexDot(s) => seq![s@],
            crate::syntax::Suffix::Unsupported => Seq::<Seq<char>>::empty(),
        })
    }
}

/// Whether every argument of a callback type carries a name.
pub open spec fn spec_callback_named(args: Seq<crate::syntax::TypeArgPair>) -> bool {
    forall|i: int| 0 <= i < args.len() ==> (#[trigger] args[i]).value.name is Some
}

/// What a single-target assignment of the given expression is classified
/// as: a function literal or a callback type assertion yields a function
/// entry; any other assertion, a literal string, table, number, boolean or
/// `nil` yields a property with the matching type; anything else is
/// rejected.
pub open spec fn spec_assign_kind(
    name: Seq<char>,
    within: Seq<char>,
    e: crate::syntax::ExprShape,
) -> Option<KindModel> {
    match e {
        crate::syntax::ExprShape::Function(body) => Some(
            KindModel::Function { within, name, method: false, has_source: true },
        ),
        crate::syntax::ExprShape::TypeAssertion(t) => match t.kind {
            crate::syntax::TypeKind::Callback {
                generics,
                open_paren,
                arguments,
                close_paren,
                arrow,
                return_type,
            } => {
                if spec_callback_named(arguments@) {
                    Some(KindModel::Function { within, name, method: false, has_source: true })
                } else {
                    None
                }
            },
            _ => Some(KindModel::Property { within, name, lua_type: Some(t.raw@) }),
        },
        crate::syntax::ExprShape::InterpolatedString => Some(
            KindModel::Property { within, name, lua_type: Some("string"@) },
        ),
        crate::syntax::ExprShape::TableConstructor(s) => Some(
            KindModel::Property { within, name, lua_type: Some(s@) },
        ),
        crate::syntax::ExprShape::Number => Some(
            KindModel::Property { within, name, lua_type: Some("number"@) },
        ),
        crate::syntax::ExprShape::Str => Some(
            KindModel::Property { within, name, lua_type: Some("string"@) },
        ),
        crate::syntax::ExprShape::Symbol(sym) => match sym {
            crate::syntax::SymbolShape::True => Some(
                KindModel::Property { within, name, lua_type: Some("boolean"@) },
            ),
            crate::syntax::SymbolShape::False => Some(
                KindModel::Property { within, name, lua_type: Some("boolean"@) },
            ),
            crate::syntax::SymbolShape::Nil => Some(
                KindModel::Property { within, name, lua_type: Some("nil"@) },
            ),
            _ => None,
        },
        crate::syntax::ExprShape::Unsupported => None,
    }
}

/// What a doc comment is classified as: an explicit kind tag wins; failing
/// that, the shape of the decorated statement decides, with `@within` (or a
/// qualified name) supplying the containing class.
pub open spec fn spec_kind(tags: Seq<Tag>, stmt: Option<crate::syntax::StmtShape>) -> Option<
    KindModel,
> {
    match spec_explicit_kind(tags, tags) {
        Some(k) => k,
        None => match stmt {
            Some(crate::syntax::StmtShape::LocalFunction { name, body }) => match spec_first_within(
                tags,
            ) {
                Some(w) => Some(
                    KindModel::Function { within: w, name: name@, method: false, has_source: true },
                ),
                None => None,
            },
            Some(crate::syntax::StmtShape::FunctionDeclaration { names, method_name, body }) => match
                method_name {
                Some(m) => Some(
                    KindModel::Function {
                        within: (match spec_first_within(tags) {
                            Some(w) => w,
                            None => spec_join_dot(string_views(names@)),
                        }),
                        name: m@,
                        method: true,
                        has_source: true,
                    },
                ),
                None => {
                    if names@.len() == 0 {
                        None
                    } else {
                        match spec_first_within(tags) {
                            Some(w) => Some(
                                KindModel::Function {
                                    within: w,
                                    name: names@.last()@,
                                    method: false,
                                    has_source: true,
                                },
                            ),
                            None => {
                                if names@.len() >= 2 {
                                    Some(
                                        KindModel::Function {
                                            within: spec_join_dot(
                                                string_views(names@).drop_last(),
                                            ),
                                            name: names@.last()@,
                                            method: false,
                                            has_source: true,
                                        },
                                    )
                                } else {
                                    None
                                }
                            },
                        }
                    }
                },
            },
            Some(crate::syntax::StmtShape::LocalAssignment { names, expressions }) => {
                if names@.len() == 1 && expressions@.len() == 1 {
                    match spec_first_within(tags) {
                        Some(w) => spec_assign_kind(names@[0].name@, w, expressions@[0].expr),
                        None => None,
                    }
                } else {
                    None
                }
            },
            Some(crate::syntax::StmtShape::Assignment { variables, expressions }) => {
                if variables@.len() == 1 && expressions@.len() == 1 {
                    let parts = spec_var_parts(variables@[0].var);
                    if parts.len() == 0 {
                        None
                    } else {
                        match spec_first_within(tags) {
                            Some(w) => spec_assign_kind(parts.last(), w, expressions@[0].expr),
                            None => {
                                if parts.len() >= 2 {
                                    spec_assign_kind(
                                        parts.last(),
                                        spec_join_dot(parts.drop_last()),
                                        expressions@[0].expr,
                                    )
                                } else {
                                    None
                                }
                            },
                        }
                    }
                } else {
                    None
                }
            },
            Some(crate::syntax::StmtShape::TypeDeclaration { name, type_info }) => match
                spec_first_within(tags) {
                Some(w) => Some(KindModel::Type { within: w, name: name@ }),
                None => None,
            },
            _ => None,
        },
    }
}

/// Joins the first `upto` names with dots.
fn join_dot(v: &Vec<String>, upto: usize) -> (r: String)
    requires
        upto <= v@.len(),
    ensures
        r@ == spec_join_dot(string_views(v@).take(upto as int)),
{
    let ghost sv = string_views(v@);
    let mut out = String::new();
    let mut i: usize = 0;
    proof {
        assert(spec_join_dot(sv.take(0)) =~= Seq::<char>::empty());
    }
    while i < upto
        invariant
            upto <= v@.len(),
            sv == string_views(v@),
            0 <= i <= upto,
            out@ == spec_join_dot(sv.take(i as int)),
        decreases upto - i,
    {
        proof {
            assert(sv.take(i + 1).drop_last() =~= sv.take(i as int));
            assert(sv.take(i + 1).last() == sv[i as int]);
            reveal_strlit(".");
        }
        if i > 0 {
            out.append(".");
            proof {
                assert("."@ =~= seq!['.']);
            }
        }
        out.append(v[i].as_str());
        proof {
            assert(out@ =~= spec_join_dot(sv.take(i + 1)));
        }
        i = i + 1;
    }
    out
}

/// The name parts of an assignment target.
fn var_parts(v: &crate::syntax::VarShape) -> (r: Vec<String>)
    ensures
        string_views(r@) == spec_var_parts(*v),
{
    let mut parts: Vec<String> = Vec::new();
    match v {
        crate::syntax::VarShape::Name(s) => {
            parts.push(s.clone());
            proof {
                assert(string_views(parts@) =~= spec_var_parts(*v));
            }
        },
        crate::syntax::VarShape::Expression { prefix_name, suffixes } => {
            match prefix_name {
                Some(p) => {
                    parts.push(p.clone());
                },
                None => {},
            }
            let ghost head = string_views(parts@);
            let ghost sfx = suffixes@;
            let n = suffixes.len();
            let mut i: usize = 0;
            proof {
                assert(spec_suffix_parts(sfx.take(0)) =~= Seq::<Seq<char>>::empty());
                assert(string_views(parts@) =~= head + spec_suffix_parts(sfx.take(0)));
            }
            while i < n
                invariant
                    n == suffixes@.len(),
                    sfx == suffixes@,
                    0 <= i <= n,
                    string_views(parts@) == head + spec_suffix_parts(sfx.take(i as int)),
                decreases n - i,
            {
                proof {
                    assert(sfx.take(i + 1).drop_last() =~= sfx.take(i as int));
                    assert(sfx.take(i + 1).last() == sfx[i as int]);
                }
                let ghost pre = string_views(parts@);
                match &suffixes[i] {
                    crate::syntax::Suffix::IndexBracketString(s) => {
                        parts.push(s.clone());
                        proof {
                            assert(string_views(parts@) =~= pre.push(s@));
                        }
                    },
                    crate::syntax::Suffix::IndexDot(s) => {
                        parts.push(s.clone());
                        proof {
                            assert(string_views(parts@) =~= pre.push(s@));
                        }
                    },
                    crate::syntax::Suffix::Unsupported => {},
                }
                proof {
                    assert(string_views(parts@) =~= head + spec_suffix_parts(sfx.take(i + 1)));
                }
                i = i + 1;
            }
            proof {
                assert(sfx.take(n as int) =~= sfx);
                assert(string_views(parts@) =~= spec_var_parts(*v));
            }
        },
        crate::syntax::VarShape::Unsupported => {
            proof {
                assert(string_views(parts@) =~= spec_var_parts(*v));
            }
        },
    }
    parts
}

/// An inferred signature from a callback type's arguments and return type,
/// or the position of the first unnamed argument.
fn callback_to_function_source(
    arguments: &Vec<crate::syntax::TypeArgPair>,
    return_type: &crate::syntax::TypeNode,
) -> (r: Result<FunctionSource, usize>)
    ensures
        match r {
            Ok(fs) => spec_callback_named(arguments@) && function::param_models(fs.params@)
                == callback_seed_params(arguments@) && function::ret_views(fs.returns@) == rets_of(
                Some(*return_type),
            ),
            Err(i) => !spec_callback_named(arguments@) && i < arguments@.len() && arguments@[
                i as int].value.name is None,
        },
{
    let mut params: Vec<FunctionParam> = Vec::new();
    let ghost seed = callback_seed_params(arguments@);
    let n = arguments.len();
    let mut i: usize = 0;
    while i < n
        invariant
            n == arguments@.len(),
            seed == callback_seed_params(arguments@),
            0 <= i <= n,
            forall|k: int| 0 <= k < i ==> (#[trigger] arguments@[k]).value.name is Some,
            function::param_models(params@) == seed.take(i as int),
        decreases n - i,
    {
        let arg = &arguments[i];
        match &arg.value.name {
            None => {
                proof {
                    assert(arguments@[i as int].value.name is None);
                }
                return Err(i);
            },
            Some(nc) => {
                let name_span = crate::span::Span::dummy(nc.identifier.text.as_str());
                let name = name_span.trim().to_string();
                let lua_type = match crate::doc_entry::type_definition::type_info_to_string(
                    &arg.value.type_info,
                ) {
                    Some(s) => s,
                    None => arg.value.type_info.raw.clone(),
                };
                let ghost before = function::param_models(params@);
                params.push(FunctionParam { name, desc: String::new(), lua_type });
                proof {
                    assert(function::param_models(params@) =~= before.push(
                        seed[i as int],
                    ));
                    assert(function::param_models(params@) =~= seed.take(i + 1));
                }
            },
        }
        i = i + 1;
    }
    proof {
        assert(seed.take(n as int) =~= seed);
    }
    let ghost srets = rets_of(Some(*return_type));
    let mut rets: Vec<FunctionReturn> = Vec::new();
    match &return_type.kind {
        crate::syntax::TypeKind::Tuple { open_paren, types, close_paren } => {
            let ghost types_model = types@;
            let m = types.len();
            let mut j: usize = 0;
            while j < m
                invariant
                    m == types@.len(),
                    types_model == types@,
                    0 <= j <= m,
                    rets@.len() == j,
                    forall|i2: int|
                        0 <= i2 < j ==> (#[trigger] rets@[i2]).lua_type@ == types_model[
                        i2].value.raw@ && rets@[i2].desc@ == Seq::<char>::empty(),
                decreases m - j,
            {
                rets.push(
                    FunctionReturn { lua_type: types[j].value.raw.clone(), desc: String::new() },
                );
                j = j + 1;
            }
            proof {
                assert(function::ret_views(rets@) =~= srets);
            }
        },
        _ => {
            rets.push(FunctionReturn { lua_type: return_type.raw.clone(), desc: String::new() });
            proof {
                assert(function::ret_views(rets@) =~= srets);
            }
        },
    }
    Ok(FunctionSource { params, returns: rets })
}

/// Rejects an assignment's target or expression list unless it holds
/// exactly one item; the diagnostic names the extra item's place.
pub fn assert_token_sequence_is_single(
    ranges: &Vec<crate::syntax::ByteRange>,
    doc_comment: &crate::doc_comment::DocComment,
    token_kind: &str,
) -> (r: Result<(), Diagnostic>)
    ensures
        r is Ok <==> ranges@.len() == 1,
        match r {
            Ok(u) => true,
            Err(d) => d.spec_start() == doc_comment.spec_start() && d.spec_len()
                == doc_comment.spec_comment().len() && d.spec_file_id()
                == doc_comment.spec_file_id() && (if ranges@.len() > 1 {
                &&& d.spec_text() == "Assignments cannot have more than one "@ + token_kind@
                &&& d.spec_additional().len() == 1
                &&& d.spec_additional()[0].spec_text() == "Additional "@ + token_kind@ + " here"@
                &&& d.spec_additional()[0].spec_start() == ranges@.last().start
                &&& d.spec_additional()[0].spec_file_id() == doc_comment.spec_file_id()
            } else {
                &&& d.spec_text() == "Assignments must have one "@ + token_kind@
                &&& d.spec_additional().len() == 0
            }),
        },
{
    if ranges.len() > 1 {
        let last = ranges[ranges.len() - 1];
        let mut msg = String::from_str("Assignments cannot have more than one ");
        msg.append(token_kind);
        let mut d = doc_comment.diagnostic(msg.as_str());
        let mut extra_msg = String::from_str("Additional ");
        extra_msg.append(token_kind);
        extra_msg.append(" here");
        let extra_len: usize = if last.end >= last.start {
            last.end - last.start
        } else {
            0
        };
        let extra = Diagnostic::at_range(
            extra_msg.as_str(),
            last.start,
            extra_len,
            doc_comment.file_id(),
        );
        d.attach_diagnostic(extra);
        return Err(d);
    }
    if ranges.len() == 0 {
        let mut msg = String::from_str("Assignments must have one ");
        msg.append(token_kind);
        return Err(doc_comment.diagnostic(msg.as_str()));
    }
    Ok(())
}

/// Classifies a single-target assignment by the shape of its right-hand
/// expression, exactly as `spec_assign_kind` says.
fn determine_kind_assignment(
    name: String,
    within: String,
    expression: &crate::syntax::ExprShape,
    doc_comment: &crate::doc_comment::DocComment,
) -> (r: Result<DocEntryKind, Diagnostic>)
    ensures
        match r {
            Ok(kind) => spec_assign_kind(name@, within@, *expression) == Some(kind_model_of(kind))
                && (kind matches DocEntryKind::Function { function_source, .. }
                ==> (match function_source {
                Some(fs) => function::param_models(fs.params@) == expr_seed_params(*expression)
                    && function::ret_views(fs.returns@) == expr_seed_rets(*expression),
                None => false,
            })),
            Err(d) => spec_assign_kind(name@, within@, *expression) is None,
        },
{
    match expression {
        crate::syntax::ExprShape::Function(function_body) => {
            let fs = function::function_source_from_body(function_body);
            proof {
                assert(function::param_models(fs.params@) =~= expr_seed_params(*expression));
                assert(function::ret_views(fs.returns@) =~= expr_seed_rets(*expression));
            }
            Ok(
                DocEntryKind::Function {
                    name,
                    within,
                    function_type: FunctionType::Static,
                    function_source: Some(fs),
                },
            )
        },
        crate::syntax::ExprShape::TypeAssertion(type_node) => {
            match &type_node.kind {
                crate::syntax::TypeKind::Callback {
                    generics,
                    open_paren,
                    arguments,
                    close_paren,
                    arrow,
                    return_type,
                } => {
                    match callback_to_function_source(arguments, return_type) {
                        Ok(fs) => Ok(
                            DocEntryKind::Function {
                                name,
                                within,
                                function_type: FunctionType::Static,
                                function_source: Some(fs),
                            },
                        ),
                        Err(index) => {
                            let nargs = arguments.len();
                            proof {
                                assert(index < nargs);
                            }
                            let mut msg = String::from_str(
                                "Type assertion must contain names for all parameters; type #",
                            );
                            append_number(&mut msg, index + 1);
                            msg.append(" is missing a name.");
                            Err(doc_comment.diagnostic(msg.as_str()))
                        },
                    }
                },
                _ => Ok(
                    DocEntryKind::Property {
                        name,
                        within,
                        lua_type: Some(type_node.raw.clone()),
                    },
                ),
            }
        },
        crate::syntax::ExprShape::InterpolatedString => Ok(
            DocEntryKind::Property { name, within, lua_type: Some(String::from_str("string")) },
        ),
        crate::syntax::ExprShape::TableConstructor(table) => Ok(
            DocEntryKind::Property { name, within, lua_type: Some(table.clone()) },
        ),
        crate::syntax::ExprShape::Number => Ok(
            DocEntryKind::Property { name, within, lua_type: Some(String::from_str("number")) },
        ),
        crate::syntax::ExprShape::Str => Ok(
            DocEntryKind::Property { name, within, lua_type: Some(String::from_str("string")) },
        ),
        crate::syntax::ExprShape::Symbol(symbol) => match symbol {
            crate::syntax::SymbolShape::True => Ok(
                DocEntryKind::Property {
                    name,
                    within,
                    lua_type: Some(String::from_str("boolean")),
                },
            ),
            crate::syntax::SymbolShape::False => Ok(
                DocEntryKind::Property {
                    name,
                    within,
                    lua_type: Some(String::from_str("boolean")),
                },
            ),
            crate::syntax::SymbolShape::Nil => Ok(
                DocEntryKind::Property { name, within, lua_type: Some(String::from_str("nil")) },
            ),
            _ => Err(
                doc_comment.diagnostic(
                    "Expression must be a function, a string, a table, a number, `true`, `false`, `nil`, or a type assertion.",
                ),
            ),
        },
        crate::syntax::ExprShape::Unsupported => Err(
            doc_comment.diagnostic(
                "Expression must be a function, a string, a table, a number, `true`, `false`, `nil`, or a type assertion.",
            ),
        ),
    }
}

/// Appends a decimal number to a message.
fn append_number(msg: &mut String, n: usize) {
    let mut digits: Vec<char> = Vec::new();
    let mut rest: usize = n;
    if rest == 0 {
        msg.push('0');
        return ;
    }
    while rest > 0
        invariant
            digits@.len() <= 20,
        decreases rest,
    {
        let d: usize = rest % 10;
        let c: char = if d == 0 {
            '0'
        } else if d == 1 {
            '1'
        } else if d == 2 {
            '2'
        } else if d == 3 {
            '3'
        } else if d == 4 {
            '4'
        } else if d == 5 {
            '5'
        } else if d == 6 {
            '6'
        } else if d == 7 {
            '7'
        } else if d == 8 {
            '8'
        } else {
            '9'
        };
        if digits.len() < 20 {
            digits.push(c);
        }
        rest = rest / 10;
    }
    let mut i: usize = digits.len();
    while i > 0
        invariant
            i <= digits@.len(),
        decreases i,
    {
        i = i - 1;
        msg.push(digits[i]);
    }
}

/// Classifies a doc comment, exactly as `spec_kind` says: an explicit kind
/// tag wins; otherwise the decorated statement's shape decides.
pub fn determine_kind(
    doc_comment: &crate::doc_comment::DocComment,
    stmt: Option<&crate::syntax::StmtShape>,
    tags: &Vec<Tag>,
) -> (r: Result<DocEntryKind, Diagnostic>)
    ensures
        match r {
            Ok(kind) => spec_kind(
                tags@,
                (match stmt {
                    Some(s) => Some(*s),
                    None => None,
                }),
            ) == Some(kind_model_of(kind)) && (kind matches DocEntryKind::Function {
                function_source,
                ..
            } ==> (match function_source {
                Some(fs) => function::param_models(fs.params@) == stmt_seed_params(
                    (match stmt {
                        Some(s) => Some(*s),
                        None => None,
                    }),
                ) && function::ret_views(fs.returns@) == stmt_seed_rets(
                    (match stmt {
                        Some(s) => Some(*s),
                        None => None,
                    }),
                ),
                None => true,
            })),
            Err(d) => spec_kind(
                tags@,
                (match stmt {
                    Some(s) => Some(*s),
                    None => None,
                }),
            ) is None,
        },
{
    let explicit = match get_explicit_kind(tags) {
        Ok(k) => k,
        Err(d) => {
            return Err(d);
        },
    };
    match explicit {
        Some(kind) => {
            return Ok(kind);
        },
        None => {},
    }

    let within_tag: Option<String> = first_within(tags);

    match stmt {
        Some(crate::syntax::StmtShape::LocalFunction { name, body }) => {
            let within = match within_tag {
                Some(w) => w,
                None => {
                    return Err(doc_comment.diagnostic("Function requires @within tag"));
                },
            };
            let fs = function::function_source_from_body(body);
            proof {
                assert(function::param_models(fs.params@) =~= body_seed_params(*body));
                assert(function::ret_views(fs.returns@) =~= rets_of(body.return_type));
            }
            Ok(
                DocEntryKind::Function {
                    name: name.clone(),
                    within,
                    function_type: FunctionType::Static,
                    function_source: Some(fs),
                },
            )
        },
        Some(crate::syntax::StmtShape::FunctionDeclaration { names, method_name, body }) => {
            match method_name {
                Some(m) => {
                    let within = match within_tag {
                        Some(w) => w,
                        None => join_dot(names, names.len()),
                    };
                    proof {
                        assert(string_views(names@).take(names@.len() as int) =~= string_views(
                            names@,
                        ));
                    }
                    let fs = function::function_source_from_body(body);
                    proof {
                        assert(function::param_models(fs.params@) =~= body_seed_params(*body));
                        assert(function::ret_views(fs.returns@) =~= rets_of(body.return_type));
                    }
                    Ok(
                        DocEntryKind::Function {
                            name: m.clone(),
                            within,
                            function_type: FunctionType::Method,
                            function_source: Some(fs),
                        },
                    )
                },
                None => {
                    if names.len() == 0 {
                        return Err(
                            doc_comment.diagnostic(
                                "Explicitly specify a kind tag, like @function, @prop, or @class.",
                            ),
                        );
                    }
                    let function_name = names[names.len() - 1].clone();
                    let within = match within_tag {
                        Some(w) => w,
                        None => {
                            if names.len() >= 2 {
                                proof {
                                    assert(string_views(names@).take(names@.len() - 1)
                                        =~= string_views(names@).drop_last());
                                }
                                join_dot(names, names.len() - 1)
                            } else {
                                return Err(
                                    doc_comment.diagnostic("Function requires @within tag"),
                                );
                            }
                        },
                    };
                    proof {
                        assert(string_views(names@).last() == names@.last()@);
                    }
                    let fs = function::function_source_from_body(body);
                    proof {
                        assert(function::param_models(fs.params@) =~= body_seed_params(*body));
                        assert(function::ret_views(fs.returns@) =~= rets_of(body.return_type));
                    }
                    Ok(
                        DocEntryKind::Function {
                            name: function_name,
                            within,
                            function_type: FunctionType::Static,
                            function_source: Some(fs),
                        },
                    )
                },
            }
        },
        Some(crate::syntax::StmtShape::LocalAssignment { names, expressions }) => {
            let mut name_ranges: Vec<crate::syntax::ByteRange> = Vec::new();
            let nn = names.len();
            let mut i: usize = 0;
            while i < nn
                invariant
                    nn == names@.len(),
                    0 <= i <= nn,
                    name_ranges@.len() == i,
                decreases nn - i,
            {
                name_ranges.push(names[i].range);
                i = i + 1;
            }
            let mut expr_ranges: Vec<crate::syntax::ByteRange> = Vec::new();
            let en = expressions.len();
            let mut j: usize = 0;
            while j < en
                invariant
                    en == expressions@.len(),
                    0 <= j <= en,
                    expr_ranges@.len() == j,
                decreases en - j,
            {
                expr_ranges.push(expressions[j].range);
                j = j + 1;
            }
            match assert_token_sequence_is_single(&name_ranges, doc_comment, "variable") {
                Ok(u) => {},
                Err(d) => {
                    return Err(d);
                },
            }
            match assert_token_sequence_is_single(&expr_ranges, doc_comment, "expression") {
                Ok(u) => {},
                Err(d) => {
                    return Err(d);
                },
            }
            let within = match within_tag {
                Some(w) => w,
                None => {
                    return Err(doc_comment.diagnostic("Local assignment requires @within tag."));
                },
            };
            determine_kind_assignment(names[0].name.clone(), within, &expressions[0].expr, doc_comment)
        },
        Some(crate::syntax::StmtShape::Assignment { variables, expressions }) => {
            let mut var_ranges: Vec<crate::syntax::ByteRange> = Vec::new();
            let vn = variables.len();
            let mut i: usize = 0;
            while i < vn
                invariant
                    vn == variables@.len(),
                    0 <= i <= vn,
                    var_ranges@.len() == i,
                decreases vn - i,
            {
                var_ranges.push(variables[i].range);
                i = i + 1;
            }
            let mut expr_ranges: Vec<crate::syntax::ByteRange> = Vec::new();
            let en = expressions.len();
            let mut j: usize = 0;
            while j < en
                invariant
                    en == expressions@.len(),
                    0 <= j <= en,
                    expr_ranges@.len() == j,
                decreases en - j,
            {
                expr_ranges.push(expressions[j].range);
                j = j + 1;
            }
            match assert_token_sequence_is_single(&var_ranges, doc_comment, "variable") {
                Ok(u) => {},
                Err(d) => {
                    return Err(d);
                },
            }
            match assert_token_sequence_is_single(&expr_ranges, doc_comment, "expression") {
                Ok(u) => {},
                Err(d) => {
                    return Err(d);
                },
            }
            let mut parts = var_parts(&variables[0].var);
            if parts.len() == 0 {
                return Err(
                    doc_comment.diagnostic(
                        "Explicitly specify a kind tag, like @function, @prop, or @class.",
                    ),
                );
            }
            let name = match parts.pop() {
                Some(n) => n,
                None => String::new(),
            };
            proof {
                assert(name@ == spec_var_parts(variables@[0].var).last());
                assert(string_views(parts@) =~= spec_var_parts(variables@[0].var).drop_last());
            }
            let within = match within_tag {
                Some(w) => w,
                None => {
                    if parts.len() >= 1 {
                        proof {
                            assert(string_views(parts@).take(parts@.len() as int) =~= string_views(
                                parts@,
                            ));
                        }
                        join_dot(&parts, parts.len())
                    } else {
                        return Err(
                            doc_comment.diagnostic(
                                "Assignment requires @within tag or a qualified name.",
                            ),
                        );
                    }
                },
            };
            determine_kind_assignment(name, within, &expressions[0].expr, doc_comment)
        },
        Some(crate::syntax::StmtShape::TypeDeclaration { name, type_info }) => {
            let within = match within_tag {
                Some(w) => w,
                None => {
                    return Err(doc_comment.diagnostic("Type requires @within tag"));
                },
            };
            Ok(DocEntryKind::Type { name: name.clone(), within })
        },
        _ => Err(
            doc_comment.diagnostic(
                "Explicitly specify a kind tag, like @function, @prop, or @class.",
            ),
        ),
    }
}

/// The name of the comment's first `@within` tag, if any.
fn first_within(tags: &Vec<Tag>) -> (r: Option<String>)
    ensures
        opt_string_view(r) == spec_first_within(tags@),
{
    let n = tags.len();
    let mut i: usize = 0;
    proof {
        assert(tags@.skip(0) =~= tags@);
    }
    while i < n
        invariant
            n == tags@.len(),
            0 <= i <= n,
            spec_first_within(tags@) == spec_first_within(tags@.skip(i as int)),
        decreases n - i,
    {
        proof {
            assert(tags@.skip(i as int)[0] == tags@[i as int]);
            assert(tags@.skip(i as int).skip(1) =~= tags@.skip(i + 1));
        }
        match &tags[i] {
            Tag::Within(within_tag) => {
                return Some(within_tag.name.to_string());
            },
            _ => {},
        }
        i = i + 1;
    }
    proof {
        assert(tags@.skip(n as int) =~= Seq::<Tag>::empty());
    }
    None
}

/// The name of the first `@within` content, if any.
pub open spec fn m_first_within(ms: Seq<crate::tags::TagModel>) -> Option<Seq<char>>
    decreases ms.len(),
{
    if ms.len() == 0 {
        None
    } else {
        match ms[0] {
            crate::tags::TagModel::Within { name } => Some(name),
            _ => m_first_within(ms.skip(1)),
        }
    }
}

/// The first within tag's name is determined by the tags' contents.
pub proof fn lemma_first_within(tags: Seq<Tag>)
    ensures
        spec_first_within(tags) == m_first_within(crate::tags::models_of(tags)),
    decreases tags.len(),
{
    if tags.len() > 0 {
        lemma_first_within(tags.skip(1));
        assert(crate::tags::models_of(tags).skip(1) =~= crate::tags::models_of(tags.skip(1)));
        assert(crate::tags::models_of(tags)[0] == crate::tags::model_of(tags[0]));
    }
}

/// The classification the first explicit kind content yields, if one
/// occurs; mirrors `spec_explicit_kind` over contents.
pub open spec fn m_explicit_kind(
    ms: Seq<crate::tags::TagModel>,
    all: Seq<crate::tags::TagModel>,
) -> Option<Option<KindModel>>
    decreases ms.len(),
{
    if ms.len() == 0 {
        None
    } else {
        match ms[0] {
            crate::tags::TagModel::Class { name } => Some(Some(KindModel::Class { name })),
            crate::tags::TagModel::Function { name, function_type } => Some(
                match m_first_within(all) {
                    Some(w) => Some(
                        KindModel::Function {
                            within: w,
                            name,
                            method: function_type == FunctionType::Method,
                            has_source: false,
                        },
                    ),
                    None => None,
                },
            ),
            crate::tags::TagModel::Property { name, lua_type } => Some(
                match m_first_within(all) {
                    Some(w) => Some(KindModel::Property { within: w, name, lua_type: None }),
                    None => None,
                },
            ),
            crate::tags::TagModel::Type { name, lua_type } => Some(
                match m_first_within(all) {
                    Some(w) => Some(KindModel::Type { within: w, name }),
                    None => None,
                },
            ),
            crate::tags::TagModel::Interface { name } => Some(
                match m_first_within(all) {
                    Some(w) => Some(KindModel::Type { within: w, name }),
                    None => None,
                },
            ),
            _ => m_explicit_kind(ms.skip(1), all),
        }
    }
}

/// The explicit classification is determined by the tags' contents.
pub proof fn lemma_explicit_kind(tags: Seq<Tag>, all: Seq<Tag>)
    ensures
        spec_explicit_kind(tags, all) == m_explicit_kind(
            crate::tags::models_of(tags),
            crate::tags::models_of(all),
        ),
    decreases tags.len(),
{
    lemma_first_within(all);
    if tags.len() > 0 {
        lemma_explicit_kind(tags.skip(1), all);
        assert(crate::tags::models_of(tags).skip(1) =~= crate::tags::models_of(tags.skip(1)));
        assert(crate::tags::models_of(tags)[0] == crate::tags::model_of(tags[0]));
    }
}

/// The classification of a doc comment, over tag contents; mirrors
/// `spec_kind`.
pub open spec fn m_kind(ms: Seq<crate::tags::TagModel>, stmt: Option<crate::syntax::StmtShape>) -> Option<
    KindModel,
> {
    match m_explicit_kind(ms, ms) {
        Some(k) => k,
        None => match stmt {
            Some(crate::syntax::StmtShape::LocalFunction { name, body }) => match m_first_within(
                ms,
            ) {
                Some(w) => Some(
                    KindModel::Function { within: w, name: name@, method: false, has_source: true },
                ),
                None => None,
            },
            Some(crate::syntax::StmtShape::FunctionDeclaration { names, method_name, body }) => match
                method_name {
                Some(m) => Some(
                    KindModel::Function {
                        within: (match m_first_within(ms) {
                            Some(w) => w,
                            None => spec_join_dot(string_views(names@)),
                        }),
                        name: m@,
                        method: true,
                        has_source: true,
                    },
                ),
                None => {
                    if names@.len() == 0 {
                        None
                    } else {
                        match m_first_within(ms) {
                            Some(w) => Some(
                                KindModel::Function {
                                    within: w,
                                    name: names@.last()@,
                                    method: false,
                                    has_source: true,
                                },
                            ),
                            None => {
                                if names@.len() >= 2 {
                                    Some(
                                        KindModel::Function {
                                            within: spec_join_dot(
                                                string_views(names@).drop_last(),
                                            ),
                                            name: names@.last()@,
                                            method: false,
                                            has_source: true,
                                        },
                                    )
                                } else {
                                    None
                                }
                            },
                        }
                    }
                },
            },
            Some(crate::syntax::StmtShape::LocalAssignment { names, expressions }) => {
                if names@.len() == 1 && expressions@.len() == 1 {
                    match m_first_within(ms) {
                        Some(w) => spec_assign_kind(names@[0].name@, w, expressions@[0].expr),
                        None => None,
                    }
                } else {
                    None
                }
            },
            Some(crate::syntax::StmtShape::Assignment { variables, expressions }) => {
                if variables@.len() == 1 && expressions@.len() == 1 {
                    let parts = spec_var_parts(variables@[0].var);
                    if parts.len() == 0 {
                        None
                    } else {
                        match m_first_within(ms) {
                            Some(w) => spec_assign_kind(parts.last(), w, expressions@[0].expr),
                            None => {
                                if parts.len() >= 2 {
                                    spec_assign_kind(
                                        parts.last(),
                                        spec_join_dot(parts.drop_last()),
                                        expressions@[0].expr,
                                    )
                                } else {
                                    None
                                }
                            },
                        }
                    }
                } else {
                    None
                }
            },
            Some(crate::syntax::StmtShape::TypeDeclaration { name, type_info }) => match
                m_first_within(ms) {
                Some(w) => Some(KindModel::Type { within: w, name: name@ }),
                None => None,
            },
            _ => None,
        },
    }
}

/// The classification is determined by the tags' contents and the statement.
pub proof fn lemma_kind(tags: Seq<Tag>, stmt: Option<crate::syntax::StmtShape>)
    ensures
        spec_kind(tags, stmt) == m_kind(crate::tags::models_of(tags), stmt),
{
    lemma_first_within(tags);
    lemma_explicit_kind(tags, tags);
}

/// The tags a builder receives: the kind-determining contents dropped.
pub open spec fn m_kept(ms: Seq<crate::tags::TagModel>) -> Seq<crate::tags::TagModel>
    decreases ms.len(),
{
    if ms.len() == 0 {
        Seq::<crate::tags::TagModel>::empty()
    } else {
        m_kept(ms.drop_last()) + (match ms.last() {
            crate::tags::TagModel::Function { name, function_type } => Seq::<
                crate::tags::TagModel,
            >::empty(),
            crate::tags::TagModel::Within { name } => Seq::<crate::tags::TagModel>::empty(),
            crate::tags::TagModel::Class { name } => Seq::<crate::tags::TagModel>::empty(),
            crate::tags::TagModel::Interface { name } => Seq::<crate::tags::TagModel>::empty(),
            _ => seq![ms.last()],
        })
    }
}

/// A line of a doc comment stripped of the indentation unit, where it
/// carries one.
pub open spec fn strip_line(l: Seq<char>, ind: Seq<char>) -> Seq<char> {
    if is_prefix(ind, l) {
        l.skip(ind.len() as int)
    } else {
        l
    }
}

/// Whether a stripped line is a tag line.
pub open spec fn is_tag_line(l: Seq<char>) -> bool {
    l.len() > 0 && (l[0] == '@' || l[0] == '.')
}

/// The comment's lines with pure separator lines dropped and the
/// indentation stripped, in order.
pub open spec fn spec_sig_lines(lines: Seq<Seq<char>>, ind: Seq<char>) -> Seq<Seq<char>>
    decreases lines.len(),
{
    if lines.len() == 0 {
        Seq::<Seq<char>>::empty()
    } else {
        spec_sig_lines(lines.drop_last(), ind) + (if lines.last() == "---"@ {
            Seq::<Seq<char>>::empty()
        } else {
            seq![strip_line(lines.last(), ind)]
        })
    }
}

/// The tag lines among the stripped lines, in order.
pub open spec fn spec_tag_lines(sig: Seq<Seq<char>>) -> Seq<Seq<char>>
    decreases sig.len(),
{
    if sig.len() == 0 {
        Seq::<Seq<char>>::empty()
    } else {
        spec_tag_lines(sig.drop_last()) + (if is_tag_line(sig.last()) {
            seq![sig.last()]
        } else {
            Seq::<Seq<char>>::empty()
        })
    }
}

/// The contents of a list of tag lines, when every one parses.
pub open spec fn parse_lines(v: Seq<Seq<char>>) -> Option<Seq<crate::tags::TagModel>>
    decreases v.len(),
{
    if v.len() == 0 {
        Some(Seq::<crate::tags::TagModel>::empty())
    } else {
        match (parse_lines(v.drop_last()), crate::tags::spec_parse_tag(v.last())) {
            (Some(ms), Some(m)) => Some(ms.push(m)),
            _ => None,
        }
    }
}

/// A doc comment's tag lines.
pub open spec fn spec_comment_tag_lines(comment: Seq<char>) -> Seq<Seq<char>> {
    spec_tag_lines(spec_sig_lines(crate::text::spec_lines(comment), spec_doc_indent(comment)))
}

/// A doc comment's tag contents, when every tag line parses.
pub open spec fn spec_comment_models(comment: Seq<char>) -> Option<Seq<crate::tags::TagModel>> {
    parse_lines(spec_comment_tag_lines(comment))
}

/// The parameters a function body seeds.
pub open spec fn body_seed_params(body: crate::syntax::FunctionBodyShape) -> Seq<
    function::ParamModel,
> {
    body.parameters@.map_values(
        |p: crate::syntax::ParameterInfo|
            function::ParamModel {
                name: function::spec_param_name(p),
                lua_type: function::spec_param_type(p),
                desc: Seq::<char>::empty(),
            },
    )
}

/// The returns a declared return annotation seeds, descriptions empty.
pub open spec fn rets_of(rt: Option<crate::syntax::TypeNode>) -> Seq<(Seq<char>, Seq<char>)> {
    function::spec_return_types(rt).map_values(|t: Seq<char>| (t, Seq::<char>::empty()))
}

/// The parameters a callback type's arguments seed: the trimmed argument
/// names, typed by the argument's rendering or its raw text.
pub open spec fn callback_seed_params(args: Seq<crate::syntax::TypeArgPair>) -> Seq<
    function::ParamModel,
> {
    args.map_values(
        |a: crate::syntax::TypeArgPair|
            function::ParamModel {
                name: (match a.value.name {
                    Some(nc) => crate::text::spec_trim(nc.identifier.text@),
                    None => Seq::<char>::empty(),
                }),
                lua_type: (match type_definition::spec_type_str(a.value.type_info) {
                    Some(s) => s,
                    None => a.value.type_info.raw@,
                }),
                desc: Seq::<char>::empty(),
            },
    )
}

/// The parameters a right-hand expression seeds.
pub open spec fn expr_seed_params(e: crate::syntax::ExprShape) -> Seq<function::ParamModel> {
    match e {
        crate::syntax::ExprShape::Function(body) => body_seed_params(body),
        crate::syntax::ExprShape::TypeAssertion(t) => match t.kind {
            crate::syntax::TypeKind::Callback {
                generics,
                open_paren,
                arguments,
                close_paren,
                arrow,
                return_type,
            } => callback_seed_params(arguments@),
            _ => Seq::<function::ParamModel>::empty(),
        },
        _ => Seq::<function::ParamModel>::empty(),
    }
}

/// The returns a right-hand expression seeds.
pub open spec fn expr_seed_rets(e: crate::syntax::ExprShape) -> Seq<(Seq<char>, Seq<char>)> {
    match e {
        crate::syntax::ExprShape::Function(body) => rets_of(body.return_type),
        crate::syntax::ExprShape::TypeAssertion(t) => match t.kind {
            crate::syntax::TypeKind::Callback {
                generics,
                open_paren,
                arguments,
                close_paren,
                arrow,
                return_type,
            } => rets_of(Some(*return_type)),
            _ => Seq::<(Seq<char>, Seq<char>)>::empty(),
        },
        _ => Seq::<(Seq<char>, Seq<char>)>::empty(),
    }
}

/// The parameters the decorated statement seeds an inferred signature with.
pub open spec fn stmt_seed_params(stmt: Option<crate::syntax::StmtShape>) -> Seq<
    function::ParamModel,
> {
    match stmt {
        Some(crate::syntax::StmtShape::LocalFunction { name, body }) => body_seed_params(body),
        Some(crate::syntax::StmtShape::FunctionDeclaration { names, method_name, body }) => body_seed_params(
            body,
        ),
        Some(crate::syntax::StmtShape::LocalAssignment { names, expressions }) => {
            if expressions@.len() == 1 {
                expr_seed_params(expressions@[0].expr)
            } else {
                Seq::<function::ParamModel>::empty()
            }
        },
        Some(crate::syntax::StmtShape::Assignment { variables, expressions }) => {
            if expressions@.len() == 1 {
                expr_seed_params(expressions@[0].expr)
            } else {
                Seq::<function::ParamModel>::empty()
            }
        },
        _ => Seq::<function::ParamModel>::empty(),
    }
}

/// The returns the decorated statement seeds an inferred signature with.
pub open spec fn stmt_seed_rets(stmt: Option<crate::syntax::StmtShape>) -> Seq<
    (Seq<char>, Seq<char>),
> {
    match stmt {
        Some(crate::syntax::StmtShape::LocalFunction { name, body }) => rets_of(body.return_type),
        Some(crate::syntax::StmtShape::FunctionDeclaration { names, method_name, body }) => rets_of(
            body.return_type,
        ),
        Some(crate::syntax::StmtShape::LocalAssignment { names, expressions }) => {
            if expressions@.len() == 1 {
                expr_seed_rets(expressions@[0].expr)
            } else {
                Seq::<(Seq<char>, Seq<char>)>::empty()
            }
        },
        Some(crate::syntax::StmtShape::Assignment { variables, expressions }) => {
            if expressions@.len() == 1 {
                expr_seed_rets(expressions@[0].expr)
            } else {
                Seq::<(Seq<char>, Seq<char>)>::empty()
            }
        },
        _ => Seq::<(Seq<char>, Seq<char>)>::empty(),
    }
}

/// The type annotation the decorated statement carries, if it is a type
/// alias.
pub open spec fn stmt_type_info(stmt: Option<crate::syntax::StmtShape>) -> Option<
    crate::syntax::TypeNode,
> {
    match stmt {
        Some(crate::syntax::StmtShape::TypeDeclaration { name, type_info }) => Some(type_info),
        _ => None,
    }
}

/// The kinds of a list of tag contents.
pub open spec fn model_types(ms: Seq<crate::tags::TagModel>) -> Seq<TagType> {
    ms.map_values(|m: crate::tags::TagModel| crate::tags::model_tag_type(m))
}

/// The custom labels among tag contents, in order.
pub open spec fn m_customs(ms: Seq<crate::tags::TagModel>) -> Seq<Seq<char>>
    decreases ms.len(),
{
    if ms.len() == 0 {
        Seq::<Seq<char>>::empty()
    } else {
        m_customs(ms.drop_last()) + (match ms.last() {
            crate::tags::TagModel::Custom { name } => seq![name],
            _ => Seq::<Seq<char>>::empty(),
        })
    }
}

/// The error contents, in order.
pub open spec fn m_errors_of(ms: Seq<crate::tags::TagModel>) -> Seq<(Seq<char>, Seq<char>)>
    decreases ms.len(),
{
    if ms.len() == 0 {
        Seq::<(Seq<char>, Seq<char>)>::empty()
    } else {
        m_errors_of(ms.drop_last()) + (match ms.last() {
            crate::tags::TagModel::Error { lua_type, desc } => seq![(lua_type, desc)],
            _ => Seq::<(Seq<char>, Seq<char>)>::empty(),
        })
    }
}

/// The external contents, in order.
pub open spec fn m_externals_of(ms: Seq<crate::tags::TagModel>) -> Seq<(Seq<char>, Seq<char>)>
    decreases ms.len(),
{
    if ms.len() == 0 {
        Seq::<(Seq<char>, Seq<char>)>::empty()
    } else {
        m_externals_of(ms.drop_last()) + (match ms.last() {
            crate::tags::TagModel::External { name, url } => seq![(name, url)],
            _ => Seq::<(Seq<char>, Seq<char>)>::empty(),
        })
    }
}

/// The return contents, in order.
pub open spec fn m_return_models(ms: Seq<crate::tags::TagModel>) -> Seq<(Seq<char>, Seq<char>)>
    decreases ms.len(),
{
    if ms.len() == 0 {
        Seq::<(Seq<char>, Seq<char>)>::empty()
    } else {
        m_return_models(ms.drop_last()) + (match ms.last() {
            crate::tags::TagModel::Return { lua_type, desc } => seq![(lua_type, desc)],
            _ => Seq::<(Seq<char>, Seq<char>)>::empty(),
        })
    }
}

/// The last since content, if any.
pub open spec fn m_last_since(ms: Seq<crate::tags::TagModel>) -> Option<Seq<char>>
    decreases ms.len(),
{
    if ms.len() == 0 {
        None
    } else {
        match ms.last() {
            crate::tags::TagModel::Since { version } => Some(version),
            _ => m_last_since(ms.drop_last()),
        }
    }
}

/// The last deprecation content, if any.
pub open spec fn m_last_deprecated(ms: Seq<crate::tags::TagModel>) -> Option<
    (Option<Seq<char>>, Option<Seq<char>>),
>
    decreases ms.len(),
{
    if ms.len() == 0 {
        None
    } else {
        match ms.last() {
            crate::tags::TagModel::Deprecated { version, desc } => Some((version, desc)),
            _ => m_last_deprecated(ms.drop_last()),
        }
    }
}

/// The last index-alias content, if any.
pub open spec fn m_last_index(ms: Seq<crate::tags::TagModel>) -> Option<Seq<char>>
    decreases ms.len(),
{
    if ms.len() == 0 {
        None
    } else {
        match ms.last() {
            crate::tags::TagModel::Index { name } => Some(name),
            _ => m_last_index(ms.drop_last()),
        }
    }
}

/// The type the last typed property content carries, if any.
pub open spec fn m_last_prop_type(ms: Seq<crate::tags::TagModel>) -> Option<Seq<char>>
    decreases ms.len(),
{
    if ms.len() == 0 {
        None
    } else {
        match ms.last() {
            crate::tags::TagModel::Property { name, lua_type } => match lua_type {
                Some(t) => Some(t),
                None => m_last_prop_type(ms.drop_last()),
            },
            _ => m_last_prop_type(ms.drop_last()),
        }
    }
}

/// The type the last typed type content carries, if any.
pub open spec fn m_last_type_override(ms: Seq<crate::tags::TagModel>) -> Option<Seq<char>>
    decreases ms.len(),
{
    if ms.len() == 0 {
        None
    } else {
        match ms.last() {
            crate::tags::TagModel::Type { name, lua_type } => match lua_type {
                Some(t) => Some(t),
                None => m_last_type_override(ms.drop_last()),
            },
            _ => m_last_type_override(ms.drop_last()),
        }
    }
}

/// Every field a builder reads off its tags is determined by the tags'
/// contents.
pub proof fn lemma_tag_level_models(tags: Seq<Tag>)
    ensures
        spec_customs(tags) == m_customs(crate::tags::models_of(tags)),
        spec_errors_of(tags) == m_errors_of(crate::tags::models_of(tags)),
        type_definition::spec_externals_of(tags) == m_externals_of(crate::tags::models_of(tags)),
        function::spec_return_models(tags) == m_return_models(crate::tags::models_of(tags)),
        spec_last_since(tags) == m_last_since(crate::tags::models_of(tags)),
        spec_last_deprecated(tags) == m_last_deprecated(crate::tags::models_of(tags)),
        spec_last_index(tags) == m_last_index(crate::tags::models_of(tags)),
        property::spec_last_prop_type(tags) == m_last_prop_type(crate::tags::models_of(tags)),
        type_definition::spec_last_type_override(tags) == m_last_type_override(
            crate::tags::models_of(tags),
        ),
    decreases tags.len(),
{
    if tags.len() > 0 {
        lemma_tag_level_models(tags.drop_last());
        assert(crate::tags::models_of(tags).drop_last() =~= crate::tags::models_of(
            tags.drop_last(),
        ));
        assert(crate::tags::models_of(tags).last() == crate::tags::model_of(tags.last()));
    } else {
        assert(spec_customs(tags) =~= m_customs(crate::tags::models_of(tags)));
        assert(spec_errors_of(tags) =~= m_errors_of(crate::tags::models_of(tags)));
        assert(type_definition::spec_externals_of(tags) =~= m_externals_of(
            crate::tags::models_of(tags),
        ));
        assert(function::spec_return_models(tags) =~= m_return_models(
            crate::tags::models_of(tags),
        ));
    }
}

/// Whether a function entry accepts its tags: every parameter tag matches,
/// every merged parameter is typed, and every tag's kind is one a function
/// entry uses.
pub open spec fn m_function_ok(
    seed: Seq<function::ParamModel>,
    kept: Seq<crate::tags::TagModel>,
    has_source: bool,
) -> bool {
    match function::m_merge_params(seed, kept, has_source) {
        None => false,
        Some(m) => (forall|i: int| 0 <= i < m.len() ==> (#[trigger] m[i]).lua_type.len() > 0) && (
        forall|i: int|
            0 <= i < kept.len() ==> function::function_consumes(
                crate::tags::model_tag_type(#[trigger] kept[i]),
            )),
    }
}

/// Whether a property entry accepts its tags.
pub open spec fn m_property_ok(kept: Seq<crate::tags::TagModel>) -> bool {
    forall|i: int|
        0 <= i < kept.len() ==> property::property_consumes(
            crate::tags::model_tag_type(#[trigger] kept[i]),
        )
}

/// Whether a class entry accepts its tags.
pub open spec fn m_class_ok(kept: Seq<crate::tags::TagModel>) -> bool {
    forall|i: int|
        0 <= i < kept.len() ==> class::class_consumes(
            crate::tags::model_tag_type(#[trigger] kept[i]),
        )
}

/// Whether a type entry accepts its tags: every field tag matches, and
/// every tag's kind is one a type entry uses.
pub open spec fn m_type_ok(
    seedf: Seq<type_definition::FieldModel>,
    kept: Seq<crate::tags::TagModel>,
    shape_exists: bool,
) -> bool {
    match type_definition::m_merge_fields(seedf, kept, shape_exists) {
        None => false,
        Some(m) => forall|i: int|
            0 <= i < kept.len() ==> type_definition::type_entry_consumes(
                crate::tags::model_tag_type(#[trigger] kept[i]),
            ),
    }
}

/// The description lines among the stripped lines, in order.
pub open spec fn spec_desc_lines(sig: Seq<Seq<char>>) -> Seq<Seq<char>>
    decreases sig.len(),
{
    if sig.len() == 0 {
        Seq::<Seq<char>>::empty()
    } else {
        spec_desc_lines(sig.drop_last()) + (if is_tag_line(sig.last()) {
            Seq::<Seq<char>>::empty()
        } else {
            seq![sig.last()]
        })
    }
}

/// The leading run of empty lines dropped.
pub open spec fn drop_leading_empty(v: Seq<Seq<char>>) -> Seq<Seq<char>>
    decreases v.len(),
{
    if v.len() > 0 && v[0].len() == 0 {
        drop_leading_empty(v.skip(1))
    } else {
        v
    }
}

/// The trailing run of empty lines dropped.
pub open spec fn drop_trailing_empty(v: Seq<Seq<char>>) -> Seq<Seq<char>>
    decreases v.len(),
{
    if v.len() > 0 && v.last().len() == 0 {
        drop_trailing_empty(v.drop_last())
    } else {
        v
    }
}

/// Lines joined with newlines.
pub open spec fn join_nl(v: Seq<Seq<char>>) -> Seq<char>
    decreases v.len(),
{
    if v.len() == 0 {
        Seq::<char>::empty()
    } else if v.len() == 1 {
        v[0]
    } else {
        join_nl(v.drop_last()) + seq!['\n'] + v.last()
    }
}

/// A doc comment's description: its non-tag stripped lines, leading and
/// trailing empty lines shed, joined with newlines.
pub open spec fn spec_desc(comment: Seq<char>) -> Seq<char> {
    join_nl(
        drop_trailing_empty(
            drop_leading_empty(
                spec_desc_lines(
                    spec_sig_lines(crate::text::spec_lines(comment), spec_doc_indent(comment)),
                ),
            ),
        ),
    )
}

/// Dropping the leading empties reaches exactly the first non-empty line.
proof fn lemma_drop_leading(v: Seq<Seq<char>>, a: int)
    requires
        0 <= a <= v.len(),
        forall|k: int| 0 <= k < a ==> (#[trigger] v[k]).len() == 0,
        a < v.len() ==> v[a].len() > 0,
    ensures
        drop_leading_empty(v) == v.skip(a),
    decreases a,
{
    if a == 0 {
        assert(v.skip(0) =~= v);
    } else {
        lemma_drop_leading(v.skip(1), a - 1);
        assert(forall|k: int| 0 <= k < v.skip(1).len() ==> v.skip(1)[k] == v[k + 1]);
        assert(v.skip(1).skip(a - 1) =~= v.skip(a));
    }
}

/// Dropping the trailing empties reaches exactly the last non-empty line.
proof fn lemma_drop_trailing(v: Seq<Seq<char>>, b: int)
    requires
        0 <= b <= v.len(),
        forall|k: int| b <= k < v.len() ==> (#[trigger] v[k]).len() == 0,
        b > 0 ==> v[b - 1].len() > 0,
    ensures
        drop_trailing_empty(v) == v.take(b),
    decreases v.len(),
{
    if b == v.len() {
        assert(v.take(b) =~= v);
    } else {
        lemma_drop_trailing(v.drop_last(), b);
        assert(v.drop_last().take(b) =~= v.take(b));
    }
}

/// Whether an entry carries everything its comment and statement determine
/// beyond its kind and names: description, merged parameters and returns or
/// fields, metadata, custom labels, flags and realms.
#[verifier::opaque]
pub open spec fn entry_contents_ok(
    entry: DocEntry,
    comment: Seq<char>,
    stmt: Option<crate::syntax::StmtShape>,
) -> bool {
    match spec_comment_models(comment) {
        None => false,
        Some(ms) => {
            let kept = m_kept(ms);
            let kt = model_types(kept);
            match entry {
                DocEntry::Function(e) => {
                    &&& e.desc@ == spec_desc(comment)
                    &&& custom_names(e.tags@) == m_customs(kept)
                    &&& error_views(e.errors@) == m_errors_of(kept)
                    &&& opt_string_view(e.since) == m_last_since(kept)
                    &&& dep_view(e.deprecated) == m_last_deprecated(kept)
                    &&& e.private == crate::tags::validation::has_type(kt, TagType::Private)
                    &&& e.unreleased == crate::tags::validation::has_type(kt, TagType::Unreleased)
                    &&& e.yields == crate::tags::validation::has_type(kt, TagType::Yields)
                    &&& e.ignore == crate::tags::validation::has_type(kt, TagType::Ignore)
                    &&& (forall|x: crate::realm::Realm|
                        e.realm@.contains(x) <==> ((x == crate::realm::Realm::Client
                            && crate::tags::validation::has_type(kt, TagType::Client)) || (x
                            == crate::realm::Realm::Server && crate::tags::validation::has_type(
                            kt,
                            TagType::Server,
                        )) || (x == crate::realm::Realm::Plugin
                            && crate::tags::validation::has_type(kt, TagType::Plugin))))
                    &&& (match m_kind(ms, stmt) {
                        Some(KindModel::Function { within, name, method, has_source }) => {
                            let seed = if has_source {
                                stmt_seed_params(stmt)
                            } else {
                                Seq::<function::ParamModel>::empty()
                            };
                            &&& function::m_merge_params(seed, kept, has_source) == Some(
                                function::param_models(e.params@),
                            )
                            &&& function::ret_views(e.returns@) == (if has_source
                                && crate::tags::validation::has_type(kt, TagType::Return) {
                                m_return_models(kept)
                            } else {
                                (if has_source {
                                    stmt_seed_rets(stmt)
                                } else {
                                    Seq::<(Seq<char>, Seq<char>)>::empty()
                                }) + m_return_models(kept)
                            })
                        },
                        _ => false,
                    })
                },
                DocEntry::Property(e) => {
                    &&& e.desc@ == spec_desc(comment)
                    &&& custom_names(e.tags@) == m_customs(kept)
                    &&& opt_string_view(e.since) == m_last_since(kept)
                    &&& dep_view(e.deprecated) == m_last_deprecated(kept)
                    &&& e.private == crate::tags::validation::has_type(kt, TagType::Private)
                    &&& e.unreleased == crate::tags::validation::has_type(kt, TagType::Unreleased)
                    &&& e.readonly == crate::tags::validation::has_type(kt, TagType::ReadOnly)
                    &&& e.ignore == crate::tags::validation::has_type(kt, TagType::Ignore)
                    &&& (forall|x: crate::realm::Realm|
                        e.realm@.contains(x) <==> ((x == crate::realm::Realm::Client
                            && crate::tags::validation::has_type(kt, TagType::Client)) || (x
                            == crate::realm::Realm::Server && crate::tags::validation::has_type(
                            kt,
                            TagType::Server,
                        )) || (x == crate::realm::Realm::Plugin
                            && crate::tags::validation::has_type(kt, TagType::Plugin))))
                    &&& (match m_kind(ms, stmt) {
                        Some(KindModel::Property { within, name, lua_type }) => e.lua_type@ == (
                        match m_last_prop_type(kept) {
                            Some(t) => t,
                            None => (match lua_type {
                                Some(s) => s,
                                None => Seq::<char>::empty(),
                            }),
                        }),
                        _ => false,
                    })
                },
                DocEntry::Type(e) => {
                    &&& e.desc@ == spec_desc(comment)
                    &&& custom_names(e.tags@) == m_customs(kept)
                    &&& type_definition::external_views(e.external_types@) == m_externals_of(kept)
                    &&& opt_string_view(e.since) == m_last_since(kept)
                    &&& dep_view(e.deprecated) == m_last_deprecated(kept)
                    &&& e.private == crate::tags::validation::has_type(kt, TagType::Private)
                    &&& e.unreleased == crate::tags::validation::has_type(kt, TagType::Unreleased)
                    &&& e.ignore == crate::tags::validation::has_type(kt, TagType::Ignore)
                    &&& type_definition::m_merge_fields(
                        type_definition::spec_seed_fields(stmt_type_info(stmt)),
                        kept,
                        stmt_type_info(stmt) is Some,
                    ) == Some(type_definition::field_models(e.fields@))
                    &&& opt_string_view(e.lua_type) == (match m_last_type_override(kept) {
                        Some(t) => Some(t),
                        None => type_definition::spec_seed_type(stmt_type_info(stmt)),
                    })
                },
                DocEntry::Class(e) => {
                    &&& e.desc@ == spec_desc(comment)
                    &&& custom_names(e.tags@) == m_customs(kept)
                    &&& opt_string_view(e.since) == m_last_since(kept)
                    &&& dep_view(e.deprecated) == m_last_deprecated(kept)
                    &&& e.private == crate::tags::validation::has_type(kt, TagType::Private)
                    &&& e.unreleased == crate::tags::validation::has_type(kt, TagType::Unreleased)
                    &&& e.ignore == crate::tags::validation::has_type(kt, TagType::Ignore)
                    &&& (forall|x: crate::realm::Realm|
                        e.realm@.contains(x) <==> ((x == crate::realm::Realm::Client
                            && crate::tags::validation::has_type(kt, TagType::Client)) || (x
                            == crate::realm::Realm::Server && crate::tags::validation::has_type(
                            kt,
                            TagType::Server,
                        )) || (x == crate::realm::Realm::Plugin
                            && crate::tags::validation::has_type(kt, TagType::Plugin))))
                    &&& e.__index@ == (match m_last_index(kept) {
                        Some(n) => n,
                        None => "__index"@,
                    })
                },
            }
        },
    }
}

/// Whether a doc comment yields an entry: its shape checks out, every tag
/// line parses, the tags pass validation, the comment classifies, and the
/// matching builder accepts the leftover tags.
pub open spec fn spec_entry_ok(comment: Seq<char>, stmt: Option<crate::syntax::StmtShape>) -> bool {
    &&& spec_shape_check(comment) == ShapeCheck::Fine
    &&& match spec_comment_models(comment) {
        None => false,
        Some(ms) => {
            &&& crate::tags::validation::tags_valid(model_types(ms))
            &&& match m_kind(ms, stmt) {
                None => false,
                Some(k) => {
                    let kept = m_kept(ms);
                    match k {
                        KindModel::Class { name } => m_class_ok(kept),
                        KindModel::Property { within, name, lua_type } => m_property_ok(kept),
                        KindModel::Function { within, name, method, has_source } => m_function_ok(
                            if has_source {
                                stmt_seed_params(stmt)
                            } else {
                                Seq::<function::ParamModel>::empty()
                            },
                            kept,
                            has_source,
                        ),
                        KindModel::Type { within, name } => m_type_ok(
                            type_definition::spec_seed_fields(stmt_type_info(stmt)),
                            kept,
                            stmt_type_info(stmt) is Some,
                        ),
                    }
                },
            }
        },
    }
}

/// One complete documentation entry.
pub enum DocEntry {
    Function(FunctionDocEntry),
    Property(PropertyDocEntry),
    Class(ClassDocEntry),
    Type(TypeDocEntry),
}

/// Whether a line starts with the triple-dash opener.
pub open spec fn starts3(l: Seq<char>) -> bool {
    l.len() >= 3 && l.subrange(0, 3) == "---"@
}

/// Whether a line holds only whitespace; true of the empty line.
pub open spec fn line_blank(l: Seq<char>) -> bool {
    forall|k: int| 0 <= k < l.len() ==> crate::text::ws(l[k])
}

/// Whether `p` is a prefix of `l`.
pub open spec fn is_prefix(p: Seq<char>, l: Seq<char>) -> bool {
    l.len() >= p.len() && l.subrange(0, p.len() as int) == p
}

/// The leading whitespace run of a line.
pub open spec fn spec_leading_ws(l: Seq<char>) -> Seq<char>
    decreases l.len(),
{
    if l.len() > 0 && crate::text::ws(l[0]) {
        seq![l[0]] + spec_leading_ws(l.skip(1))
    } else {
        Seq::<char>::empty()
    }
}

/// The indentation inferred from the first non-blank line, if any.
pub open spec fn spec_infer_indent(lines: Seq<Seq<char>>) -> Seq<char>
    decreases lines.len(),
{
    if lines.len() == 0 {
        Seq::<char>::empty()
    } else if !line_blank(lines[0]) {
        spec_leading_ws(lines[0])
    } else {
        spec_infer_indent(lines.skip(1))
    }
}

/// The indentation unit of a doc comment: the first four characters of a
/// triple-dash opener line with text, else the leading whitespace of the
/// first non-blank later line.
pub open spec fn spec_doc_indent(comment: Seq<char>) -> Seq<char> {
    let lines = crate::text::spec_lines(comment);
    if lines.len() == 0 {
        Seq::<char>::empty()
    } else if starts3(lines[0]) {
        lines[0].take(4)
    } else {
        spec_infer_indent(lines.skip(1))
    }
}

/// How a doc comment's physical shape checks out.
pub enum ShapeCheck {
    TripleDashEmpty,
    OpenerNoNewline,
    Mixed,
    Fine,
}

/// Whether one line respects the comment's indentation.
pub open spec fn line_ok(l: Seq<char>, indent: Seq<char>) -> bool {
    l.len() == 0 || is_prefix(indent, l) || l == "---"@ || line_blank(l)
}

/// The shape check of a doc comment: a triple-dash opener must carry text,
/// a block comment must start on a fresh line, and every line must share
/// one indentation.
pub open spec fn spec_shape_check(comment: Seq<char>) -> ShapeCheck {
    let lines = crate::text::spec_lines(comment);
    if lines.len() > 0 && starts3(lines[0]) && lines[0].len() == 3 {
        ShapeCheck::TripleDashEmpty
    } else if lines.len() > 0 && !starts3(lines[0]) && !line_blank(lines[0]) {
        ShapeCheck::OpenerNoNewline
    } else {
        if forall|i: int|
            0 <= i < lines.len() ==> line_ok(#[trigger] lines[i], spec_doc_indent(comment)) {
            ShapeCheck::Fine
        } else {
            ShapeCheck::Mixed
        }
    }
}

/// The leading whitespace run reaches exactly to the first non-whitespace
/// character.
proof fn lemma_leading_ws(l: Seq<char>, j: int)
    requires
        0 <= j <= l.len(),
        forall|k: int| 0 <= k < j ==> crate::text::ws(l[k]),
        j < l.len() ==> !crate::text::ws(l[j]),
        j == l.len() ==> j == 0,
    ensures
        spec_leading_ws(l) == l.take(j),
    decreases j,
{
    if j == 0 {
        assert(l.take(0) =~= Seq::<char>::empty());
    } else {
        lemma_leading_ws(l.skip(1), j - 1);
        assert(forall|k: int| 0 <= k < l.skip(1).len() ==> l.skip(1)[k] == l[k + 1]);
        assert(seq![l[0]] + l.skip(1).take(j - 1) =~= l.take(j));
    }
}

/// Whether a stripped line opens like a tag.
fn line_is_tag(s: &crate::span::Span) -> (r: bool)
    ensures
        r == is_tag_line(s@),
{
    let n = s.len();
    if n == 0 {
        return false;
    }
    let c = s.char_at(0);
    c == '@' || c == '.'
}

/// Whether a diagnostic spans a whole doc comment, with nothing attached.
pub open spec fn diag_on_comment(d: Diagnostic, c: crate::doc_comment::DocComment) -> bool {
    d.spec_start() == c.spec_start() && d.spec_len() == c.spec_comment().len() && d.spec_file_id()
        == c.spec_file_id() && d.spec_additional().len() == 0
}

/// Whether an entry carries the names its classification assigned.
pub open spec fn entry_matches_kind(entry: DocEntry, k: KindModel) -> bool {
    match entry {
        DocEntry::Function(e) => (match k {
            KindModel::Function { within, name, method, has_source } => e.name@ == name
                && e.within@ == within && ((e.function_type == FunctionType::Method) == method),
            _ => false,
        }),
        DocEntry::Property(e) => (match k {
            KindModel::Property { within, name, lua_type } => e.name@ == name && e.within@
                == within,
            _ => false,
        }),
        DocEntry::Type(e) => (match k {
            KindModel::Type { within, name } => e.name@ == name && e.within@ == within,
            _ => false,
        }),
        DocEntry::Class(e) => (match k {
            KindModel::Class { name } => e.name@ == name,
            _ => false,
        }),
    }
}

impl DocEntry {
    /// Parses one doc comment into an entry: splits it into description and
    /// tag lines under one indentation, parses and validates the tags,
    /// classifies the comment, and hands the leftovers to the matching
    /// builder.  An entry comes out exactly when the comment passes every
    /// stage, as `spec_entry_ok` says, and it carries the classification's
    /// kind and names.
    #[verifier::rlimit(100)]
    #[verifier::loop_isolation(false)]
    pub fn parse(doc_comment: &crate::doc_comment::DocComment) -> (r: Result<
        DocEntry,
        crate::diagnostic::Diagnostics,
    >)
        ensures
            r is Ok <==> spec_entry_ok(doc_comment.spec_comment(), doc_comment.spec_stmt()),
            match r {
                Ok(entry) => (match spec_comment_models(doc_comment.spec_comment()) {
                    Some(ms) => (match m_kind(ms, doc_comment.spec_stmt()) {
                        Some(k) => entry_matches_kind(entry, k),
                        None => false,
                    }),
                    None => false,
                }) && entry_contents_ok(
                    entry,
                    doc_comment.spec_comment(),
                    doc_comment.spec_stmt(),
                ),
                Err(ds) => ds.spec_errors().len() > 0 && (match spec_shape_check(
                    doc_comment.spec_comment(),
                ) {
                    ShapeCheck::TripleDashEmpty => ds.spec_errors().len() == 1
                        && ds.spec_errors()[0].spec_text()
                        == "The first line of a doc comment must have text after the triple dash"@
                        && diag_on_comment(ds.spec_errors()[0], *doc_comment),
                    ShapeCheck::OpenerNoNewline => ds.spec_errors().len() == 1
                        && ds.spec_errors()[0].spec_text() == "There must be a new line after --[=["@
                        && diag_on_comment(ds.spec_errors()[0], *doc_comment),
                    ShapeCheck::Mixed => ds.spec_errors().len() == 1 && ds.spec_errors()[
                    0].spec_text()
                        == "This doc comment has mixed indentation. All lines within the doc comment must start with the same indentation. Try using your editor's \"Convert Indentation to Tabs\" code action."@
                        && diag_on_comment(ds.spec_errors()[0], *doc_comment),
                    ShapeCheck::Fine => true,
                }),
            },
    {
        let ghost c = doc_comment.spec_comment();
        let ghost gstmt = doc_comment.spec_stmt();
        proof {
            use_type_invariant(doc_comment);
            doc_comment.wf_facts();
            reveal_strlit("---");
        }
        let span = crate::span::Span::root(
            doc_comment.comment(),
            doc_comment.file_id(),
            doc_comment.start(),
        );
        let lines = span.lines();
        let ghost slines = crate::text::spec_lines(c);
        proof {
            assert(crate::span::span_texts(lines@).len() == lines@.len());
            assert(lines@.len() == slines.len());
            assert(forall|k: int| 0 <= k < lines@.len() ==> (#[trigger] lines@[k])@ == slines[k]);
        }

        let mut indentation: Option<String> = None;
        if lines.len() > 0 {
            let first = &lines[0];
            if first.starts_with("---") {
                proof {
                    assert(first@.subrange(0, 3) =~= first@.subrange(0, "---"@.len() as int));
                    assert(starts3(slines[0]));
                }
                if first.len() == 3 {
                    proof {
                        assert(spec_shape_check(c) == ShapeCheck::TripleDashEmpty);
                    }
                    let d = span.diagnostic(
                        "The first line of a doc comment must have text after the triple dash",
                    );
                    let mut ds: Vec<crate::diagnostic::Diagnostic> = Vec::new();
                    ds.push(d);
                    return Err(crate::diagnostic::Diagnostics::from(ds));
                }
                let piece4 = first.slice(0, 4).to_string();
                proof {
                    assert(piece4@ =~= slines[0].take(4));
                }
                indentation = Some(piece4);
            } else {
                proof {
                    assert(!starts3(first@)) by {
                        if starts3(first@) {
                            assert(first@.subrange(0, "---"@.len() as int) =~= first@.subrange(
                                0,
                                3,
                            ));
                        }
                    }
                    assert(!starts3(slines[0]));
                }
                match first.first_non_ws() {
                    Some(k) => {
                        proof {
                            assert(!line_blank(slines[0]));
                            assert(spec_shape_check(c) == ShapeCheck::OpenerNoNewline);
                        }
                        let d = span.diagnostic("There must be a new line after --[=[");
                        let mut ds: Vec<crate::diagnostic::Diagnostic> = Vec::new();
                        ds.push(d);
                        return Err(crate::diagnostic::Diagnostics::from(ds));
                    },
                    None => {},
                }
            }
        }

        proof {
            match &indentation {
                Some(s2) => {
                    assert(s2@ == slines[0].take(4));
                },
                None => {},
            }
        }
        let ln = lines.len();
        let indent: String = match indentation {
            Some(s) => s,
            None => {
                let mut inferred: Option<String> = None;
                let mut i: usize = 1;
                proof {
                    if slines.len() > 0 {
                        assert(slines.skip(1).skip(0) =~= slines.skip(1));
                    }
                }
                while i < ln && inferred.is_none()
                    invariant
                        ln == slines.len(),
                        1 <= i <= ln || (ln == 0 && i == 1),
                        ln == 0 ==> inferred is None,
                        (match inferred {
                            Some(s) => s@ == spec_infer_indent(slines.skip(1)),
                            None => ln == 0 || spec_infer_indent(slines.skip(1))
                                == spec_infer_indent(slines.skip(i as int)),
                        }),
                    decreases ln - i,
                {
                    proof {
                        assert(slines.skip(i as int)[0] == slines[i as int]);
                        assert(slines.skip(i as int).skip(1) =~= slines.skip(i + 1));
                        assert(lines@[i as int]@ == slines[i as int]);
                    }
                    match lines[i].first_non_ws() {
                        Some(j) => {
                            let piece = lines[i].slice(0, j).to_string();
                            proof {
                                lemma_leading_ws(slines[i as int], j as int);
                                assert(piece@ =~= slines[i as int].take(j as int));
                            }
                            inferred = Some(piece);
                            i = i + 1;
                        },
                        None => {
                            i = i + 1;
                        },
                    }
                }
                proof {
                    if ln > 0 && inferred is None {
                        assert(slines.skip(ln as int) =~= Seq::<Seq<char>>::empty());
                        assert(spec_infer_indent(slines.skip(1)) == Seq::<char>::empty());
                    }
                }
                match inferred {
                    Some(s) => s,
                    None => String::new(),
                }
            },
        };
        proof {
            let cc = doc_comment.spec_comment();
            if slines.len() == 0 {
                assert(indent@ == spec_doc_indent(cc));
            } else if starts3(slines[0]) {
                assert(spec_doc_indent(cc) == slines[0].take(4));
                assert(indentation is Some);
                assert(indent@ == slines[0].take(4));
                assert(indent@ == spec_doc_indent(cc));
            } else {
                assert(indent@ == spec_doc_indent(cc));
            }
        }

        let mut i: usize = 0;
        while i < ln
            invariant
                ln == slines.len(),
                0 <= i <= ln,
                indent@ == spec_doc_indent(c),
                forall|k: int| 0 <= k < i ==> line_ok(#[trigger] slines[k], indent@),
            decreases ln - i,
        {
            proof {
                assert(lines@[i as int]@ == slines[i as int]);
            }
            let line = &lines[i];
            let ok = line.is_empty() || line.starts_with(indent.as_str()) || line.eq_str("---")
                || line.is_blank();
            if !ok {
                proof {
                    assert(!line_ok(slines[i as int], indent@));
                    assert(spec_shape_check(c) == ShapeCheck::Mixed);
                }
                let d = span.diagnostic(
                    "This doc comment has mixed indentation. All lines within the doc comment must start with the same indentation. Try using your editor's \"Convert Indentation to Tabs\" code action.",
                );
                let mut ds: Vec<crate::diagnostic::Diagnostic> = Vec::new();
                ds.push(d);
                return Err(crate::diagnostic::Diagnostics::from(ds));
            }
            i = i + 1;
        }
        proof {
            assert(spec_shape_check(c) == ShapeCheck::Fine);
        }

        let mut tag_lines: Vec<crate::span::Span> = Vec::new();
        let mut desc_lines: Vec<crate::span::Span> = Vec::new();
        let mut i2: usize = 0;
        proof {
            assert(spec_sig_lines(slines.take(0), indent@) =~= Seq::<Seq<char>>::empty());
            assert(crate::span::span_texts(tag_lines@) =~= spec_tag_lines(
                spec_sig_lines(slines.take(0), indent@),
            ));
            assert(crate::span::span_texts(desc_lines@) =~= spec_desc_lines(
                spec_sig_lines(slines.take(0), indent@),
            ));
        }
        while i2 < ln
            invariant
                ln == slines.len(),
                0 <= i2 <= ln,
                indent@ == spec_doc_indent(c),
                crate::span::span_texts(tag_lines@) == spec_tag_lines(
                    spec_sig_lines(slines.take(i2 as int), indent@),
                ),
                crate::span::span_texts(desc_lines@) == spec_desc_lines(
                    spec_sig_lines(slines.take(i2 as int), indent@),
                ),
            decreases ln - i2,
        {
            let ghost sig = spec_sig_lines(slines.take(i2 as int), indent@);
            proof {
                assert(lines@[i2 as int]@ == slines[i2 as int]);
                assert(slines.take(i2 + 1).drop_last() =~= slines.take(i2 as int));
                assert(slines.take(i2 + 1).last() == slines[i2 as int]);
            }
            let line = &lines[i2];
            if !line.eq_str("---") {
                let stripped = match line.strip_prefix(indent.as_str()) {
                    Some(s) => s,
                    None => line.duplicate(),
                };
                proof {
                    assert(stripped@ == strip_line(slines[i2 as int], indent@));
                }
                let is_tag = line_is_tag(&stripped);
                proof {
                    assert(spec_sig_lines(slines.take(i2 + 1), indent@) =~= sig.push(
                        strip_line(slines[i2 as int], indent@),
                    ));
                    assert(sig.push(strip_line(slines[i2 as int], indent@)).drop_last() =~= sig);
                }
                let ghost old_tl = crate::span::span_texts(tag_lines@);
                let ghost old_dl = crate::span::span_texts(desc_lines@);
                if is_tag {
                    tag_lines.push(stripped);
                    proof {
                        assert(crate::span::span_texts(tag_lines@) =~= old_tl.push(
                            strip_line(slines[i2 as int], indent@),
                        ));
                        assert(crate::span::span_texts(tag_lines@) =~= spec_tag_lines(
                            spec_sig_lines(slines.take(i2 + 1), indent@),
                        ));
                        assert(crate::span::span_texts(desc_lines@) =~= spec_desc_lines(
                            spec_sig_lines(slines.take(i2 + 1), indent@),
                        ));
                    }
                } else {
                    desc_lines.push(stripped);
                    proof {
                        assert(crate::span::span_texts(desc_lines@) =~= old_dl.push(
                            strip_line(slines[i2 as int], indent@),
                        ));
                        assert(crate::span::span_texts(tag_lines@) =~= spec_tag_lines(
                            spec_sig_lines(slines.take(i2 + 1), indent@),
                        ));
                        assert(crate::span::span_texts(desc_lines@) =~= spec_desc_lines(
                            spec_sig_lines(slines.take(i2 + 1), indent@),
                        ));
                    }
                }
            } else {
                proof {
                    assert(spec_sig_lines(slines.take(i2 + 1), indent@) =~= sig);
                    assert(crate::span::span_texts(tag_lines@) =~= spec_tag_lines(
                        spec_sig_lines(slines.take(i2 + 1), indent@),
                    ));
                    assert(crate::span::span_texts(desc_lines@) =~= spec_desc_lines(
                        spec_sig_lines(slines.take(i2 + 1), indent@),
                    ));
                }
            }
            i2 = i2 + 1;
        }
        proof {
            assert(slines.take(ln as int) =~= slines);
            assert(crate::span::span_texts(tag_lines@) == spec_comment_tag_lines(c));
        }

        let ghost dls = crate::span::span_texts(desc_lines@);
        proof {
            assert(slines.take(ln as int) =~= slines);
            assert(dls == spec_desc_lines(spec_sig_lines(slines, indent@)));
        }
        let mut start_idx: usize = 0;
        let dn = desc_lines.len();
        while start_idx < dn && desc_lines[start_idx].is_empty()
            invariant
                dn == desc_lines@.len(),
                dls == crate::span::span_texts(desc_lines@),
                0 <= start_idx <= dn,
                forall|k: int| 0 <= k < start_idx ==> (#[trigger] dls[k]).len() == 0,
            decreases dn - start_idx,
        {
            proof {
                assert(dls[start_idx as int] == desc_lines@[start_idx as int]@);
            }
            start_idx = start_idx + 1;
        }
        proof {
            lemma_drop_leading(dls, start_idx as int);
        }
        let ghost kept_dls = dls.skip(start_idx as int);
        let mut end_idx: usize = dn;
        while end_idx > start_idx && desc_lines[end_idx - 1].is_empty()
            invariant
                dn == desc_lines@.len(),
                dls == crate::span::span_texts(desc_lines@),
                start_idx <= end_idx <= dn,
                forall|k: int| end_idx <= k < dn ==> (#[trigger] dls[k]).len() == 0,
            decreases end_idx,
        {
            proof {
                assert(dls[end_idx - 1] == desc_lines@[end_idx - 1]@);
            }
            end_idx = end_idx - 1;
        }
        proof {
            assert(forall|k: int|
                end_idx - start_idx <= k < kept_dls.len() ==> (#[trigger] kept_dls[k]).len() == 0);
            if end_idx > start_idx {
                assert(dls[end_idx - 1] == desc_lines@[end_idx - 1]@);
                assert(kept_dls[end_idx - start_idx - 1].len() > 0);
            }
            lemma_drop_trailing(kept_dls, end_idx - start_idx);
        }
        let ghost final_dls = kept_dls.take(end_idx - start_idx);
        let mut desc = String::new();
        let mut k: usize = start_idx;
        proof {
            assert(final_dls.take(0) =~= Seq::<Seq<char>>::empty());
            assert(join_nl(final_dls.take(0)) == Seq::<char>::empty());
        }
        while k < end_idx
            invariant
                end_idx <= dn == desc_lines@.len(),
                dls == crate::span::span_texts(desc_lines@),
                final_dls == dls.skip(start_idx as int).take(end_idx - start_idx),
                start_idx <= k <= end_idx || (k == start_idx && start_idx >= end_idx),
                desc@ == join_nl(final_dls.take(k - start_idx)),
            decreases end_idx - k,
        {
            proof {
                assert(final_dls.take(k - start_idx + 1).drop_last() =~= final_dls.take(
                    k - start_idx,
                ));
                assert(final_dls.take(k - start_idx + 1).last() == final_dls[k - start_idx]);
                assert(final_dls[k - start_idx] == dls[k as int]);
                assert(dls[k as int] == desc_lines@[k as int]@);
                reveal_strlit("\n");
            }
            if k > start_idx {
                desc.append("\n");
            }
            desc.append(desc_lines[k].as_str());
            proof {
                assert(desc@ =~= join_nl(final_dls.take(k - start_idx + 1)));
            }
            k = k + 1;
        }
        proof {
            assert(final_dls.take(end_idx - start_idx) =~= final_dls);
            if start_idx >= end_idx {
                assert(final_dls =~= Seq::<Seq<char>>::empty());
            }
            assert(desc@ == spec_desc(c));
        }

        let ghost tl = crate::span::span_texts(tag_lines@);
        let mut tags: Vec<Tag> = Vec::new();
        let mut errors: Vec<crate::diagnostic::Diagnostic> = Vec::new();
        let tn = tag_lines.len();
        let mut t: usize = 0;
        proof {
            assert(tl.take(0) =~= Seq::<Seq<char>>::empty());
            assert(parse_lines(tl.take(0)) == Some(Seq::<crate::tags::TagModel>::empty()));
            assert(crate::tags::models_of(tags@) =~= Seq::<crate::tags::TagModel>::empty());
        }
        while t < tn
            invariant
                tn == tag_lines@.len(),
                tl == crate::span::span_texts(tag_lines@),
                0 <= t <= tn,
                (match parse_lines(tl.take(t as int)) {
                    Some(ms) => errors@.len() == 0 && crate::tags::models_of(tags@) == ms,
                    None => errors@.len() > 0,
                }),
            decreases tn - t,
        {
            proof {
                assert(tl.take(t + 1).drop_last() =~= tl.take(t as int));
                assert(tl.take(t + 1).last() == tl[t as int]);
                assert(tag_lines@[t as int]@ == tl[t as int]);
            }
            let ghost old_ms = crate::tags::models_of(tags@);
            match Tag::try_from(tag_lines[t].duplicate()) {
                Ok(tag) => {
                    tags.push(tag);
                    proof {
                        assert(crate::tags::models_of(tags@) =~= old_ms.push(
                            crate::tags::model_of(tag),
                        ));
                    }
                },
                Err(e) => {
                    errors.push(e);
                },
            }
            t = t + 1;
        }
        proof {
            assert(tl.take(tn as int) =~= tl);
        }

        let mut validation_errors = crate::tags::validate_tags(&tags);
        let ghost pre_errors = errors@.len() as int;
        let ghost vtotal = validation_errors@.len() as int;
        let ghost mut moved: int = 0;
        while validation_errors.len() > 0
            invariant
                0 <= moved <= vtotal,
                validation_errors@.len() == vtotal - moved,
                errors@.len() == pre_errors + moved,
            decreases validation_errors@.len(),
        {
            let d = validation_errors.remove(0);
            errors.push(d);
            proof {
                moved = moved + 1;
            }
        }
        proof {
            assert(errors@.len() == pre_errors + vtotal);
        }
        if errors.len() > 0 {
            proof {
                assert(!spec_entry_ok(c, gstmt)) by {
                    match parse_lines(spec_comment_tag_lines(c)) {
                        None => {},
                        Some(ms) => {
                            assert(ms == crate::tags::models_of(tags@));
                            crate::tags::lemma_model_types(tags@);
                            assert(!crate::tags::validation::tags_valid(model_types(ms)));
                        },
                    }
                }
            }
            return Err(crate::diagnostic::Diagnostics::from(errors));
        }
        let ghost ms = crate::tags::models_of(tags@);
        proof {
            assert(spec_comment_models(c) == Some(ms));
            crate::tags::lemma_model_types(tags@);
            assert(crate::tags::validation::tags_valid(model_types(ms)));
        }

        let stmt_ref: Option<&crate::syntax::StmtShape> = match doc_comment.stmt() {
            Some(s) => Some(s),
            None => None,
        };
        proof {
            assert((match stmt_ref {
                Some(s) => Some(*s),
                None => None,
            }) == gstmt);
            lemma_kind(tags@, gstmt);
        }
        let kind = match determine_kind(doc_comment, stmt_ref, &tags) {
            Ok(k) => k,
            Err(d) => {
                proof {
                    assert(m_kind(ms, gstmt) is None);
                }
                let mut ds: Vec<crate::diagnostic::Diagnostic> = Vec::new();
                ds.push(d);
                return Err(crate::diagnostic::Diagnostics::from(ds));
            },
        };
        proof {
            assert(m_kind(ms, gstmt) == Some(kind_model_of(kind)));
        }

        let mut kept: Vec<Tag> = Vec::new();
        let ghost mut q: int = 0;
        proof {
            assert(ms.take(0) =~= Seq::<crate::tags::TagModel>::empty());
            assert(m_kept(ms.take(0)) =~= Seq::<crate::tags::TagModel>::empty());
            assert(crate::tags::models_of(kept@) =~= m_kept(ms.take(0)));
            assert(crate::tags::models_of(tags@) =~= ms.skip(0));
        }
        while tags.len() > 0
            invariant
                0 <= q <= ms.len(),
                crate::tags::models_of(tags@) =~= ms.skip(q),
                crate::tags::models_of(kept@) == m_kept(ms.take(q)),
            decreases tags@.len(),
        {
            proof {
                assert(ms.take(q + 1).drop_last() =~= ms.take(q));
                assert(ms.take(q + 1).last() == ms[q]);
                assert(crate::tags::models_of(tags@)[0] == ms[q]);
            }
            let ghost old_tags = tags@;
            let tag = tags.remove(0);
            proof {
                assert(crate::tags::model_of(tag) == ms[q]);
                assert(tags@ =~= old_tags.skip(1));
                assert(forall|k2: int|
                    0 <= k2 < tags@.len() ==> crate::tags::models_of(tags@)[k2]
                        == crate::tags::models_of(old_tags)[k2 + 1]);
                assert(crate::tags::models_of(tags@) =~= ms.skip(q + 1));
            }
            let ghost old_kept = crate::tags::models_of(kept@);
            match tag {
                Tag::Function(x) => {},
                Tag::Within(x) => {},
                Tag::Class(x) => {},
                Tag::Interface(x) => {},
                other => {
                    kept.push(other);
                    proof {
                        assert(crate::tags::models_of(kept@) =~= old_kept.push(
                            crate::tags::model_of(other),
                        ));
                    }
                },
            }
            proof {
                assert(crate::tags::models_of(kept@) =~= m_kept(ms.take(q + 1)));
                q = q + 1;
            }
        }
        proof {
            assert(ms.take(q) =~= ms);
            assert(crate::tags::models_of(kept@) == m_kept(ms));
        }

        let output_source = doc_comment.output_source().clone();
        let source = doc_comment.comment_ref();

        match kind {
            DocEntryKind::Function { within, name, function_type, function_source } => finish_function(
                name,
                within,
                function_type,
                function_source,
                kept,
                desc,
                output_source,
                source,
                Ghost(c),
                Ghost(gstmt),
                Ghost(ms),
            ),
            DocEntryKind::Property { within, name, lua_type } => finish_property(
                name,
                within,
                lua_type,
                kept,
                desc,
                output_source,
                source,
                Ghost(c),
                Ghost(gstmt),
                Ghost(ms),
            ),
            DocEntryKind::Type { within, name } => {
                let type_node: Option<&crate::syntax::TypeNode> = match doc_comment.stmt() {
                    Some(crate::syntax::StmtShape::TypeDeclaration { name: tname, type_info }) => Some(
                        type_info,
                    ),
                    _ => None,
                };
                proof {
                    assert(type_definition::opt_node_deref(type_node) == stmt_type_info(gstmt));
                }
                finish_type(
                    name,
                    within,
                    type_node,
                    kept,
                    desc,
                    output_source,
                    source,
                    Ghost(c),
                    Ghost(gstmt),
                    Ghost(ms),
                )
            },
            DocEntryKind::Class { name } => finish_class(
                name,
                kept,
                desc,
                output_source,
                source,
                Ghost(c),
                Ghost(gstmt),
                Ghost(ms),
            ),
        }
    }
}

/// Builds the function entry for a classified comment and settles its
/// acceptance.
#[verifier::rlimit(100)]
fn finish_function(
    name: String,
    within: String,
    function_type: FunctionType,
    function_source: Option<FunctionSource>,
    kept: Vec<Tag>,
    desc: String,
    output_source: crate::doc_comment::OutputSource,
    source: CommentRef,
    Ghost(c): Ghost<Seq<char>>,
    Ghost(gstmt): Ghost<Option<crate::syntax::StmtShape>>,
    Ghost(ms): Ghost<Seq<crate::tags::TagModel>>,
) -> (r: Result<DocEntry, crate::diagnostic::Diagnostics>)
    requires
        spec_comment_models(c) == Some(ms),
        m_kind(ms, gstmt) == Some(
            KindModel::Function {
                within: within@,
                name: name@,
                method: function_type == FunctionType::Method,
                has_source: function_source is Some,
            },
        ),
        crate::tags::models_of(kept@) == m_kept(ms),
        desc@ == spec_desc(c),
        match function_source {
            Some(fs) => function::param_models(fs.params@) == stmt_seed_params(gstmt)
                && function::ret_views(fs.returns@) == stmt_seed_rets(gstmt),
            None => true,
        },
    ensures
        r is Ok <==> m_function_ok(
            if function_source is Some {
                stmt_seed_params(gstmt)
            } else {
                Seq::<function::ParamModel>::empty()
            },
            m_kept(ms),
            function_source is Some,
        ),
        match r {
            Ok(entry) => (match m_kind(ms, gstmt) {
                Some(k) => entry_matches_kind(entry, k),
                None => false,
            }) && entry_contents_ok(entry, c, gstmt),
            Err(ds) => ds.spec_errors().len() > 0,
        },
{
    let ghost has_source = function_source is Some;
    let ghost seed = function::seed_params(function_source);
    let ghost seedr = function::seed_rets(function_source);
    proof {
        assert(seed == (if has_source {
            stmt_seed_params(gstmt)
        } else {
            Seq::<function::ParamModel>::empty()
        }));
        assert(seedr == (if has_source {
            stmt_seed_rets(gstmt)
        } else {
            Seq::<(Seq<char>, Seq<char>)>::empty()
        }));
    }
    match FunctionDocEntry::parse(
        DocEntryParseArguments {
            within: Some(within),
            name,
            desc,
            tags: kept,
            output_source,
            source,
        },
        function_type,
        function_source,
    ) {
        Ok(e) => {
            proof {
                function::lemma_merge_models(seed, kept@, has_source);
                assert forall|i: int|
                    0 <= i < m_kept(ms).len() implies function::function_consumes(
                    crate::tags::model_tag_type(#[trigger] m_kept(ms)[i]),
                ) by {
                    crate::tags::lemma_model_tag_type(kept@[i]);
                }
                assert(m_function_ok(seed, m_kept(ms), has_source));
                lemma_tag_level_models(kept@);
                crate::tags::lemma_model_types(kept@);
                assert(types_of(kept@) =~= model_types(m_kept(ms)));
                reveal(entry_contents_ok);
                assert(entry_contents_ok(DocEntry::Function(e), c, gstmt));
            }
            Ok(DocEntry::Function(e))
        },
        Err(ds) => {
            proof {
                function::lemma_merge_models(seed, kept@, has_source);
                assert(!m_function_ok(seed, m_kept(ms), has_source)) by {
                    match function::m_merge_params(seed, m_kept(ms), has_source) {
                        None => {},
                        Some(m) => {
                            if function::untyped_params(m).len() > 0 {
                                function::lemma_untyped_exists(m);
                            } else {
                                let w = choose|i: int|
                                    0 <= i < kept@.len() && !function::function_consumes(
                                        crate::tags::spec_tag_type(#[trigger] kept@[i]),
                                    );
                                crate::tags::lemma_model_tag_type(kept@[w]);
                                assert(!function::function_consumes(
                                    crate::tags::model_tag_type(m_kept(ms)[w]),
                                ));
                            }
                        },
                    }
                }
            }
            Err(ds)
        },
    }
}

/// Builds the property entry for a classified comment and settles its
/// acceptance.
#[verifier::rlimit(100)]
fn finish_property(
    name: String,
    within: String,
    lua_type: Option<String>,
    kept: Vec<Tag>,
    desc: String,
    output_source: crate::doc_comment::OutputSource,
    source: CommentRef,
    Ghost(c): Ghost<Seq<char>>,
    Ghost(gstmt): Ghost<Option<crate::syntax::StmtShape>>,
    Ghost(ms): Ghost<Seq<crate::tags::TagModel>>,
) -> (r: Result<DocEntry, crate::diagnostic::Diagnostics>)
    requires
        spec_comment_models(c) == Some(ms),
        m_kind(ms, gstmt) == Some(
            KindModel::Property { within: within@, name: name@, lua_type: opt_string_view(lua_type) },
        ),
        crate::tags::models_of(kept@) == m_kept(ms),
        desc@ == spec_desc(c),
    ensures
        r is Ok <==> m_property_ok(m_kept(ms)),
        match r {
            Ok(entry) => (match m_kind(ms, gstmt) {
                Some(k) => entry_matches_kind(entry, k),
                None => false,
            }) && entry_contents_ok(entry, c, gstmt),
            Err(ds) => ds.spec_errors().len() > 0,
        },
{
    match PropertyDocEntry::parse(
        DocEntryParseArguments {
            within: Some(within),
            name,
            desc,
            tags: kept,
            output_source,
            source,
        },
        lua_type,
    ) {
        Ok(e) => {
            proof {
                assert forall|i: int|
                    0 <= i < m_kept(ms).len() implies property::property_consumes(
                    crate::tags::model_tag_type(#[trigger] m_kept(ms)[i]),
                ) by {
                    crate::tags::lemma_model_tag_type(kept@[i]);
                }
                lemma_tag_level_models(kept@);
                crate::tags::lemma_model_types(kept@);
                assert(types_of(kept@) =~= model_types(m_kept(ms)));
                reveal(entry_contents_ok);
                assert(entry_contents_ok(DocEntry::Property(e), c, gstmt));
            }
            Ok(DocEntry::Property(e))
        },
        Err(ds) => {
            proof {
                assert(!m_property_ok(m_kept(ms))) by {
                    let w = choose|i: int|
                        0 <= i < kept@.len() && !property::property_consumes(
                            crate::tags::spec_tag_type(#[trigger] kept@[i]),
                        );
                    crate::tags::lemma_model_tag_type(kept@[w]);
                    assert(!property::property_consumes(
                        crate::tags::model_tag_type(m_kept(ms)[w]),
                    ));
                }
            }
            Err(ds)
        },
    }
}

/// Builds the type entry for a classified comment and settles its
/// acceptance.
#[verifier::rlimit(100)]
fn finish_type(
    name: String,
    within: String,
    type_node: Option<&crate::syntax::TypeNode>,
    kept: Vec<Tag>,
    desc: String,
    output_source: crate::doc_comment::OutputSource,
    source: CommentRef,
    Ghost(c): Ghost<Seq<char>>,
    Ghost(gstmt): Ghost<Option<crate::syntax::StmtShape>>,
    Ghost(ms): Ghost<Seq<crate::tags::TagModel>>,
) -> (r: Result<DocEntry, crate::diagnostic::Diagnostics>)
    requires
        spec_comment_models(c) == Some(ms),
        m_kind(ms, gstmt) == Some(KindModel::Type { within: within@, name: name@ }),
        crate::tags::models_of(kept@) == m_kept(ms),
        desc@ == spec_desc(c),
        type_definition::opt_node_deref(type_node) == stmt_type_info(gstmt),
    ensures
        r is Ok <==> m_type_ok(
            type_definition::spec_seed_fields(stmt_type_info(gstmt)),
            m_kept(ms),
            stmt_type_info(gstmt) is Some,
        ),
        match r {
            Ok(entry) => (match m_kind(ms, gstmt) {
                Some(k) => entry_matches_kind(entry, k),
                None => false,
            }) && entry_contents_ok(entry, c, gstmt),
            Err(ds) => ds.spec_errors().len() > 0,
        },
{
    let ghost seedf = type_definition::spec_seed_fields(stmt_type_info(gstmt));
    let ghost shape_exists = stmt_type_info(gstmt) is Some;
    proof {
        assert((type_node is Some) == shape_exists);
    }
    match TypeDocEntry::parse(
        DocEntryParseArguments {
            within: Some(within),
            name,
            desc,
            tags: kept,
            output_source,
            source,
        },
        type_node,
    ) {
        Ok(e) => {
            proof {
                type_definition::lemma_merge_fields_models(seedf, kept@, shape_exists);
                assert forall|i: int|
                    0 <= i < m_kept(ms).len() implies type_definition::type_entry_consumes(
                    crate::tags::model_tag_type(#[trigger] m_kept(ms)[i]),
                ) by {
                    crate::tags::lemma_model_tag_type(kept@[i]);
                }
                assert(m_type_ok(seedf, m_kept(ms), shape_exists));
                lemma_tag_level_models(kept@);
                crate::tags::lemma_model_types(kept@);
                assert(types_of(kept@) =~= model_types(m_kept(ms)));
                reveal(entry_contents_ok);
                assert(entry_contents_ok(DocEntry::Type(e), c, gstmt));
            }
            Ok(DocEntry::Type(e))
        },
        Err(ds) => {
            proof {
                type_definition::lemma_merge_fields_models(seedf, kept@, shape_exists);
                assert(!m_type_ok(seedf, m_kept(ms), shape_exists)) by {
                    match type_definition::m_merge_fields(seedf, m_kept(ms), shape_exists) {
                        None => {},
                        Some(m) => {
                            let w = choose|i: int|
                                0 <= i < kept@.len() && !type_definition::type_entry_consumes(
                                    crate::tags::spec_tag_type(#[trigger] kept@[i]),
                                );
                            crate::tags::lemma_model_tag_type(kept@[w]);
                            assert(!type_definition::type_entry_consumes(
                                crate::tags::model_tag_type(m_kept(ms)[w]),
                            ));
                        },
                    }
                }
            }
            Err(ds)
        },
    }
}

/// Builds the class entry for a classified comment and settles its
/// acceptance.
#[verifier::rlimit(100)]
fn finish_class(
    name: String,
    kept: Vec<Tag>,
    desc: String,
    output_source: crate::doc_comment::OutputSource,
    source: CommentRef,
    Ghost(c): Ghost<Seq<char>>,
    Ghost(gstmt): Ghost<Option<crate::syntax::StmtShape>>,
    Ghost(ms): Ghost<Seq<crate::tags::TagModel>>,
) -> (r: Result<DocEntry, crate::diagnostic::Diagnostics>)
    requires
        spec_comment_models(c) == Some(ms),
        m_kind(ms, gstmt) == Some(KindModel::Class { name: name@ }),
        crate::tags::models_of(kept@) == m_kept(ms),
        desc@ == spec_desc(c),
    ensures
        r is Ok <==> m_class_ok(m_kept(ms)),
        match r {
            Ok(entry) => (match m_kind(ms, gstmt) {
                Some(k) => entry_matches_kind(entry, k),
                None => false,
            }) && entry_contents_ok(entry, c, gstmt),
            Err(ds) => ds.spec_errors().len() > 0,
        },
{
    match ClassDocEntry::parse(
        DocEntryParseArguments { within: None, name, desc, tags: kept, output_source, source },
    ) {
        Ok(e) => {
            proof {
                assert forall|i: int|
                    0 <= i < m_kept(ms).len() implies class::class_consumes(
                    crate::tags::model_tag_type(#[trigger] m_kept(ms)[i]),
                ) by {
                    crate::tags::lemma_model_tag_type(kept@[i]);
                }
                lemma_tag_level_models(kept@);
                crate::tags::lemma_model_types(kept@);
                assert(types_of(kept@) =~= model_types(m_kept(ms)));
                reveal(entry_contents_ok);
                assert(entry_contents_ok(DocEntry::Class(e), c, gstmt));
            }
            Ok(DocEntry::Class(e))
        },
        Err(ds) => {
            proof {
                assert(!m_class_ok(m_kept(ms))) by {
                    class::lemma_unused_class_exists(kept@);
                    let w = choose|i: int|
                        0 <= i < kept@.len() && !class::class_consumes(
                            crate::tags::spec_tag_type(#[trigger] kept@[i]),
                        );
                    crate::tags::lemma_model_tag_type(kept@[w]);
                    assert(!class::class_consumes(crate::tags::model_tag_type(m_kept(ms)[w])));
                }
            }
            Err(ds)
        },
    }
}

/// The labels of stored custom tags.
pub open spec fn custom_names(v: Seq<CustomTag>) -> Seq<Seq<char>> {
    v.map_values(|c: CustomTag| c.name@)
}

/// The type and description of stored error tags.
pub open spec fn error_views(v: Seq<ErrorTag>) -> Seq<(Seq<char>, Seq<char>)> {
    v.map_values(|e: ErrorTag| (e.lua_type@, e.desc@))
}

} // verus!
