//! The function documentation entry and the signature inferred from a
//! decorated function's own syntax.

use vstd::prelude::*;

use crate::diagnostic::Diagnostics;
use crate::doc_entry::DocEntryParseArguments;
use crate::doc_entry::SharedAcc;
use crate::syntax::FunctionBodyShape;
use crate::syntax::ParameterInfo;
use crate::syntax::ParameterShape;
use crate::syntax::TypeKind;
use crate::syntax::TypeNode;
use crate::tags::validation::has_type;
use crate::tags::validation::types_of;
use crate::tags::Tag;

verus! {

/// Separates functions (called with a dot) from methods (called with a
/// colon).
#[derive(PartialEq, Eq, Structural, Clone, Copy)]
pub enum FunctionType {
    Method,
    Static,
}

/// One parameter of a documented function.
pub struct FunctionParam {
    pub name: String,
    pub desc: String,
    pub lua_type: String,
}

/// One return value of a documented function.
pub struct FunctionReturn {
    pub desc: String,
    pub lua_type: String,
}

/// The signature inferred from the decorated function's own parameter list
/// and return type.
pub struct FunctionSource {
    pub params: Vec<FunctionParam>,
    pub returns: Vec<FunctionReturn>,
}

/// The name an inferred parameter gets: its identifier, or `...` for a
/// variadic parameter.
pub open spec fn spec_param_name(p: ParameterInfo) -> Seq<char> {
    match p.parameter {
        ParameterShape::Name(s) => s@,
        ParameterShape::Ellipsis => seq!['.', '.', '.'],
        ParameterShape::Unsupported => Seq::<char>::empty(),
    }
}

/// The type an inferred parameter gets: its annotation's source text, or
/// nothing.
pub open spec fn spec_param_type(p: ParameterInfo) -> Seq<char> {
    match p.type_specifier {
        Some(t) => t.raw@,
        None => Seq::<char>::empty(),
    }
}

/// The return types a declared return annotation yields: the members of a
/// tuple type, else the single annotation itself.
pub open spec fn spec_return_types(rt: Option<TypeNode>) -> Seq<Seq<char>> {
    match rt {
        None => Seq::<Seq<char>>::empty(),
        Some(t) => match t.kind {
            TypeKind::Tuple { open_paren, types, close_paren } => types@.map_values(
                |p: crate::syntax::TypePair| p.value.raw@,
            ),
            _ => seq![t.raw@],
        },
    }
}

impl From<FunctionBodyShape> for FunctionSource {
    /// Infers a signature from a function body.
    fn from(func: FunctionBodyShape) -> (r: FunctionSource)
        ensures
            r.params@.len() == func.parameters@.len(),
            forall|i: int|
                0 <= i < r.params@.len() ==> (#[trigger] r.params@[i]).name@ == spec_param_name(
                    func.parameters@[i],
                ) && r.params@[i].lua_type@ == spec_param_type(func.parameters@[i])
                    && r.params@[i].desc@ == Seq::<char>::empty(),
            r.returns@.len() == spec_return_types(func.return_type).len(),
            forall|i: int|
                0 <= i < r.returns@.len() ==> (#[trigger] r.returns@[i]).lua_type@
                    == spec_return_types(func.return_type)[i] && r.returns@[i].desc@ == Seq::<
                    char,
                >::empty(),
    {
        function_source_from_body(&func)
    }
}

/// Infers a signature from a function body: one parameter per declared
/// parameter, named by its identifier (or `...`), typed by its annotation's
/// text; one return per member of a declared tuple return type, else one
/// for the whole annotation.  Descriptions start empty.
pub fn function_source_from_body(func: &FunctionBodyShape) -> (r: FunctionSource)
    ensures
        r.params@.len() == func.parameters@.len(),
        forall|i: int|
            0 <= i < r.params@.len() ==> (#[trigger] r.params@[i]).name@ == spec_param_name(
                func.parameters@[i],
            ) && r.params@[i].lua_type@ == spec_param_type(func.parameters@[i])
                && r.params@[i].desc@ == Seq::<char>::empty(),
        r.returns@.len() == spec_return_types(func.return_type).len(),
        forall|i: int|
            0 <= i < r.returns@.len() ==> (#[trigger] r.returns@[i]).lua_type@
                == spec_return_types(func.return_type)[i] && r.returns@[i].desc@ == Seq::<
                char,
            >::empty(),
{
    {
        let parameters = &func.parameters;
        let return_type = &func.return_type;
        let ghost params_model = parameters@;
        let ghost rt = func.return_type;
        let mut params: Vec<FunctionParam> = Vec::new();
        let mut idx: usize = 0;
        let n = parameters.len();
        while idx < n
            invariant
                n == parameters@.len(),
                parameters@ == params_model,
                0 <= idx <= n,
                params@.len() == idx,
                forall|i: int|
                    0 <= i < idx ==> (#[trigger] params@[i]).name@ == spec_param_name(
                        params_model[i],
                    ) && params@[i].lua_type@ == spec_param_type(params_model[i])
                        && params@[i].desc@ == Seq::<char>::empty(),
            decreases n - idx,
        {
            let parameter = &parameters[idx];
            let name: String = match &parameter.parameter {
                ParameterShape::Ellipsis => String::from_str("..."),
                ParameterShape::Name(identifier) => identifier.clone(),
                ParameterShape::Unsupported => String::new(),
            };
            proof {
                reveal_strlit("...");
                assert(name@ == spec_param_name(params_model[idx as int]));
            }
            let lua_type: String = match &parameter.type_specifier {
                Some(type_specifier) => type_specifier.raw.clone(),
                None => String::new(),
            };
            params.push(FunctionParam { name, desc: String::new(), lua_type });
            idx = idx + 1;
        }
        let mut rets: Vec<FunctionReturn> = Vec::new();
        match return_type {
            Some(type_node) => {
                match &type_node.kind {
                    TypeKind::Tuple { open_paren, types, close_paren } => {
                        let ghost types_model = types@;
                        let mut jdx: usize = 0;
                        let m = types.len();
                        while jdx < m
                            invariant
                                m == types@.len(),
                                types@ == types_model,
                                0 <= jdx <= m,
                                rets@.len() == jdx,
                                forall|i: int|
                                    0 <= i < jdx ==> (#[trigger] rets@[i]).lua_type@
                                        == types_model[i].value.raw@ && rets@[i].desc@ == Seq::<
                                        char,
                                    >::empty(),
                            decreases m - jdx,
                        {
                            let pair = &types[jdx];
                            rets.push(
                                FunctionReturn {
                                    lua_type: pair.value.raw.clone(),
                                    desc: String::new(),
                                },
                            );
                            jdx = jdx + 1;
                        }
                        proof {
                            assert(spec_return_types(rt) =~= types_model.map_values(
                                |p: crate::syntax::TypePair| p.value.raw@,
                            ));
                        }
                    },
                    other_kind => {
                        rets.push(
                            FunctionReturn { lua_type: type_node.raw.clone(), desc: String::new() },
                        );
                    },
                }
            },
            None => {},
        }
        FunctionSource { params, returns: rets }
    }
}

impl vstd::std_specs::convert::FromSpecImpl<FunctionBodyShape> for FunctionSource {
    open spec fn obeys_from_spec() -> bool {
        false
    }

    closed spec fn from_spec(func: FunctionBodyShape) -> FunctionSource {
        vstd::pervasive::arbitrary()
    }
}

impl From<crate::tags::ParamTag> for FunctionParam {
    /// A parameter from a `@param` tag: its three texts.
    fn from(tag: crate::tags::ParamTag) -> (r: FunctionParam)
        ensures
            r.name@ == tag.name@,
            r.desc@ == tag.desc@,
            r.lua_type@ == tag.lua_type@,
    {
        FunctionParam {
            name: tag.name.to_string(),
            desc: tag.desc.to_string(),
            lua_type: tag.lua_type.to_string(),
        }
    }
}

impl vstd::std_specs::convert::FromSpecImpl<crate::tags::ParamTag> for FunctionParam {
    open spec fn obeys_from_spec() -> bool {
        false
    }

    closed spec fn from_spec(tag: crate::tags::ParamTag) -> FunctionParam {
        vstd::pervasive::arbitrary()
    }
}

impl From<crate::tags::ReturnTag> for FunctionReturn {
    /// A return from a `@return` tag: its two texts.
    fn from(tag: crate::tags::ReturnTag) -> (r: FunctionReturn)
        ensures
            r.desc@ == tag.desc@,
            r.lua_type@ == tag.lua_type@,
    {
        FunctionReturn { desc: tag.desc.to_string(), lua_type: tag.lua_type.to_string() }
    }
}

impl vstd::std_specs::convert::FromSpecImpl<crate::tags::ReturnTag> for FunctionReturn {
    open spec fn obeys_from_spec() -> bool {
        false
    }

    closed spec fn from_spec(tag: crate::tags::ReturnTag) -> FunctionReturn {
        vstd::pervasive::arbitrary()
    }
}

/// `s` with every question mark removed; `@param` names are matched against
/// declared parameter names this way.
pub open spec fn strip_q(s: Seq<char>) -> Seq<char>
    decreases s.len(),
{
    if s.len() == 0 {
        Seq::<char>::empty()
    } else {
        strip_q(s.drop_last()) + (if s.last() == '?' {
            Seq::<char>::empty()
        } else {
            seq![s.last()]
        })
    }
}

/// Whether a name is written with a trailing question mark.
pub open spec fn ends_q(s: Seq<char>) -> bool {
    s.len() > 0 && s[s.len() - 1] == '?'
}

/// A parameter as its three texts.
pub struct ParamModel {
    pub name: Seq<char>,
    pub lua_type: Seq<char>,
    pub desc: Seq<char>,
}

/// The texts of a parameter list.
pub open spec fn param_models(v: Seq<FunctionParam>) -> Seq<ParamModel> {
    v.map_values(|p: FunctionParam| ParamModel { name: p.name@, lua_type: p.lua_type@, desc: p.desc@ })
}

/// The type and description of stored returns.
pub open spec fn ret_views(v: Seq<FunctionReturn>) -> Seq<(Seq<char>, Seq<char>)> {
    v.map_values(|p: FunctionReturn| (p.lua_type@, p.desc@))
}

/// The first parameter with the given name.
pub open spec fn find_param(ps: Seq<ParamModel>, name: Seq<char>) -> Option<int>
    decreases ps.len(),
{
    if ps.len() == 0 {
        None
    } else if ps[0].name == name {
        Some(0)
    } else {
        match find_param(ps.skip(1), name) {
            None => None,
            Some(i) => Some(i + 1),
        }
    }
}

/// What one `@param` tag does to the parameter list.  With an inferred
/// signature it overlays the matching parameter: the description is
/// replaced, a non-empty tag type overrides, and a trailing `?` on the tag
/// name marks the parameter optional; a name that matches no parameter is a
/// failure.  Without an inferred signature the tag appends a parameter.
pub open spec fn apply_param_tag(ps: Seq<ParamModel>, t: crate::tags::ParamTag, source_exists: bool) -> Option<
    Seq<ParamModel>,
> {
    if source_exists {
        match find_param(ps, strip_q(t.name@)) {
            None => None,
            Some(i) => {
                if 0 <= i < ps.len() {
                    let old_p = ps[i];
                    Some(
                        ps.update(
                            i,
                            ParamModel {
                                name: if ends_q(t.name@) && !ends_q(old_p.name) {
                                    old_p.name.push('?')
                                } else {
                                    old_p.name
                                },
                                lua_type: if t.lua_type@.len() > 0 {
                                    t.lua_type@
                                } else {
                                    old_p.lua_type
                                },
                                desc: t.desc@,
                            },
                        ),
                    )
                } else {
                    None
                }
            },
        }
    } else {
        Some(ps.push(ParamModel { name: t.name@, lua_type: t.lua_type@, desc: t.desc@ }))
    }
}

/// The parameter list after every tag has been applied in order, or nothing
/// once a `@param` tag fails to match.
pub open spec fn spec_merge_params(ps: Seq<ParamModel>, tags: Seq<Tag>, source_exists: bool) -> Option<
    Seq<ParamModel>,
>
    decreases tags.len(),
{
    if tags.len() == 0 {
        Some(ps)
    } else {
        match spec_merge_params(ps, tags.drop_last(), source_exists) {
            None => None,
            Some(cur) => match tags.last() {
                Tag::Param(t) => apply_param_tag(cur, t, source_exists),
                _ => Some(cur),
            },
        }
    }
}

/// A failed merge stays failed, and a successful one continues from its
/// result.
pub proof fn lemma_merge_extend(ps: Seq<ParamModel>, a: Seq<Tag>, b: Seq<Tag>, source_exists: bool)
    ensures
        spec_merge_params(ps, a + b, source_exists) == (match spec_merge_params(
            ps,
            a,
            source_exists,
        ) {
            None => None,
            Some(m) => spec_merge_params(m, b, source_exists),
        }),
    decreases b.len(),
{
    if b.len() == 0 {
        assert(a + b =~= a);
    } else {
        lemma_merge_extend(ps, a, b.drop_last(), source_exists);
        assert((a + b).drop_last() =~= a + b.drop_last());
        assert((a + b).last() == b.last());
    }
}

/// The type and description of each `@return` tag, in order.
pub open spec fn spec_return_models(tags: Seq<Tag>) -> Seq<(Seq<char>, Seq<char>)>
    decreases tags.len(),
{
    if tags.len() == 0 {
        Seq::<(Seq<char>, Seq<char>)>::empty()
    } else {
        spec_return_models(tags.drop_last()) + (match tags.last() {
            Tag::Return(t) => seq![(t.lua_type@, t.desc@)],
            _ => Seq::<(Seq<char>, Seq<char>)>::empty(),
        })
    }
}

/// The parameters of a merged list that still lack a type, in order.
pub open spec fn untyped_params(m: Seq<ParamModel>) -> Seq<ParamModel>
    decreases m.len(),
{
    if m.len() == 0 {
        Seq::<ParamModel>::empty()
    } else {
        untyped_params(m.drop_last()) + (if m.last().lua_type.len() == 0 {
            seq![m.last()]
        } else {
            Seq::<ParamModel>::empty()
        })
    }
}

/// An untyped parameter exists exactly when the untyped list is non-empty.
pub proof fn lemma_untyped_exists(m: Seq<ParamModel>)
    ensures
        (untyped_params(m).len() > 0) <==> (exists|i: int|
            0 <= i < m.len() && (#[trigger] m[i]).lua_type.len() == 0),
    decreases m.len(),
{
    if m.len() > 0 {
        lemma_untyped_exists(m.drop_last());
        if m.last().lua_type.len() == 0 {
            assert(m[m.len() - 1].lua_type.len() == 0);
        }
        if exists|i: int| 0 <= i < m.len() && (#[trigger] m[i]).lua_type.len() == 0 {
            let w = choose|i: int| 0 <= i < m.len() && (#[trigger] m[i]).lua_type.len() == 0;
            if w < m.len() - 1 {
                assert(m.drop_last()[w].lua_type.len() == 0);
            }
        }
    }
}

/// The message a parameter tag that matches no declared parameter gets.
pub open spec fn missing_param_message(name: Seq<char>) -> Seq<char> {
    "Param \""@ + name + "\" does not actually exist in function"@
}

/// The message an untyped parameter gets.
pub open spec fn untyped_message(name: Seq<char>) -> Seq<char> {
    "Function parameter \""@ + name
        + "\" has no type. Document with @param or insert Luau type annotation"@
}

/// The tag kinds a function entry consumes.
pub open spec fn function_consumes(t: crate::tags::TagType) -> bool {
    crate::doc_entry::shared_consumes(t) || t == crate::tags::TagType::Param || t
        == crate::tags::TagType::Return || t == crate::tags::TagType::Error || t
        == crate::tags::TagType::Yields
}

/// The seed the merge starts from: the inferred signature's parameters, or
/// none.
pub open spec fn seed_params(function_source: Option<FunctionSource>) -> Seq<ParamModel> {
    match function_source {
        Some(fs) => param_models(fs.params@),
        None => Seq::<ParamModel>::empty(),
    }
}

/// The returns the entry starts from: the inferred signature's returns, or
/// none.
pub open spec fn seed_rets(function_source: Option<FunctionSource>) -> Seq<
    (Seq<char>, Seq<char>),
> {
    match function_source {
        Some(fs) => ret_views(fs.returns@),
        None => Seq::<(Seq<char>, Seq<char>)>::empty(),
    }
}

/// A documentation entry for a function or method.
pub struct FunctionDocEntry {
    pub name: String,
    pub desc: String,
    pub params: Vec<FunctionParam>,
    pub returns: Vec<FunctionReturn>,
    pub function_type: FunctionType,
    pub tags: Vec<crate::tags::CustomTag>,
    pub errors: Vec<crate::tags::ErrorTag>,
    pub realm: Vec<crate::realm::Realm>,
    pub since: Option<String>,
    pub deprecated: Option<crate::tags::DeprecatedTag>,
    pub private: bool,
    pub unreleased: bool,
    pub yields: bool,
    pub ignore: bool,
    pub output_source: crate::doc_comment::OutputSource,
    pub source: crate::doc_comment::CommentRef,
    pub within: String,
}

/// Removes every question mark from the span's text.
fn strip_question(s: &crate::span::Span) -> (r: String)
    ensures
        r@ == strip_q(s@),
{
    let mut out = String::new();
    let n: usize = s.len();
    let mut i: usize = 0;
    proof {
        assert(strip_q(s@.take(0)) =~= Seq::<char>::empty());
    }
    while i < n
        invariant
            n == s@.len(),
            0 <= i <= n,
            out@ == strip_q(s@.take(i as int)),
        decreases n - i,
    {
        let c = s.char_at(i);
        proof {
            assert(s@.take(i + 1).drop_last() =~= s@.take(i as int));
            assert(s@.take(i + 1).last() == s@[i as int]);
        }
        if c != '?' {
            out.push(c);
            proof {
                assert(out@ =~= strip_q(s@.take(i + 1)));
            }
        } else {
            proof {
                assert(out@ =~= strip_q(s@.take(i + 1)));
            }
        }
        i = i + 1;
    }
    proof {
        assert(s@.take(n as int) =~= s@);
    }
    out
}

/// Whether the span's text ends with a question mark.
fn span_ends_q(s: &crate::span::Span) -> (r: bool)
    ensures
        r == ends_q(s@),
{
    let n: usize = s.len();
    if n == 0 {
        return false;
    }
    s.char_at(n - 1) == '?'
}

/// Whether the string's text ends with a question mark.
fn string_ends_q(s: &String) -> (r: bool)
    ensures
        r == ends_q(s@),
{
    let n: usize = s.as_str().unicode_len();
    if n == 0 {
        return false;
    }
    s.as_str().get_char(n - 1) == '?'
}

impl FunctionDocEntry {
    /// Builds a function entry from the leftover tags, the calling
    /// convention and the inferred signature, if any.  `@param` tags overlay
    /// the inferred parameters or, without a signature, append parameters;
    /// the first `@return` tag replaces the inferred returns; every
    /// resulting parameter must carry a type; any tag of a kind the entry
    /// does not use is rejected.
    #[verifier::rlimit(100)]
    #[verifier::loop_isolation(false)]
    pub fn parse(
        args: DocEntryParseArguments,
        function_type: FunctionType,
        function_source: Option<FunctionSource>,
    ) -> (r: Result<FunctionDocEntry, Diagnostics>)
        requires
            args.within is Some,
        ensures
            match r {
                Ok(e) => {
                    &&& e.name@ == args.name@
                    &&& e.desc@ == args.desc@
                    &&& e.within@ == args.within.unwrap()@
                    &&& e.function_type == function_type
                    &&& e.output_source == args.output_source
                    &&& e.source == args.source
                    &&& spec_merge_params(
                        seed_params(function_source),
                        args.tags@,
                        function_source is Some,
                    ) == Some(param_models(e.params@))
                    &&& (forall|i: int|
                        0 <= i < e.params@.len() ==> (#[trigger] e.params@[i]).lua_type@.len() > 0)
                    &&& ret_views(e.returns@) == (if function_source is Some && has_type(
                        types_of(args.tags@),
                        crate::tags::TagType::Return,
                    ) {
                        spec_return_models(args.tags@)
                    } else {
                        seed_rets(function_source) + spec_return_models(args.tags@)
                    })
                    &&& crate::doc_entry::custom_names(e.tags@) == crate::doc_entry::spec_customs(
                        args.tags@,
                    )
                    &&& crate::doc_entry::error_views(e.errors@) == crate::doc_entry::spec_errors_of(
                        args.tags@,
                    )
                    &&& crate::doc_entry::dep_view(e.deprecated)
                        == crate::doc_entry::spec_last_deprecated(args.tags@)
                    &&& crate::doc_entry::opt_string_view(e.since)
                        == crate::doc_entry::spec_last_since(args.tags@)
                    &&& e.private == has_type(types_of(args.tags@), crate::tags::TagType::Private)
                    &&& e.unreleased == has_type(
                        types_of(args.tags@),
                        crate::tags::TagType::Unreleased,
                    )
                    &&& e.yields == has_type(types_of(args.tags@), crate::tags::TagType::Yields)
                    &&& e.ignore == has_type(types_of(args.tags@), crate::tags::TagType::Ignore)
                    &&& crate::realm::realm_sorted(e.realm@)
                    &&& (forall|x: crate::realm::Realm|
                        e.realm@.contains(x) <==> ((x == crate::realm::Realm::Client && has_type(
                            types_of(args.tags@),
                            crate::tags::TagType::Client,
                        )) || (x == crate::realm::Realm::Server && has_type(
                            types_of(args.tags@),
                            crate::tags::TagType::Server,
                        )) || (x == crate::realm::Realm::Plugin && has_type(
                            types_of(args.tags@),
                            crate::tags::TagType::Plugin,
                        ))))
                    &&& (forall|i: int|
                        0 <= i < args.tags@.len() ==> function_consumes(
                            crate::tags::spec_tag_type(#[trigger] args.tags@[i]),
                        ))
                },
                Err(ds) => {
                    &&& ds.spec_errors().len() > 0
                    &&& (match spec_merge_params(
                        seed_params(function_source),
                        args.tags@,
                        function_source is Some,
                    ) {
                        None => ds.spec_errors().len() == 1 && ds.spec_errors()[
                        0].spec_additional().len() == 0 && (exists|i: int|
                            0 <= i < args.tags@.len() && (match #[trigger] args.tags@[i] {
                                Tag::Param(t) => ds.spec_errors()[0].spec_text()
                                    == missing_param_message(t.name@)
                                    && crate::diagnostic::diag_points_at(
                                    &ds.spec_errors()[0],
                                    &t.name,
                                ),
                                _ => false,
                            })),
                        Some(m) => ({
                            let un = untyped_params(m);
                            if un.len() > 0 {
                                &&& ds.spec_errors().len() == un.len()
                                &&& (forall|j: int|
                                    0 <= j < un.len() ==> ((#[trigger] ds.spec_errors()[
                                    j]).spec_text() == untyped_message(un[j].name)
                                        && ds.spec_errors()[j].spec_start() == args.source.start
                                        && ds.spec_errors()[j].spec_len()
                                        == args.source.comment_len && ds.spec_errors()[
                                    j].spec_file_id() == args.source.file_id
                                        && ds.spec_errors()[j].spec_additional().len() == 0))
                            } else {
                                exists|j: int|
                                    0 <= j < args.tags@.len() && !function_consumes(
                                        crate::tags::spec_tag_type(#[trigger] args.tags@[j]),
                                    )
                            }
                        }),
                    })
                },
            },
    {
        let DocEntryParseArguments { name, tags, desc, within, output_source, source } = args;
        let within = match within {
            Some(w) => w,
            None => String::new(),
        };
        let ghost orig = tags@;
        let mut tags = tags;
        let ghost mut done = Seq::<Tag>::empty();
        let ghost seedp = seed_params(function_source);
        let source_exists = match &function_source {
            Some(fs) => true,
            None => false,
        };

        let mut params: Vec<FunctionParam> = Vec::new();
        let mut rets: Vec<FunctionReturn> = Vec::new();
        match function_source {
            Some(fs) => {
                params = fs.params;
                rets = fs.returns;
            },
            None => {},
        }
        let ghost seedr = ret_views(rets@);

        let mut acc = SharedAcc::new();
        let mut yields = false;
        let mut errors: Vec<crate::tags::ErrorTag> = Vec::new();
        let mut return_cleared = false;
        let mut unused: Vec<Tag> = Vec::new();

        proof {
            assert(done + tags@ =~= orig);
            assert(crate::doc_entry::spec_customs(done) =~= Seq::<Seq<char>>::empty());
            assert(crate::doc_entry::spec_errors_of(done) =~= Seq::<(Seq<char>, Seq<char>)>::empty());
            assert(spec_return_models(done) =~= Seq::<(Seq<char>, Seq<char>)>::empty());
            assert(crate::doc_entry::error_views(errors@) =~= Seq::<(Seq<char>, Seq<char>)>::empty());
            assert(types_of(done) =~= Seq::<crate::tags::TagType>::empty());
            assert(spec_merge_params(seedp, done, source_exists) == Some(seedp));
            assert(seedp =~= param_models(params@));
            assert(seedr + spec_return_models(done) =~= ret_views(rets@));
        }
        while tags.len() > 0
            invariant
                orig == args.tags@,
                done + tags@ =~= orig,
                seedp == seed_params(function_source),
                seedr == seed_rets(function_source),
                source_exists == (function_source is Some),
                spec_merge_params(seedp, done, source_exists) == Some(param_models(params@)),
                return_cleared == (source_exists && has_type(
                    types_of(done),
                    crate::tags::TagType::Return,
                )),
                ret_views(rets@) == (if return_cleared {
                    spec_return_models(done)
                } else {
                    seedr + spec_return_models(done)
                }),
                crate::doc_entry::custom_names(acc.tags@) == crate::doc_entry::spec_customs(done),
                crate::doc_entry::error_views(errors@) == crate::doc_entry::spec_errors_of(done),
                crate::doc_entry::dep_view(acc.deprecated) == crate::doc_entry::spec_last_deprecated(
                    done,
                ),
                crate::doc_entry::opt_string_view(acc.since) == crate::doc_entry::spec_last_since(
                    done,
                ),
                acc.private == has_type(types_of(done), crate::tags::TagType::Private),
                acc.unreleased == has_type(types_of(done), crate::tags::TagType::Unreleased),
                acc.ignore == has_type(types_of(done), crate::tags::TagType::Ignore),
                acc.client == has_type(types_of(done), crate::tags::TagType::Client),
                acc.server == has_type(types_of(done), crate::tags::TagType::Server),
                acc.plugin == has_type(types_of(done), crate::tags::TagType::Plugin),
                yields == has_type(types_of(done), crate::tags::TagType::Yields),
                (unused@.len() == 0) <==> (forall|i: int|
                    0 <= i < done.len() ==> function_consumes(
                        crate::tags::spec_tag_type(#[trigger] done[i]),
                    )),
            decreases tags@.len(),
        {
            let tag = tags.remove(0);
            let ghost done2 = done.push(tag);
            let ghost rest = tags@;
            proof {
                assert(done2.drop_last() =~= done);
                assert(done2 + tags@ =~= orig);
                crate::doc_entry::lemma_types_push(done, tag);
            }
            match tag {
                Tag::Param(param) => {
                    if source_exists {
                        let stripped = strip_question(&param.name);
                        let ghost before = param_models(params@);
                        let pn = params.len();
                        let mut j: usize = 0;
                        while j < pn && !crate::text::str_eq(
                            params[j].name.as_str(),
                            stripped.as_str(),
                        )
                            invariant
                                pn == params@.len(),
                                before == param_models(params@),
                                stripped@ == strip_q(param.name@),
                                0 <= j <= pn,
                                forall|k: int| 0 <= k < j ==> (#[trigger] before[k]).name
                                    != stripped@,
                            decreases pn - j,
                        {
                            proof {
                                assert(before[j as int].name == params@[j as int].name@);
                            }
                            j = j + 1;
                        }
                        if j < pn {
                            proof {
                                assert(before[j as int].name == params@[j as int].name@);
                                lemma_find_param_at(before, stripped@, j as int);
                            }
                            let mut updated = params.remove(j);
                            updated.desc = param.desc.to_string();
                            if param.lua_type.len() > 0 {
                                updated.lua_type = param.lua_type.to_string();
                            }
                            if span_ends_q(&param.name) && !string_ends_q(&updated.name) {
                                proof {
                                    reveal_strlit("?");
                                }
                                updated.name.append("?");
                                proof {
                                    assert(updated.name@ =~= before[j as int].name.push('?'));
                                }
                            }
                            params.insert(j, updated);
                            proof {
                                assert(param_models(params@) =~= apply_param_tag(
                                    before,
                                    param,
                                    true,
                                ).unwrap());
                            }
                        } else {
                            proof {
                                lemma_find_param_none(before, stripped@);
                                assert(apply_param_tag(before, param, true)
                                    is None);
                                assert(spec_merge_params(seedp, done2, source_exists)
                                    == None::<Seq<ParamModel>>);
                                lemma_merge_extend(seedp, done2, rest, source_exists);
                                assert(done2 + rest =~= orig);
                            }
                            let mut msg = String::from_str("Param \"");
                            msg.append(param.name.as_str());
                            msg.append("\" does not actually exist in function");
                            let d = crate::diagnostic::Diagnostic::from_span(
                                msg.as_str(),
                                &param.name,
                            );
                            let mut ds: Vec<crate::diagnostic::Diagnostic> = Vec::new();
                            ds.push(d);
                            let out = Diagnostics::from(ds);
                            proof {
                                assert(out.spec_errors().len() > 0);
                                assert(orig == args.tags@);
                                assert(seedp == seed_params(function_source));
                                assert(source_exists == (function_source is Some));
                                assert(spec_merge_params(
                                    seed_params(function_source),
                                    args.tags@,
                                    function_source is Some,
                                ) == None::<Seq<ParamModel>>);
                                assert(msg@ == missing_param_message(param.name@));
                                assert(args.tags@[done.len() as int] == Tag::Param(param));
                            }
                            return Err(out);
                        }
                    } else {
                        let ghost before = param_models(params@);
                        let ghost pmodel = ParamModel {
                            name: param.name@,
                            lua_type: param.lua_type@,
                            desc: param.desc@,
                        };
                        params.push(FunctionParam::from(param));
                        proof {
                            assert(param_models(params@) =~= before.push(pmodel));
                        }
                    }
                },
                Tag::Return(return_tag) => {
                    let ghost was_cleared = return_cleared;
                    if source_exists && !return_cleared {
                        rets = Vec::new();
                        return_cleared = true;
                    }
                    let ghost before_r = ret_views(rets@);
                    rets.push(FunctionReturn::from(return_tag));
                    proof {
                        let rv = (return_tag.lua_type@, return_tag.desc@);
                        assert(ret_views(rets@) =~= before_r.push(rv));
                        assert(spec_return_models(done2) =~= spec_return_models(done) + seq![rv]);
                        if source_exists {
                            if !was_cleared {
                                lemma_no_return_models(done);
                                assert(ret_views(rets@) =~= spec_return_models(done2));
                            } else {
                                assert(ret_views(rets@) =~= spec_return_models(done2));
                            }
                        } else {
                            assert(ret_views(rets@) =~= seedr + spec_return_models(done2));
                        }
                    }
                },
                Tag::Error(error_tag) => {
                    let ghost before_e = crate::doc_entry::error_views(errors@);
                    errors.push(error_tag);
                    proof {
                        assert(crate::doc_entry::error_views(errors@) =~= before_e.push(
                            (error_tag.lua_type@, error_tag.desc@),
                        ));
                    }
                },
                Tag::Yields(t) => {
                    yields = true;
                },
                other => {
                    match acc.apply(other) {
                        Some(left) => {
                            unused.push(left);
                        },
                        None => {},
                    }
                },
            }
            proof {
                if !(tag is Return) {
                    assert(spec_return_models(done2) =~= spec_return_models(done));
                }
                if !(tag is Error) {
                    assert(crate::doc_entry::spec_errors_of(done2) =~= crate::doc_entry::spec_errors_of(done));
                }
                done = done2;
            }
        }
        proof {
            assert(done =~= orig);
        }

        let ghost merged = param_models(params@);
        let mut type_errors: Vec<crate::diagnostic::Diagnostic> = Vec::new();
        let pn = params.len();
        let mut i: usize = 0;
        proof {
            assert(untyped_params(merged.take(0)) =~= Seq::<ParamModel>::empty());
        }
        while i < pn
            invariant
                pn == params@.len(),
                merged == param_models(params@),
                0 <= i <= pn,
                (type_errors@.len() == 0) <==> (forall|k: int|
                    0 <= k < i ==> (#[trigger] params@[k]).lua_type@.len() > 0),
                type_errors@.len() == untyped_params(merged.take(i as int)).len(),
                forall|j: int|
                    0 <= j < type_errors@.len() ==> ({
                        let un = untyped_params(merged.take(i as int));
                        &&& (#[trigger] type_errors@[j]).spec_text() == untyped_message(
                            un[j].name,
                        )
                        &&& type_errors@[j].spec_start() == source.start
                        &&& type_errors@[j].spec_len() == source.comment_len
                        &&& type_errors@[j].spec_file_id() == source.file_id
                        &&& type_errors@[j].spec_additional().len() == 0
                    }),
            decreases pn - i,
        {
            proof {
                assert(merged.take(i + 1).drop_last() =~= merged.take(i as int));
                assert(merged.take(i + 1).last() == merged[i as int]);
            }
            if params[i].lua_type.as_str().unicode_len() == 0 {
                let mut msg = String::from_str("Function parameter \"");
                msg.append(params[i].name.as_str());
                msg.append(
                    "\" has no type. Document with @param or insert Luau type annotation",
                );
                let d = source.diagnostic(msg.as_str());
                proof {
                    assert(untyped_params(merged.take(i + 1)) =~= untyped_params(
                        merged.take(i as int),
                    ).push(merged[i as int]));
                    assert(msg@ == untyped_message(merged[i as int].name));
                }
                type_errors.push(d);
            } else {
                proof {
                    assert(untyped_params(merged.take(i + 1)) =~= untyped_params(
                        merged.take(i as int),
                    ));
                }
            }
            i = i + 1;
        }
        proof {
            assert(merged.take(pn as int) =~= merged);
        }
        if type_errors.len() > 0 {
            proof {
                assert(exists|k: int|
                    0 <= k < param_models(params@).len() && (#[trigger] param_models(params@)[k])
                        .lua_type.len() == 0) by {
                    let w = choose|k: int|
                        0 <= k < params@.len() && (#[trigger] params@[k]).lua_type@.len() == 0;
                    assert(param_models(params@)[w].lua_type.len() == 0);
                }
            }
            let out = Diagnostics::from(type_errors);
            proof {
                assert(out.spec_errors().len() > 0);
                assert(spec_merge_params(seedp, orig, source_exists) == Some(
                    param_models(params@),
                ));
                let m0 = param_models(params@);
                assert(exists|i: int| 0 <= i < m0.len() && (#[trigger] m0[i]).lua_type.len() == 0);
                let w = choose|i: int| 0 <= i < m0.len() && (#[trigger] m0[i]).lua_type.len() == 0;
                assert(spec_merge_params(
                    seed_params(function_source),
                    args.tags@,
                    function_source is Some,
                ) == Some(m0));
                assert(match spec_merge_params(
                    seed_params(function_source),
                    args.tags@,
                    function_source is Some,
                ) {
                    None => true,
                    Some(m) => 0 <= w < m.len() && (#[trigger] m[w]).lua_type.len() == 0,
                });
            }
            return Err(out);
        }

        if unused.len() > 0 {
            let mut diagnostics: Vec<crate::diagnostic::Diagnostic> = Vec::new();
            let un = unused.len();
            let mut k: usize = 0;
            while k < un
                invariant
                    un == unused@.len(),
                    0 <= k <= un,
                    diagnostics@.len() == k,
                decreases un - k,
            {
                diagnostics.push(
                    unused[k].diagnostic("This tag is unused by function doc entries."),
                );
                k = k + 1;
            }
            return Err(Diagnostics::from(diagnostics));
        }

        let realm = crate::realm::build_realm(acc.client, acc.server, acc.plugin);
        Ok(
            FunctionDocEntry {
                name,
                desc,
                params,
                returns: rets,
                function_type,
                tags: acc.tags,
                errors,
                realm,
                since: acc.since,
                deprecated: acc.deprecated,
                private: acc.private,
                unreleased: acc.unreleased,
                yields,
                ignore: acc.ignore,
                output_source,
                source,
                within,
            },
        )
    }
}

/// A scan that stopped at a match found the first occurrence.
proof fn lemma_find_param_at(ps: Seq<ParamModel>, name: Seq<char>, j: int)
    requires
        0 <= j < ps.len(),
        ps[j].name == name,
        forall|k: int| 0 <= k < j ==> (#[trigger] ps[k]).name != name,
    ensures
        find_param(ps, name) == Some(j),
    decreases j,
{
    if j == 0 {
    } else {
        assert(ps[0].name != name);
        lemma_find_param_at(ps.skip(1), name, j - 1);
        assert(forall|k: int| 0 <= k < j - 1 ==> ps.skip(1)[k] == ps[k + 1]);
    }
}

/// A scan that found nothing means no occurrence.
proof fn lemma_find_param_none(ps: Seq<ParamModel>, name: Seq<char>)
    requires
        forall|k: int| 0 <= k < ps.len() ==> (#[trigger] ps[k]).name != name,
    ensures
        find_param(ps, name) == None::<int>,
    decreases ps.len(),
{
    if ps.len() > 0 {
        lemma_find_param_none(ps.skip(1), name);
        assert(forall|k: int| 0 <= k < ps.skip(1).len() ==> ps.skip(1)[k] == ps[k + 1]);
    }
}

/// Without a `@return` tag there are no return models.
proof fn lemma_no_return_models(tags: Seq<Tag>)
    requires
        !has_type(types_of(tags), crate::tags::TagType::Return),
    ensures
        spec_return_models(tags) == Seq::<(Seq<char>, Seq<char>)>::empty(),
    decreases tags.len(),
{
    if tags.len() > 0 {
        assert(types_of(tags)[tags.len() - 1] == crate::tags::spec_tag_type(tags.last()));
        assert forall|k: int|
            0 <= k < tags.drop_last().len() implies types_of(tags.drop_last())[k] == types_of(
            tags,
        )[k] by {}
        assert(!has_type(types_of(tags.drop_last()), crate::tags::TagType::Return)) by {
            if has_type(types_of(tags.drop_last()), crate::tags::TagType::Return) {
                let w = choose|w: int|
                    0 <= w < types_of(tags.drop_last()).len() && types_of(tags.drop_last())[w]
                        == crate::tags::TagType::Return;
                assert(types_of(tags)[w] == crate::tags::TagType::Return);
            }
        }
        lemma_no_return_models(tags.drop_last());
        assert(spec_return_models(tags) =~= Seq::<(Seq<char>, Seq<char>)>::empty());
    }
}

/// What one `@param` content does to the parameter list; mirrors
/// `apply_param_tag` over the tag's texts.
pub open spec fn m_apply_param(
    ps: Seq<ParamModel>,
    name: Seq<char>,
    lua_type: Seq<char>,
    desc: Seq<char>,
    source_exists: bool,
) -> Option<Seq<ParamModel>> {
    if source_exists {
        match find_param(ps, strip_q(name)) {
            None => None,
            Some(i) => {
                if 0 <= i < ps.len() {
                    let old_p = ps[i];
                    Some(
                        ps.update(
                            i,
                            ParamModel {
                                name: if ends_q(name) && !ends_q(old_p.name) {
                                    old_p.name.push('?')
                                } else {
                                    old_p.name
                                },
                                lua_type: if lua_type.len() > 0 {
                                    lua_type
                                } else {
                                    old_p.lua_type
                                },
                                desc,
                            },
                        ),
                    )
                } else {
                    None
                }
            },
        }
    } else {
        Some(ps.push(ParamModel { name, lua_type, desc }))
    }
}

/// The parameter list after every tag content applied in order; mirrors
/// `spec_merge_params`.
pub open spec fn m_merge_params(
    ps: Seq<ParamModel>,
    ms: Seq<crate::tags::TagModel>,
    source_exists: bool,
) -> Option<Seq<ParamModel>>
    decreases ms.len(),
{
    if ms.len() == 0 {
        Some(ps)
    } else {
        match m_merge_params(ps, ms.drop_last(), source_exists) {
            None => None,
            Some(cur) => match ms.last() {
                crate::tags::TagModel::Param { name, lua_type, desc } => m_apply_param(
                    cur,
                    name,
                    lua_type,
                    desc,
                    source_exists,
                ),
                _ => Some(cur),
            },
        }
    }
}

/// The merge is determined by the tags' contents.
pub proof fn lemma_merge_models(ps: Seq<ParamModel>, tags: Seq<Tag>, source_exists: bool)
    ensures
        spec_merge_params(ps, tags, source_exists) == m_merge_params(
            ps,
            crate::tags::models_of(tags),
            source_exists,
        ),
    decreases tags.len(),
{
    if tags.len() > 0 {
        lemma_merge_models(ps, tags.drop_last(), source_exists);
        assert(crate::tags::models_of(tags).drop_last() =~= crate::tags::models_of(
            tags.drop_last(),
        ));
        assert(crate::tags::models_of(tags).last() == crate::tags::model_of(tags.last()));
    }
}

} // verus!
