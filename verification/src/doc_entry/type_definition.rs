//! The type documentation entry, and the rendering of type annotations to
//! source-faithful strings with comment trivia left out.

use vstd::prelude::*;

use crate::diagnostic::Diagnostics;
use crate::doc_entry::DocEntryParseArguments;
use crate::doc_entry::SharedAcc;
use crate::syntax::{
    GenericDeclaration, GenericDeclarationParameter, GenericParameterInfo, IndexedTypeKind,
    TokenNode, Trivia, TriviaKind, TypeArg, TypeArgPair, TypeFieldKey, TypeFieldNode,
    TypeFieldPair, TypeKind, TypeNode, TypePair,
};
use crate::tags::validation::{has_type, types_of};
use crate::tags::Tag;

verus! {

/// The whitespace trivia of a token, concatenated.
pub open spec fn trivia_ws_str(ts: Seq<Trivia>) -> Seq<char>
    decreases ts.len(),
{
    if ts.len() == 0 {
        Seq::<char>::empty()
    } else {
        trivia_ws_str(ts.drop_last()) + (if ts.last().kind == TriviaKind::Whitespace {
            ts.last().text@
        } else {
            Seq::<char>::empty()
        })
    }
}

/// A token's rendering: its whitespace trivia kept, comments dropped.
pub open spec fn spec_token_str(t: TokenNode) -> Seq<char> {
    trivia_ws_str(t.leading@) + t.text@ + trivia_ws_str(t.trailing@)
}

/// An optional token's rendering.
pub open spec fn spec_opt_token_str(o: Option<TokenNode>) -> Seq<char> {
    match o {
        Some(t) => spec_token_str(t),
        None => Seq::<char>::empty(),
    }
}

/// The rendering of a type annotation, or nothing when an unsupported node
/// occurs in it.
pub open spec fn spec_type_str(t: TypeNode) -> Option<Seq<char>>
    decreases t,
{
    match t.kind {
        TypeKind::Array { open_brace, access, inner, close_brace } => match spec_type_str(*inner) {
            Some(s) => Some(
                spec_token_str(open_brace) + spec_opt_token_str(access) + s + spec_token_str(
                    close_brace,
                ),
            ),
            None => None,
        },
        TypeKind::Basic(tok) => Some(spec_token_str(tok)),
        TypeKind::Str(tok) => Some(spec_token_str(tok)),
        TypeKind::Boolean(tok) => Some(spec_token_str(tok)),
        TypeKind::Callback { generics, open_paren, arguments, close_paren, arrow, return_type } => {
            let gen_str = match generics {
                Some(g) => spec_gen_decl_str(g),
                None => Some(Seq::<char>::empty()),
            };
            match (gen_str, spec_type_arg_pairs_str(arguments@), spec_type_str(*return_type)) {
                (Some(g), Some(a), Some(r)) => Some(
                    g + spec_token_str(open_paren) + a + spec_token_str(close_paren)
                        + spec_token_str(arrow) + r,
                ),
                _ => None,
            }
        },
        TypeKind::Generic { base, open_arrow, generics, close_arrow } => match
            spec_type_pairs_str(generics@) {
            Some(g) => Some(
                spec_token_str(base) + spec_token_str(open_arrow) + g + spec_token_str(
                    close_arrow,
                ),
            ),
            None => None,
        },
        TypeKind::GenericPack { name, ellipsis } => Some(
            spec_token_str(name) + spec_token_str(ellipsis),
        ),
        TypeKind::Intersection { leading, types } => match spec_type_pairs_str(types@) {
            Some(s) => Some(spec_opt_token_str(leading) + s),
            None => None,
        },
        TypeKind::Module { module, punctuation, type_info } => match spec_indexed_str(type_info) {
            Some(s) => Some(spec_token_str(module) + spec_token_str(punctuation) + s),
            None => None,
        },
        TypeKind::Optional { base, question_mark } => match spec_type_str(*base) {
            Some(s) => Some(s + spec_token_str(question_mark)),
            None => None,
        },
        TypeKind::Table { open_brace, fields, close_brace } => match
            spec_type_field_pairs_str(fields@) {
            Some(s) => Some(spec_token_str(open_brace) + s + spec_token_str(close_brace)),
            None => None,
        },
        TypeKind::Typeof { typeof_token, open_paren, inner, close_paren } => Some(
            spec_token_str(typeof_token) + spec_token_str(open_paren) + inner@ + spec_token_str(
                close_paren,
            ),
        ),
        TypeKind::Tuple { open_paren, types, close_paren } => match spec_type_pairs_str(types@) {
            Some(s) => Some(spec_token_str(open_paren) + s + spec_token_str(close_paren)),
            None => None,
        },
        TypeKind::Union { leading, types } => match spec_type_pairs_str(types@) {
            Some(s) => Some(spec_opt_token_str(leading) + s),
            None => None,
        },
        TypeKind::Variadic { ellipsis, type_info } => match spec_type_str(*type_info) {
            Some(s) => Some(spec_token_str(ellipsis) + s),
            None => None,
        },
        TypeKind::VariadicPack { ellipsis, name } => Some(
            spec_token_str(ellipsis) + spec_token_str(name),
        ),
        TypeKind::Unsupported => None,
    }
}

/// The rendering of a module-indexed type.
pub open spec fn spec_indexed_str(k: IndexedTypeKind) -> Option<Seq<char>>
    decreases k,
{
    match k {
        IndexedTypeKind::Basic(tok) => Some(spec_token_str(tok)),
        IndexedTypeKind::Generic { base, open_arrow, generics, close_arrow } => match
            spec_type_pairs_str(generics@) {
            Some(g) => Some(
                spec_token_str(base) + spec_token_str(open_arrow) + g + spec_token_str(
                    close_arrow,
                ),
            ),
            None => None,
        },
        IndexedTypeKind::Unsupported => None,
    }
}

/// The rendering of a punctuated type list.
pub open spec fn spec_type_pairs_str(v: Seq<TypePair>) -> Option<Seq<char>>
    decreases v,
{
    if v.len() == 0 {
        Some(Seq::<char>::empty())
    } else {
        match (spec_type_pairs_str(v.drop_last()), spec_type_str(v.last().value)) {
            (Some(acc), Some(s)) => Some(acc + s + spec_opt_token_str(v.last().punctuation)),
            _ => None,
        }
    }
}

/// The rendering of one callback argument.
pub open spec fn spec_type_arg_str(a: TypeArg) -> Option<Seq<char>>
    decreases a,
{
    let name_str = match a.name {
        Some(nc) => spec_token_str(nc.identifier) + spec_token_str(nc.colon),
        None => Seq::<char>::empty(),
    };
    match spec_type_str(a.type_info) {
        Some(s) => Some(name_str + s),
        None => None,
    }
}

/// The rendering of a punctuated callback-argument list.
pub open spec fn spec_type_arg_pairs_str(v: Seq<TypeArgPair>) -> Option<Seq<char>>
    decreases v,
{
    if v.len() == 0 {
        Some(Seq::<char>::empty())
    } else {
        match (spec_type_arg_pairs_str(v.drop_last()), spec_type_arg_str(v.last().value)) {
            (Some(acc), Some(s)) => Some(acc + s + spec_opt_token_str(v.last().punctuation)),
            _ => None,
        }
    }
}

/// The rendering of a table-type field's key.
pub open spec fn spec_field_key_str(k: TypeFieldKey) -> Option<Seq<char>>
    decreases k,
{
    match k {
        TypeFieldKey::Name(tok) => Some(spec_token_str(tok)),
        TypeFieldKey::IndexSignature { open_bracket, inner, close_bracket } => match spec_type_str(
            *inner,
        ) {
            Some(s) => Some(spec_token_str(open_bracket) + s + spec_token_str(close_bracket)),
            None => None,
        },
        TypeFieldKey::Unsupported => None,
    }
}

/// The rendering of one table-type field.
pub open spec fn spec_type_field_str(f: TypeFieldNode) -> Option<Seq<char>>
    decreases f,
{
    match (spec_field_key_str(f.key), spec_type_str(f.value)) {
        (Some(k), Some(s)) => Some(
            spec_opt_token_str(f.access) + k + spec_token_str(f.colon) + s,
        ),
        _ => None,
    }
}

/// The rendering of a punctuated table-field list.
pub open spec fn spec_type_field_pairs_str(v: Seq<TypeFieldPair>) -> Option<Seq<char>>
    decreases v,
{
    if v.len() == 0 {
        Some(Seq::<char>::empty())
    } else {
        match (spec_type_field_pairs_str(v.drop_last()), spec_type_field_str(v.last().field)) {
            (Some(acc), Some(s)) => Some(acc + s + spec_opt_token_str(v.last().punctuation)),
            _ => None,
        }
    }
}

/// The rendering of one generic-declaration parameter.
pub open spec fn spec_gen_param_info_str(g: GenericParameterInfo) -> Option<Seq<char>>
    decreases g,
{
    match g {
        GenericParameterInfo::Name(tok) => Some(spec_token_str(tok)),
        GenericParameterInfo::Variadic { name, ellipsis } => Some(
            spec_token_str(name) + spec_token_str(ellipsis),
        ),
        GenericParameterInfo::Unsupported => None,
    }
}

/// The rendering of a generic-declaration parameter with its default.
pub open spec fn spec_gen_decl_param_str(p: GenericDeclarationParameter) -> Option<Seq<char>>
    decreases p,
{
    let type_str = match p.default_type {
        Some(t) => spec_type_str(t),
        None => Some(Seq::<char>::empty()),
    };
    match (spec_gen_param_info_str(p.parameter), type_str) {
        (Some(g), Some(t)) => Some(g + spec_opt_token_str(p.equals) + t),
        _ => None,
    }
}

/// The rendering of a generic-declaration parameter list; the punctuation
/// between parameters is left out.
pub open spec fn spec_gen_params_str(v: Seq<GenericDeclarationParameter>) -> Option<Seq<char>>
    decreases v,
{
    if v.len() == 0 {
        Some(Seq::<char>::empty())
    } else {
        match (spec_gen_params_str(v.drop_last()), spec_gen_decl_param_str(v.last())) {
            (Some(acc), Some(s)) => Some(acc + s),
            _ => None,
        }
    }
}

/// The rendering of a callback type's generics.
pub open spec fn spec_gen_decl_str(g: GenericDeclaration) -> Option<Seq<char>>
    decreases g,
{
    match spec_gen_params_str(g.generics@) {
        Some(s) => Some(spec_token_str(g.open_arrow) + s + spec_token_str(g.close_arrow)),
        None => None,
    }
}

/// Renders a token: whitespace trivia kept, comments dropped.
pub fn token_reference_to_string(token_reference: &TokenNode) -> (r: String)
    ensures
        r@ == spec_token_str(*token_reference),
{
    let mut out = String::new();
    let ghost lead = token_reference.leading@;
    let n = token_reference.leading.len();
    let mut i: usize = 0;
    proof {
        assert(trivia_ws_str(lead.take(0)) =~= Seq::<char>::empty());
        assert(out@ =~= trivia_ws_str(lead.take(0)));
    }
    while i < n
        invariant
            n == token_reference.leading@.len(),
            lead == token_reference.leading@,
            0 <= i <= n,
            out@ == trivia_ws_str(lead.take(i as int)),
        decreases n - i,
    {
        proof {
            assert(lead.take(i + 1).drop_last() =~= lead.take(i as int));
            assert(lead.take(i + 1).last() == lead[i as int]);
        }
        let trivia = &token_reference.leading[i];
        match trivia.kind {
            TriviaKind::Whitespace => {
                out.append(trivia.text.as_str());
            },
            _ => {},
        }
        proof {
            assert(out@ =~= trivia_ws_str(lead.take(i + 1)));
        }
        i = i + 1;
    }
    proof {
        assert(lead.take(n as int) =~= lead);
    }
    out.append(token_reference.text.as_str());
    let ghost trail = token_reference.trailing@;
    let ghost mid = out@;
    let m = token_reference.trailing.len();
    let mut j: usize = 0;
    proof {
        assert(trivia_ws_str(trail.take(0)) =~= Seq::<char>::empty());
        assert(out@ =~= mid + trivia_ws_str(trail.take(0)));
    }
    while j < m
        invariant
            m == token_reference.trailing@.len(),
            trail == token_reference.trailing@,
            mid == trivia_ws_str(lead) + token_reference.text@,
            0 <= j <= m,
            out@ == mid + trivia_ws_str(trail.take(j as int)),
        decreases m - j,
    {
        proof {
            assert(trail.take(j + 1).drop_last() =~= trail.take(j as int));
            assert(trail.take(j + 1).last() == trail[j as int]);
        }
        let trivia = &token_reference.trailing[j];
        match trivia.kind {
            TriviaKind::Whitespace => {
                out.append(trivia.text.as_str());
            },
            _ => {},
        }
        proof {
            assert(out@ =~= mid + trivia_ws_str(trail.take(j + 1)));
        }
        j = j + 1;
    }
    proof {
        assert(trail.take(m as int) =~= trail);
        assert(out@ =~= spec_token_str(*token_reference));
    }
    out
}

/// Renders an optional token, an absent one as the empty string.
pub fn optional_token_to_string(token: Option<&TokenNode>) -> (r: String)
    ensures
        r@ == (match token {
            Some(t) => spec_token_str(*t),
            None => Seq::<char>::empty(),
        }),
{
    match token {
        Some(t) => token_reference_to_string(t),
        None => String::new(),
    }
}

/// Renders a punctuated type list.
pub fn punctuated_type_info_to_string(punctuated: &Vec<TypePair>) -> (r: Option<String>)
    ensures
        match r {
            Some(s) => spec_type_pairs_str(punctuated@) == Some(s@),
            None => spec_type_pairs_str(punctuated@) is None,
        },
    decreases *punctuated,
{
    let ghost v = punctuated@;
    let mut out = String::new();
    let n = punctuated.len();
    let mut i: usize = 0;
    proof {
        assert(spec_type_pairs_str(v.take(0)) == Some(Seq::<char>::empty()));
        assert(out@ =~= Seq::<char>::empty());
    }
    while i < n
        invariant
            n == punctuated@.len(),
            v == punctuated@,
            0 <= i <= n,
            spec_type_pairs_str(v.take(i as int)) == Some(out@),
        decreases n - i,
    {
        proof {
            assert(v.take(i + 1).drop_last() =~= v.take(i as int));
            assert(v.take(i + 1).last() == v[i as int]);
        }
        let pair = &punctuated[i];
        let type_string = match type_info_to_string(&pair.value) {
            Some(s) => s,
            None => {
                proof {
                    lemma_pairs_none(v, i as int);
                }
                return None;
            },
        };
        out.append(type_string.as_str());
        out.append(optional_token_ref_to_string(&pair.punctuation).as_str());
        proof {
            assert(spec_type_pairs_str(v.take(i + 1)) == Some(out@));
        }
        i = i + 1;
    }
    proof {
        assert(v.take(n as int) =~= v);
    }
    Some(out)
}

/// A list with a failing member fails.
proof fn lemma_pairs_none(v: Seq<TypePair>, i: int)
    requires
        0 <= i < v.len(),
        spec_type_str(v[i].value) is None,
    ensures
        spec_type_pairs_str(v) is None,
    decreases v.len(),
{
    if v.len() > 0 {
        if i == v.len() - 1 {
        } else {
            lemma_pairs_none(v.drop_last(), i);
        }
    }
}

/// Renders an optional token held by reference.
fn optional_token_ref_to_string(token: &Option<TokenNode>) -> (r: String)
    ensures
        r@ == spec_opt_token_str(*token),
{
    match token {
        Some(t) => token_reference_to_string(t),
        None => String::new(),
    }
}

/// Renders a punctuated callback-argument list.
pub fn punctuated_type_argument_to_string(punctuated: &Vec<TypeArgPair>) -> (r: Option<String>)
    ensures
        match r {
            Some(s) => spec_type_arg_pairs_str(punctuated@) == Some(s@),
            None => spec_type_arg_pairs_str(punctuated@) is None,
        },
    decreases *punctuated,
{
    let ghost v = punctuated@;
    let mut out = String::new();
    let n = punctuated.len();
    let mut i: usize = 0;
    proof {
        assert(spec_type_arg_pairs_str(v.take(0)) == Some(Seq::<char>::empty()));
        assert(out@ =~= Seq::<char>::empty());
    }
    while i < n
        invariant
            n == punctuated@.len(),
            v == punctuated@,
            0 <= i <= n,
            spec_type_arg_pairs_str(v.take(i as int)) == Some(out@),
        decreases n - i,
    {
        proof {
            assert(v.take(i + 1).drop_last() =~= v.take(i as int));
            assert(v.take(i + 1).last() == v[i as int]);
        }
        let pair = &punctuated[i];
        let type_string = match type_argument_to_string(&pair.value) {
            Some(s) => s,
            None => {
                proof {
                    lemma_arg_pairs_none(v, i as int);
                }
                return None;
            },
        };
        out.append(type_string.as_str());
        out.append(optional_token_ref_to_string(&pair.punctuation).as_str());
        proof {
            assert(spec_type_arg_pairs_str(v.take(i + 1)) == Some(out@));
        }
        i = i + 1;
    }
    proof {
        assert(v.take(n as int) =~= v);
    }
    Some(out)
}

/// A list with a failing member fails.
proof fn lemma_arg_pairs_none(v: Seq<TypeArgPair>, i: int)
    requires
        0 <= i < v.len(),
        spec_type_arg_str(v[i].value) is None,
    ensures
        spec_type_arg_pairs_str(v) is None,
    decreases v.len(),
{
    if v.len() > 0 {
        if i == v.len() - 1 {
        } else {
            lemma_arg_pairs_none(v.drop_last(), i);
        }
    }
}

/// Renders a punctuated table-field list.
pub fn punctuated_type_field_to_string(punctuated: &Vec<TypeFieldPair>) -> (r: Option<String>)
    ensures
        match r {
            Some(s) => spec_type_field_pairs_str(punctuated@) == Some(s@),
            None => spec_type_field_pairs_str(punctuated@) is None,
        },
    decreases *punctuated,
{
    let ghost v = punctuated@;
    let mut out = String::new();
    let n = punctuated.len();
    let mut i: usize = 0;
    proof {
        assert(spec_type_field_pairs_str(v.take(0)) == Some(Seq::<char>::empty()));
        assert(out@ =~= Seq::<char>::empty());
    }
    while i < n
        invariant
            n == punctuated@.len(),
            v == punctuated@,
            0 <= i <= n,
            spec_type_field_pairs_str(v.take(i as int)) == Some(out@),
        decreases n - i,
    {
        proof {
            assert(v.take(i + 1).drop_last() =~= v.take(i as int));
            assert(v.take(i + 1).last() == v[i as int]);
        }
        let pair = &punctuated[i];
        let type_string = match type_field_to_string(&pair.field) {
            Some(s) => s,
            None => {
                proof {
                    lemma_field_pairs_none(v, i as int);
                }
                return None;
            },
        };
        out.append(type_string.as_str());
        out.append(optional_token_ref_to_string(&pair.punctuation).as_str());
        proof {
            assert(spec_type_field_pairs_str(v.take(i + 1)) == Some(out@));
        }
        i = i + 1;
    }
    proof {
        assert(v.take(n as int) =~= v);
    }
    Some(out)
}

/// A list with a failing member fails.
proof fn lemma_field_pairs_none(v: Seq<TypeFieldPair>, i: int)
    requires
        0 <= i < v.len(),
        spec_type_field_str(v[i].field) is None,
    ensures
        spec_type_field_pairs_str(v) is None,
    decreases v.len(),
{
    if v.len() > 0 {
        if i == v.len() - 1 {
        } else {
            lemma_field_pairs_none(v.drop_last(), i);
        }
    }
}

/// Renders one generic-declaration parameter.
pub fn gen_param_info_to_string(gen_param_info: &GenericParameterInfo) -> (r: Option<String>)
    ensures
        match r {
            Some(s) => spec_gen_param_info_str(*gen_param_info) == Some(s@),
            None => spec_gen_param_info_str(*gen_param_info) is None,
        },
{
    match gen_param_info {
        GenericParameterInfo::Name(name) => Some(token_reference_to_string(name)),
        GenericParameterInfo::Variadic { name, ellipsis } => {
            let mut s = token_reference_to_string(name);
            s.append(token_reference_to_string(ellipsis).as_str());
            Some(s)
        },
        GenericParameterInfo::Unsupported => None,
    }
}

/// Renders one generic-declaration parameter with its default.
pub fn gen_decl_param_to_string(gen_decl_param: &GenericDeclarationParameter) -> (r: Option<
    String,
>)
    ensures
        match r {
            Some(s) => spec_gen_decl_param_str(*gen_decl_param) == Some(s@),
            None => spec_gen_decl_param_str(*gen_decl_param) is None,
        },
    decreases *gen_decl_param,
{
    let type_string = match &gen_decl_param.default_type {
        Some(parameter) => match type_info_to_string(parameter) {
            Some(s) => s,
            None => {
                return None;
            },
        },
        None => String::new(),
    };
    let mut s = match gen_param_info_to_string(&gen_decl_param.parameter) {
        Some(s) => s,
        None => {
            return None;
        },
    };
    s.append(optional_token_ref_to_string(&gen_decl_param.equals).as_str());
    s.append(type_string.as_str());
    Some(s)
}

/// Renders a generic-declaration parameter list, punctuation left out.
pub fn punctuated_generics_to_string(punctuated: &Vec<GenericDeclarationParameter>) -> (r: Option<
    String,
>)
    ensures
        match r {
            Some(s) => spec_gen_params_str(punctuated@) == Some(s@),
            None => spec_gen_params_str(punctuated@) is None,
        },
    decreases *punctuated,
{
    let ghost v = punctuated@;
    let mut out = String::new();
    let n = punctuated.len();
    let mut i: usize = 0;
    proof {
        assert(spec_gen_params_str(v.take(0)) == Some(Seq::<char>::empty()));
        assert(out@ =~= Seq::<char>::empty());
    }
    while i < n
        invariant
            n == punctuated@.len(),
            v == punctuated@,
            0 <= i <= n,
            spec_gen_params_str(v.take(i as int)) == Some(out@),
        decreases n - i,
    {
        proof {
            assert(v.take(i + 1).drop_last() =~= v.take(i as int));
            assert(v.take(i + 1).last() == v[i as int]);
        }
        let generic_string = match gen_decl_param_to_string(&punctuated[i]) {
            Some(s) => s,
            None => {
                proof {
                    lemma_gen_params_none(v, i as int);
                }
                return None;
            },
        };
        out.append(generic_string.as_str());
        proof {
            assert(spec_gen_params_str(v.take(i + 1)) == Some(out@));
        }
        i = i + 1;
    }
    proof {
        assert(v.take(n as int) =~= v);
    }
    Some(out)
}

/// A list with a failing member fails.
proof fn lemma_gen_params_none(v: Seq<GenericDeclarationParameter>, i: int)
    requires
        0 <= i < v.len(),
        spec_gen_decl_param_str(v[i]) is None,
    ensures
        spec_gen_params_str(v) is None,
    decreases v.len(),
{
    if v.len() > 0 {
        if i == v.len() - 1 {
        } else {
            lemma_gen_params_none(v.drop_last(), i);
        }
    }
}

/// Renders a callback type's generics.
pub fn gen_decl_to_string(gen_decl: &GenericDeclaration) -> (r: Option<String>)
    ensures
        match r {
            Some(s) => spec_gen_decl_str(*gen_decl) == Some(s@),
            None => spec_gen_decl_str(*gen_decl) is None,
        },
    decreases *gen_decl,
{
    let inner = match punctuated_generics_to_string(&gen_decl.generics) {
        Some(s) => s,
        None => {
            return None;
        },
    };
    let mut s = token_reference_to_string(&gen_decl.open_arrow);
    s.append(inner.as_str());
    s.append(token_reference_to_string(&gen_decl.close_arrow).as_str());
    Some(s)
}

/// Renders a module-indexed type.
pub fn indexed_type_info_to_string(indexed_type_info: &IndexedTypeKind) -> (r: Option<String>)
    ensures
        match r {
            Some(s) => spec_indexed_str(*indexed_type_info) == Some(s@),
            None => spec_indexed_str(*indexed_type_info) is None,
        },
    decreases *indexed_type_info,
{
    match indexed_type_info {
        IndexedTypeKind::Basic(basic) => Some(token_reference_to_string(basic)),
        IndexedTypeKind::Generic { base, open_arrow, generics, close_arrow } => {
            let inner = match punctuated_type_info_to_string(generics) {
                Some(s) => s,
                None => {
                    return None;
                },
            };
            let mut s = token_reference_to_string(base);
            s.append(token_reference_to_string(open_arrow).as_str());
            s.append(inner.as_str());
            s.append(token_reference_to_string(close_arrow).as_str());
            Some(s)
        },
        IndexedTypeKind::Unsupported => None,
    }
}

/// Renders one callback argument.
pub fn type_argument_to_string(type_argument: &TypeArg) -> (r: Option<String>)
    ensures
        match r {
            Some(s) => spec_type_arg_str(*type_argument) == Some(s@),
            None => spec_type_arg_str(*type_argument) is None,
        },
    decreases *type_argument,
{
    let mut name_string = String::new();
    match &type_argument.name {
        Some(nc) => {
            name_string.append(token_reference_to_string(&nc.identifier).as_str());
            name_string.append(token_reference_to_string(&nc.colon).as_str());
        },
        None => {},
    }
    let inner = match type_info_to_string(&type_argument.type_info) {
        Some(s) => s,
        None => {
            return None;
        },
    };
    name_string.append(inner.as_str());
    Some(name_string)
}

/// Renders a table-type field's key.
pub fn type_field_key_to_string(field_key: &TypeFieldKey) -> (r: Option<String>)
    ensures
        match r {
            Some(s) => spec_field_key_str(*field_key) == Some(s@),
            None => spec_field_key_str(*field_key) is None,
        },
    decreases *field_key,
{
    match field_key {
        TypeFieldKey::IndexSignature { open_bracket, inner, close_bracket } => {
            let mid = match type_info_to_string(inner) {
                Some(s) => s,
                None => {
                    return None;
                },
            };
            let mut s = token_reference_to_string(open_bracket);
            s.append(mid.as_str());
            s.append(token_reference_to_string(close_bracket).as_str());
            Some(s)
        },
        TypeFieldKey::Name(token_reference) => Some(token_reference_to_string(token_reference)),
        TypeFieldKey::Unsupported => None,
    }
}

/// Renders one table-type field.
pub fn type_field_to_string(type_field: &TypeFieldNode) -> (r: Option<String>)
    ensures
        match r {
            Some(s) => spec_type_field_str(*type_field) == Some(s@),
            None => spec_type_field_str(*type_field) is None,
        },
    decreases *type_field,
{
    let key = match type_field_key_to_string(&type_field.key) {
        Some(s) => s,
        None => {
            return None;
        },
    };
    let value = match type_info_to_string(&type_field.value) {
        Some(s) => s,
        None => {
            return None;
        },
    };
    let mut s = optional_token_ref_to_string(&type_field.access);
    s.append(key.as_str());
    s.append(token_reference_to_string(&type_field.colon).as_str());
    s.append(value.as_str());
    Some(s)
}

/// Renders a type annotation, comment trivia left out; an unsupported node
/// anywhere in it makes the rendering fail.
pub fn type_info_to_string(type_info: &TypeNode) -> (r: Option<String>)
    ensures
        match r {
            Some(s) => spec_type_str(*type_info) == Some(s@),
            None => spec_type_str(*type_info) is None,
        },
    decreases *type_info,
{
    match &type_info.kind {
        TypeKind::Array { open_brace, access, inner, close_brace } => {
            let mid = match type_info_to_string(inner) {
                Some(s) => s,
                None => {
                    return None;
                },
            };
            let mut s = token_reference_to_string(open_brace);
            s.append(optional_token_ref_to_string(access).as_str());
            s.append(mid.as_str());
            s.append(token_reference_to_string(close_brace).as_str());
            Some(s)
        },
        TypeKind::Basic(basic) => Some(token_reference_to_string(basic)),
        TypeKind::Str(tok) => Some(token_reference_to_string(tok)),
        TypeKind::Boolean(tok) => Some(token_reference_to_string(tok)),
        TypeKind::Callback { generics, open_paren, arguments, close_paren, arrow, return_type } => {
            let generics_string = match generics {
                Some(g) => match gen_decl_to_string(g) {
                    Some(s) => s,
                    None => {
                        return None;
                    },
                },
                None => String::new(),
            };
            let args = match punctuated_type_argument_to_string(arguments) {
                Some(s) => s,
                None => {
                    return None;
                },
            };
            let ret = match type_info_to_string(return_type) {
                Some(s) => s,
                None => {
                    return None;
                },
            };
            let mut s = generics_string;
            s.append(token_reference_to_string(open_paren).as_str());
            s.append(args.as_str());
            s.append(token_reference_to_string(close_paren).as_str());
            s.append(token_reference_to_string(arrow).as_str());
            s.append(ret.as_str());
            Some(s)
        },
        TypeKind::Generic { base, open_arrow, generics, close_arrow } => {
            let inner = match punctuated_type_info_to_string(generics) {
                Some(s) => s,
                None => {
                    return None;
                },
            };
            let mut s = token_reference_to_string(base);
            s.append(token_reference_to_string(open_arrow).as_str());
            s.append(inner.as_str());
            s.append(token_reference_to_string(close_arrow).as_str());
            Some(s)
        },
        TypeKind::GenericPack { name, ellipsis } => {
            let mut s = token_reference_to_string(name);
            s.append(token_reference_to_string(ellipsis).as_str());
            Some(s)
        },
        TypeKind::Intersection { leading, types } => {
            let inner = match punctuated_type_info_to_string(types) {
                Some(s) => s,
                None => {
                    return None;
                },
            };
            let mut s = optional_token_ref_to_string(leading);
            s.append(inner.as_str());
            Some(s)
        },
        TypeKind::Module { module, punctuation, type_info: indexed } => {
            let inner = match indexed_type_info_to_string(indexed) {
                Some(s) => s,
                None => {
                    return None;
                },
            };
            let mut s = token_reference_to_string(module);
            s.append(token_reference_to_string(punctuation).as_str());
            s.append(inner.as_str());
            Some(s)
        },
        TypeKind::Optional { base, question_mark } => {
            let mut s = match type_info_to_string(base) {
                Some(s) => s,
                None => {
                    return None;
                },
            };
            s.append(token_reference_to_string(question_mark).as_str());
            Some(s)
        },
        TypeKind::Table { open_brace, fields, close_brace } => {
            let inner = match punctuated_type_field_to_string(fields) {
                Some(s) => s,
                None => {
                    return None;
                },
            };
            let mut s = token_reference_to_string(open_brace);
            s.append(inner.as_str());
            s.append(token_reference_to_string(close_brace).as_str());
            Some(s)
        },
        TypeKind::Typeof { typeof_token, open_paren, inner, close_paren } => {
            let mut s = token_reference_to_string(typeof_token);
            s.append(token_reference_to_string(open_paren).as_str());
            s.append(inner.as_str());
            s.append(token_reference_to_string(close_paren).as_str());
            Some(s)
        },
        TypeKind::Tuple { open_paren, types, close_paren } => {
            let inner = match punctuated_type_info_to_string(types) {
                Some(s) => s,
                None => {
                    return None;
                },
            };
            let mut s = token_reference_to_string(open_paren);
            s.append(inner.as_str());
            s.append(token_reference_to_string(close_paren).as_str());
            Some(s)
        },
        TypeKind::Union { leading, types } => {
            let inner = match punctuated_type_info_to_string(types) {
                Some(s) => s,
                None => {
                    return None;
                },
            };
            let mut s = optional_token_ref_to_string(leading);
            s.append(inner.as_str());
            Some(s)
        },
        TypeKind::Variadic { ellipsis, type_info: inner_type } => {
            let inner = match type_info_to_string(inner_type) {
                Some(s) => s,
                None => {
                    return None;
                },
            };
            let mut s = token_reference_to_string(ellipsis);
            s.append(inner.as_str());
            Some(s)
        },
        TypeKind::VariadicPack { ellipsis, name } => {
            let mut s = token_reference_to_string(ellipsis);
            s.append(token_reference_to_string(name).as_str());
            Some(s)
        },
        TypeKind::Unsupported => None,
    }
}

/// One field of a type entry.
pub struct Field {
    pub name: String,
    pub lua_type: String,
    pub desc: String,
}

impl From<crate::tags::FieldTag> for Field {
    /// A field from a `@field` tag: its three texts.
    fn from(field_tag: crate::tags::FieldTag) -> (r: Field)
        ensures
            r.name@ == field_tag.name@,
            r.lua_type@ == field_tag.lua_type@,
            r.desc@ == field_tag.desc@,
    {
        Field {
            name: field_tag.name.to_string(),
            lua_type: field_tag.lua_type.to_string(),
            desc: field_tag.desc.to_string(),
        }
    }
}

impl vstd::std_specs::convert::FromSpecImpl<crate::tags::FieldTag> for Field {
    open spec fn obeys_from_spec() -> bool {
        false
    }

    closed spec fn from_spec(field_tag: crate::tags::FieldTag) -> Field {
        vstd::pervasive::arbitrary()
    }
}

/// A field as its three texts.
pub struct FieldModel {
    pub name: Seq<char>,
    pub lua_type: Seq<char>,
    pub desc: Seq<char>,
}

/// The texts of a field list.
pub open spec fn field_models(v: Seq<Field>) -> Seq<FieldModel> {
    v.map_values(|f: Field| FieldModel { name: f.name@, lua_type: f.lua_type@, desc: f.desc@ })
}

/// The texts of stored external tags.
pub open spec fn external_views(v: Seq<crate::tags::ExternalTag>) -> Seq<(Seq<char>, Seq<char>)> {
    v.map_values(|e: crate::tags::ExternalTag| (e.name@, e.url@))
}

/// The name and URL of each `@external` tag, in order.
pub open spec fn spec_externals_of(tags: Seq<Tag>) -> Seq<(Seq<char>, Seq<char>)>
    decreases tags.len(),
{
    if tags.len() == 0 {
        Seq::<(Seq<char>, Seq<char>)>::empty()
    } else {
        spec_externals_of(tags.drop_last()) + (match tags.last() {
            Tag::External(t) => seq![(t.name@, t.url@)],
            _ => Seq::<(Seq<char>, Seq<char>)>::empty(),
        })
    }
}

/// The type the last `@type` tag carries, if one carries a type.
pub open spec fn spec_last_type_override(tags: Seq<Tag>) -> Option<Seq<char>>
    decreases tags.len(),
{
    if tags.len() == 0 {
        None
    } else {
        match tags.last() {
            Tag::Type(t) => match t.lua_type {
                Some(sp) => Some(sp@),
                None => spec_last_type_override(tags.drop_last()),
            },
            _ => spec_last_type_override(tags.drop_last()),
        }
    }
}

/// The first field whose trimmed name equals `name`.
pub open spec fn find_field(ps: Seq<FieldModel>, name: Seq<char>) -> Option<int>
    decreases ps.len(),
{
    if ps.len() == 0 {
        None
    } else if crate::text::spec_trim(ps[0].name) == name {
        Some(0)
    } else {
        match find_field(ps.skip(1), name) {
            None => None,
            Some(i) => Some(i + 1),
        }
    }
}

/// What one `@field` tag does to the field list.  With an inferred table
/// shape it overlays the matching field: a non-empty tag type overrides, a
/// non-empty tag description overrides; a name that matches no field is a
/// failure.  Without an inferred shape the tag appends a field.
pub open spec fn apply_field_tag(ps: Seq<FieldModel>, t: crate::tags::FieldTag, shape_exists: bool) -> Option<
    Seq<FieldModel>,
> {
    if shape_exists {
        match find_field(ps, t.name@) {
            None => None,
            Some(i) => {
                if 0 <= i < ps.len() {
                    let old_f = ps[i];
                    Some(
                        ps.update(
                            i,
                            FieldModel {
                                name: old_f.name,
                                lua_type: if t.lua_type@.len() > 0 {
                                    t.lua_type@
                                } else {
                                    old_f.lua_type
                                },
                                desc: if t.desc@.len() > 0 {
                                    t.desc@
                                } else {
                                    old_f.desc
                                },
                            },
                        ),
                    )
                } else {
                    None
                }
            },
        }
    } else {
        Some(ps.push(FieldModel { name: t.name@, lua_type: t.lua_type@, desc: t.desc@ }))
    }
}

/// The field list after every tag has been applied in order, or nothing
/// once a `@field` tag fails to match.
pub open spec fn spec_merge_fields(ps: Seq<FieldModel>, tags: Seq<Tag>, shape_exists: bool) -> Option<
    Seq<FieldModel>,
>
    decreases tags.len(),
{
    if tags.len() == 0 {
        Some(ps)
    } else {
        match spec_merge_fields(ps, tags.drop_last(), shape_exists) {
            None => None,
            Some(cur) => match tags.last() {
                Tag::Field(t) => apply_field_tag(cur, t, shape_exists),
                _ => Some(cur),
            },
        }
    }
}

/// A failed field merge stays failed, and a successful one continues from
/// its result.
pub proof fn lemma_merge_fields_extend(
    ps: Seq<FieldModel>,
    a: Seq<Tag>,
    b: Seq<Tag>,
    shape_exists: bool,
)
    ensures
        spec_merge_fields(ps, a + b, shape_exists) == (match spec_merge_fields(
            ps,
            a,
            shape_exists,
        ) {
            None => None,
            Some(m) => spec_merge_fields(m, b, shape_exists),
        }),
    decreases b.len(),
{
    if b.len() == 0 {
        assert(a + b =~= a);
    } else {
        lemma_merge_fields_extend(ps, a, b.drop_last(), shape_exists);
        assert((a + b).drop_last() =~= a + b.drop_last());
        assert((a + b).last() == b.last());
    }
}

/// The description a same-line comment gives a field: the first single-line
/// comment among the given trivia whose content starts with a dash, its
/// remainder trimmed.
pub open spec fn spec_trivia_desc(ts: Seq<Trivia>) -> Option<Seq<char>>
    decreases ts.len(),
{
    if ts.len() == 0 {
        None
    } else if ts[0].kind == TriviaKind::SingleLineComment && ts[0].text@.len() > 0 && ts[0].text@[0]
        == '-' {
        Some(crate::text::spec_trim(ts[0].text@.skip(1)))
    } else {
        spec_trivia_desc(ts.skip(1))
    }
}

/// The description of one inferred field: searched in the field's leading
/// trivia, its trailing trivia, then the trivia around its punctuation.
pub open spec fn spec_pair_desc(pair: TypeFieldPair) -> Seq<char> {
    match spec_trivia_desc(pair.field.leading_trivia@) {
        Some(d) => d,
        None => match spec_trivia_desc(pair.field.trailing_trivia@) {
            Some(d) => d,
            None => match pair.punctuation {
                Some(p) => match spec_trivia_desc(p.leading@) {
                    Some(d) => d,
                    None => match spec_trivia_desc(p.trailing@) {
                        Some(d) => d,
                        None => Seq::<char>::empty(),
                    },
                },
                None => Seq::<char>::empty(),
            },
        },
    }
}

/// The fields an inferred table shape seeds: one per field whose key and
/// type render, in order.
pub open spec fn seed_fields_list(v: Seq<TypeFieldPair>) -> Seq<FieldModel>
    decreases v.len(),
{
    if v.len() == 0 {
        Seq::<FieldModel>::empty()
    } else {
        seed_fields_list(v.drop_last()) + (match (
            spec_field_key_str(v.last().field.key),
            spec_type_str(v.last().field.value),
        ) {
            (Some(k), Some(t)) => seq![
                FieldModel { name: k, lua_type: t, desc: spec_pair_desc(v.last()) },
            ],
            _ => Seq::<FieldModel>::empty(),
        })
    }
}

/// The fields the inferred signature seeds: those of a table shape, none
/// otherwise.
pub open spec fn spec_seed_fields(type_info: Option<TypeNode>) -> Seq<FieldModel> {
    match type_info {
        Some(t) => match t.kind {
            TypeKind::Table { open_brace, fields, close_brace } => seed_fields_list(fields@),
            _ => Seq::<FieldModel>::empty(),
        },
        None => Seq::<FieldModel>::empty(),
    }
}

/// The node an optional reference points at.
pub open spec fn opt_node_deref(o: Option<&TypeNode>) -> Option<TypeNode> {
    match o {
        Some(t) => Some(*t),
        None => None,
    }
}

/// The single type string the inferred signature seeds: a non-table shape's
/// rendering, or its raw text trimmed where the rendering fails.
pub open spec fn spec_seed_type(type_info: Option<TypeNode>) -> Option<Seq<char>> {
    match type_info {
        None => None,
        Some(t) => match t.kind {
            TypeKind::Table { open_brace, fields, close_brace } => None,
            _ => Some(
                match spec_type_str(t) {
                    Some(s) => s,
                    None => crate::text::spec_trim(t.raw@),
                },
            ),
        },
    }
}

/// The tag kinds a type entry consumes; a type entry takes no realm tags.
pub open spec fn type_entry_consumes(t: crate::tags::TagType) -> bool {
    t == crate::tags::TagType::Custom || t == crate::tags::TagType::Deprecated || t
        == crate::tags::TagType::Since || t == crate::tags::TagType::Private || t
        == crate::tags::TagType::Unreleased || t == crate::tags::TagType::Ignore || t
        == crate::tags::TagType::Type || t == crate::tags::TagType::Field || t
        == crate::tags::TagType::External
}

/// A documentation entry for a named type.
pub struct TypeDocEntry {
    pub name: String,
    pub desc: String,
    pub lua_type: Option<String>,
    pub fields: Vec<Field>,
    pub tags: Vec<crate::tags::CustomTag>,
    pub external_types: Vec<crate::tags::ExternalTag>,
    pub since: Option<String>,
    pub deprecated: Option<crate::tags::DeprecatedTag>,
    pub private: bool,
    pub unreleased: bool,
    pub ignore: bool,
    pub output_source: crate::doc_comment::OutputSource,
    pub source: crate::doc_comment::CommentRef,
    pub within: String,
}

/// Finds the first single-line comment description among the given trivia.
fn find_desc_in(ts: &Vec<Trivia>) -> (r: Option<String>)
    ensures
        match r {
            Some(s) => spec_trivia_desc(ts@) == Some(s@),
            None => spec_trivia_desc(ts@) is None,
        },
{
    let n = ts.len();
    let mut i: usize = 0;
    proof {
        assert(ts@.skip(0) =~= ts@);
    }
    while i < n
        invariant
            n == ts@.len(),
            0 <= i <= n,
            spec_trivia_desc(ts@) == spec_trivia_desc(ts@.skip(i as int)),
        decreases n - i,
    {
        proof {
            assert(ts@.skip(i as int)[0] == ts@[i as int]);
            assert(ts@.skip(i as int).skip(1) =~= ts@.skip(i + 1));
        }
        let trivia = &ts[i];
        let is_comment = match trivia.kind {
            TriviaKind::SingleLineComment => true,
            _ => false,
        };
        if is_comment {
            let text_span = crate::span::Span::dummy(trivia.text.as_str());
            let tn = text_span.len();
            if tn > 0 && text_span.char_at(0) == '-' {
                let stripped = text_span.slice(1, tn - 1);
                proof {
                    assert(stripped@ =~= trivia.text@.skip(1));
                }
                return Some(stripped.trim().to_string());
            }
        }
        i = i + 1;
    }
    proof {
        assert(ts@.skip(n as int) =~= Seq::<Trivia>::empty());
    }
    None
}

/// The description a field pair carries in its surrounding trivia.
fn pair_desc(pair: &TypeFieldPair) -> (r: String)
    ensures
        r@ == spec_pair_desc(*pair),
{
    match find_desc_in(&pair.field.leading_trivia) {
        Some(d) => d,
        None => match find_desc_in(&pair.field.trailing_trivia) {
            Some(d) => d,
            None => match &pair.punctuation {
                Some(p) => match find_desc_in(&p.leading) {
                    Some(d) => d,
                    None => match find_desc_in(&p.trailing) {
                        Some(d) => d,
                        None => String::new(),
                    },
                },
                None => String::new(),
            },
        },
    }
}

impl TypeDocEntry {
    /// Builds a type entry from the leftover tags and the type annotation of
    /// the decorated alias, if any.  A table annotation seeds the field
    /// list, which `@field` tags overlay (or, without an annotation,
    /// append to); any other annotation seeds a single rendered type string,
    /// which a typed `@type` tag overrides; any tag of a kind the entry does
    /// not use is rejected.
    #[verifier::rlimit(100)]
    #[verifier::loop_isolation(false)]
    pub fn parse(args: DocEntryParseArguments, type_info: Option<&TypeNode>) -> (r: Result<
        TypeDocEntry,
        Diagnostics,
    >)
        requires
            args.within is Some,
        ensures
            match r {
                Ok(e) => {
                    &&& e.name@ == args.name@
                    &&& e.desc@ == args.desc@
                    &&& e.within@ == args.within.unwrap()@
                    &&& e.output_source == args.output_source
                    &&& e.source == args.source
                    &&& spec_merge_fields(
                        spec_seed_fields(opt_node_deref(type_info)),
                        args.tags@,
                        type_info is Some,
                    ) == Some(field_models(e.fields@))
                    &&& crate::doc_entry::opt_string_view(e.lua_type) == (match
                        spec_last_type_override(args.tags@) {
                        Some(t) => Some(t),
                        None => spec_seed_type(opt_node_deref(type_info)),
                    })
                    &&& external_views(e.external_types@) == spec_externals_of(args.tags@)
                    &&& crate::doc_entry::custom_names(e.tags@) == crate::doc_entry::spec_customs(
                        args.tags@,
                    )
                    &&& crate::doc_entry::dep_view(e.deprecated)
                        == crate::doc_entry::spec_last_deprecated(args.tags@)
                    &&& crate::doc_entry::opt_string_view(e.since)
                        == crate::doc_entry::spec_last_since(args.tags@)
                    &&& e.private == has_type(types_of(args.tags@), crate::tags::TagType::Private)
                    &&& e.unreleased == has_type(
                        types_of(args.tags@),
                        crate::tags::TagType::Unreleased,
                    )
                    &&& e.ignore == has_type(types_of(args.tags@), crate::tags::TagType::Ignore)
                    &&& (forall|i: int|
                        0 <= i < args.tags@.len() ==> type_entry_consumes(
                            crate::tags::spec_tag_type(#[trigger] args.tags@[i]),
                        ))
                },
                Err(ds) => {
                    &&& ds.spec_errors().len() > 0
                    &&& (spec_merge_fields(
                        spec_seed_fields(opt_node_deref(type_info)),
                        args.tags@,
                        type_info is Some,
                    ) is None || (exists|j: int|
                        0 <= j < args.tags@.len() && !type_entry_consumes(
                            crate::tags::spec_tag_type(#[trigger] args.tags@[j]),
                        )))
                },
            },
    {
        let DocEntryParseArguments { name, tags, desc, within, output_source, source } = args;
        let within = match within {
            Some(w) => w,
            None => String::new(),
        };
        let ghost orig = tags@;
        let mut tags = tags;
        let ghost mut done = Seq::<Tag>::empty();
        let ghost seedf = spec_seed_fields(opt_node_deref(type_info));
        let shape_exists = match &type_info {
            Some(t) => true,
            None => false,
        };

        let mut fields: Vec<Field> = Vec::new();
        let mut seeded_type: Option<String> = None;
        match type_info {
            Some(type_node) => {
                match &type_node.kind {
                    TypeKind::Table { open_brace, fields: field_pairs, close_brace } => {
                        let ghost pairs = field_pairs@;
                        let fp = field_pairs.len();
                        let mut i: usize = 0;
                        proof {
                            assert(seed_fields_list(pairs.take(0)) =~= Seq::<FieldModel>::empty());
                            assert(field_models(fields@) =~= Seq::<FieldModel>::empty());
                        }
                        while i < fp
                            invariant
                                fp == field_pairs@.len(),
                                pairs == field_pairs@,
                                0 <= i <= fp,
                                field_models(fields@) == seed_fields_list(pairs.take(i as int)),
                            decreases fp - i,
                        {
                            proof {
                                assert(pairs.take(i + 1).drop_last() =~= pairs.take(i as int));
                                assert(pairs.take(i + 1).last() == pairs[i as int]);
                            }
                            let pair = &field_pairs[i];
                            let ghost before = field_models(fields@);
                            match type_field_key_to_string(&pair.field.key) {
                                None => {},
                                Some(key_name) => {
                                    match type_info_to_string(&pair.field.value) {
                                        None => {},
                                        Some(lua_type) => {
                                            let desc_text = pair_desc(pair);
                                            fields.push(
                                                Field {
                                                    name: key_name,
                                                    lua_type,
                                                    desc: desc_text,
                                                },
                                            );
                                            proof {
                                                assert(field_models(fields@) =~= before.push(
                                                    FieldModel {
                                                        name: key_name@,
                                                        lua_type: lua_type@,
                                                        desc: desc_text@,
                                                    },
                                                ));
                                            }
                                        },
                                    }
                                },
                            }
                            proof {
                                assert(field_models(fields@) =~= seed_fields_list(
                                    pairs.take(i + 1),
                                ));
                            }
                            i = i + 1;
                        }
                        proof {
                            assert(pairs.take(fp as int) =~= pairs);
                            assert(field_models(fields@) =~= seedf);
                        }
                    },
                    other_kind => {
                        match type_info_to_string(type_node) {
                            Some(s) => {
                                seeded_type = Some(s);
                            },
                            None => {
                                let raw_span = crate::span::Span::dummy(type_node.raw.as_str());
                                seeded_type = Some(raw_span.trim().to_string());
                            },
                        }
                        proof {
                            assert(field_models(fields@) =~= seedf);
                        }
                    },
                }
            },
            None => {
                proof {
                    assert(field_models(fields@) =~= seedf);
                }
            },
        }

        let mut acc = SharedAcc::new();
        let mut type_override: Option<String> = None;
        let mut external_types: Vec<crate::tags::ExternalTag> = Vec::new();
        let mut unused: Vec<Tag> = Vec::new();

        proof {
            assert(done + tags@ =~= orig);
            assert(crate::doc_entry::spec_customs(done) =~= Seq::<Seq<char>>::empty());
            assert(spec_externals_of(done) =~= Seq::<(Seq<char>, Seq<char>)>::empty());
            assert(external_views(external_types@) =~= Seq::<(Seq<char>, Seq<char>)>::empty());
            assert(types_of(done) =~= Seq::<crate::tags::TagType>::empty());
            assert(spec_merge_fields(seedf, done, shape_exists) == Some(seedf));
        }
        while tags.len() > 0
            invariant
                orig == args.tags@,
                done + tags@ =~= orig,
                seedf == spec_seed_fields(opt_node_deref(type_info)),
                shape_exists == (type_info is Some),
                spec_merge_fields(seedf, done, shape_exists) == Some(field_models(fields@)),
                crate::doc_entry::opt_string_view(type_override) == spec_last_type_override(done),
                external_views(external_types@) == spec_externals_of(done),
                crate::doc_entry::custom_names(acc.tags@) == crate::doc_entry::spec_customs(done),
                crate::doc_entry::dep_view(acc.deprecated) == crate::doc_entry::spec_last_deprecated(
                    done,
                ),
                crate::doc_entry::opt_string_view(acc.since) == crate::doc_entry::spec_last_since(
                    done,
                ),
                acc.private == has_type(types_of(done), crate::tags::TagType::Private),
                acc.unreleased == has_type(types_of(done), crate::tags::TagType::Unreleased),
                acc.ignore == has_type(types_of(done), crate::tags::TagType::Ignore),
                (unused@.len() == 0) <==> (forall|i: int|
                    0 <= i < done.len() ==> type_entry_consumes(
                        crate::tags::spec_tag_type(#[trigger] done[i]),
                    )),
            decreases tags@.len(),
        {
            let tag = tags.remove(0);
            let ghost done2 = done.push(tag);
            let ghost rest = tags@;
            proof {
                assert(done2.drop_last() =~= done);
                assert(done2 + tags@ =~= orig);
                crate::doc_entry::lemma_types_push(done, tag);
            }
            match tag {
                Tag::Type(type_tag) => {
                    match type_tag.lua_type {
                        Some(sp) => {
                            type_override = Some(sp.to_string());
                        },
                        None => {},
                    }
                },
                Tag::Field(field_tag) => {
                    if shape_exists {
                        let ghost before = field_models(fields@);
                        let fnn = fields.len();
                        let mut j: usize = 0;
                        while j < fnn && !crate::text::str_eq(
                            crate::span::Span::dummy(fields[j].name.as_str()).trim().as_str(),
                            field_tag.name.as_str(),
                        )
                            invariant
                                fnn == fields@.len(),
                                before == field_models(fields@),
                                0 <= j <= fnn,
                                forall|k: int|
                                    0 <= k < j ==> crate::text::spec_trim(
                                        (#[trigger] before[k]).name,
                                    ) != field_tag.name@,
                            decreases fnn - j,
                        {
                            proof {
                                assert(before[j as int].name == fields@[j as int].name@);
                            }
                            j = j + 1;
                        }
                        if j < fnn {
                            proof {
                                assert(before[j as int].name == fields@[j as int].name@);
                                lemma_find_field_at(before, field_tag.name@, j as int);
                            }
                            let mut updated = fields.remove(j);
                            if field_tag.lua_type.len() > 0 {
                                updated.lua_type = field_tag.lua_type.to_string();
                            }
                            if field_tag.desc.len() > 0 {
                                updated.desc = field_tag.desc.to_string();
                            }
                            fields.insert(j, updated);
                            proof {
                                assert(field_models(fields@) =~= apply_field_tag(
                                    before,
                                    field_tag,
                                    true,
                                ).unwrap());
                            }
                        } else {
                            proof {
                                lemma_find_field_none(before, field_tag.name@);
                                assert(apply_field_tag(before, field_tag, true) is None);
                                assert(spec_merge_fields(seedf, done2, shape_exists)
                                    == None::<Seq<FieldModel>>);
                                lemma_merge_fields_extend(seedf, done2, rest, shape_exists);
                                assert(done2 + rest =~= orig);
                            }
                            let mut msg = String::from_str("Field \"");
                            msg.append(field_tag.name.as_str());
                            msg.append("\" does not actually exist in interface");
                            let d = crate::diagnostic::Diagnostic::from_span(
                                msg.as_str(),
                                &field_tag.name,
                            );
                            let mut ds: Vec<crate::diagnostic::Diagnostic> = Vec::new();
                            ds.push(d);
                            let out = Diagnostics::from(ds);
                            proof {
                                assert(out.spec_errors().len() > 0);
                            }
                            return Err(out);
                        }
                    } else {
                        let ghost before = field_models(fields@);
                        fields.push(Field::from(field_tag));
                        proof {
                            assert(field_models(fields@) =~= before.push(
                                FieldModel {
                                    name: field_tag.name@,
                                    lua_type: field_tag.lua_type@,
                                    desc: field_tag.desc@,
                                },
                            ));
                        }
                    }
                },
                Tag::External(external_tag) => {
                    let ghost before_e = external_views(external_types@);
                    external_types.push(external_tag);
                    proof {
                        assert(external_views(external_types@) =~= before_e.push(
                            (external_tag.name@, external_tag.url@),
                        ));
                    }
                },
                Tag::Server(t) => {
                    unused.push(Tag::Server(t));
                },
                Tag::Client(t) => {
                    unused.push(Tag::Client(t));
                },
                Tag::Plugin(t) => {
                    unused.push(Tag::Plugin(t));
                },
                other => {
                    match acc.apply(other) {
                        Some(left) => {
                            unused.push(left);
                        },
                        None => {},
                    }
                },
            }
            proof {
                if !(tag is External) {
                    assert(spec_externals_of(done2) =~= spec_externals_of(done));
                }
                done = done2;
            }
        }
        proof {
            assert(done =~= orig);
        }

        if unused.len() > 0 {
            let mut diagnostics: Vec<crate::diagnostic::Diagnostic> = Vec::new();
            let un = unused.len();
            let mut k: usize = 0;
            while k < un
                invariant
                    un == unused@.len(),
                    0 <= k <= un,
                    diagnostics@.len() == k,
                decreases un - k,
            {
                diagnostics.push(unused[k].diagnostic("This tag is unused by type doc entries."));
                k = k + 1;
            }
            return Err(Diagnostics::from(diagnostics));
        }

        let lua_type: Option<String> = match type_override {
            Some(s) => Some(s),
            None => seeded_type,
        };
        Ok(
            TypeDocEntry {
                name,
                desc,
                lua_type,
                fields,
                tags: acc.tags,
                external_types,
                since: acc.since,
                deprecated: acc.deprecated,
                private: acc.private,
                unreleased: acc.unreleased,
                ignore: acc.ignore,
                output_source,
                source,
                within,
            },
        )
    }
}

/// A scan that stopped at a match found the first field.
proof fn lemma_find_field_at(ps: Seq<FieldModel>, name: Seq<char>, j: int)
    requires
        0 <= j < ps.len(),
        crate::text::spec_trim(ps[j].name) == name,
        forall|k: int| 0 <= k < j ==> crate::text::spec_trim((#[trigger] ps[k]).name) != name,
    ensures
        find_field(ps, name) == Some(j),
    decreases j,
{
    if j == 0 {
    } else {
        assert(crate::text::spec_trim(ps[0].name) != name);
        lemma_find_field_at(ps.skip(1), name, j - 1);
        assert(forall|k: int| 0 <= k < j - 1 ==> ps.skip(1)[k] == ps[k + 1]);
    }
}

/// A scan that found nothing means no field matches.
proof fn lemma_find_field_none(ps: Seq<FieldModel>, name: Seq<char>)
    requires
        forall|k: int| 0 <= k < ps.len() ==> crate::text::spec_trim((#[trigger] ps[k]).name) != name,
    ensures
        find_field(ps, name) == None::<int>,
    decreases ps.len(),
{
    if ps.len() > 0 {
        lemma_find_field_none(ps.skip(1), name);
        assert(forall|k: int| 0 <= k < ps.skip(1).len() ==> ps.skip(1)[k] == ps[k + 1]);
    }
}

/// What one `@field` content does to the field list; mirrors
/// `apply_field_tag` over the tag's texts.
pub open spec fn m_apply_field(
    fs: Seq<FieldModel>,
    name: Seq<char>,
    lua_type: Seq<char>,
    desc: Seq<char>,
    shape_exists: bool,
) -> Option<Seq<FieldModel>> {
    if shape_exists {
        match find_field(fs, name) {
            None => None,
            Some(i) => {
                if 0 <= i < fs.len() {
                    let old_f = fs[i];
                    Some(
                        fs.update(
                            i,
                            FieldModel {
                                name: old_f.name,
                                lua_type: if lua_type.len() > 0 {
                                    lua_type
                                } else {
                                    old_f.lua_type
                                },
                                desc: if desc.len() > 0 {
                                    desc
                                } else {
                                    old_f.desc
                                },
                            },
                        ),
                    )
                } else {
                    None
                }
            },
        }
    } else {
        Some(fs.push(FieldModel { name, lua_type, desc }))
    }
}

/// The field list after every tag content applied in order; mirrors
/// `spec_merge_fields`.
pub open spec fn m_merge_fields(
    fs: Seq<FieldModel>,
    ms: Seq<crate::tags::TagModel>,
    shape_exists: bool,
) -> Option<Seq<FieldModel>>
    decreases ms.len(),
{
    if ms.len() == 0 {
        Some(fs)
    } else {
        match m_merge_fields(fs, ms.drop_last(), shape_exists) {
            None => None,
            Some(cur) => match ms.last() {
                crate::tags::TagModel::Field { name, lua_type, desc } => m_apply_field(
                    cur,
                    name,
                    lua_type,
                    desc,
                    shape_exists,
                ),
                _ => Some(cur),
            },
        }
    }
}

/// The field merge is determined by the tags' contents.
pub proof fn lemma_merge_fields_models(fs: Seq<FieldModel>, tags: Seq<Tag>, shape_exists: bool)
    ensures
        spec_merge_fields(fs, tags, shape_exists) == m_merge_fields(
            fs,
            crate::tags::models_of(tags),
            shape_exists,
        ),
    decreases tags.len(),
{
    if tags.len() > 0 {
        lemma_merge_fields_models(fs, tags.drop_last(), shape_exists);
        assert(crate::tags::models_of(tags).drop_last() =~= crate::tags::models_of(
            tags.drop_last(),
        ));
        assert(crate::tags::models_of(tags).last() == crate::tags::model_of(tags.last()));
    }
}

} // verus!
