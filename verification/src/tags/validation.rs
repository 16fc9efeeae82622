//! Validation of parsed tags against the static co-occurrence tables:
//! mutual exclusion, dependency, and multiplicity.

use vstd::multiset::Multiset;
use vstd::prelude::*;

use crate::diagnostic::Diagnostic;
use crate::span::Span;
use crate::tags::{spec_source_of, spec_tag_type, Tag, TagType};

verus! {

/// The pairs of tag kinds that may not appear on one doc comment together.
pub open spec fn mutually_exclusive_pairs() -> Seq<(TagType, TagType)> {
    seq![
        (TagType::Property, TagType::Function),
        (TagType::Property, TagType::Class),
        (TagType::Function, TagType::Class),
        (TagType::Class, TagType::Within),
        (TagType::Index, TagType::Property),
        (TagType::Index, TagType::Function),
        (TagType::Index, TagType::Type),
        (TagType::Param, TagType::Property),
        (TagType::Param, TagType::Class),
        (TagType::Param, TagType::Type),
        (TagType::Return, TagType::Property),
        (TagType::Return, TagType::Class),
        (TagType::Return, TagType::Type),
        (TagType::Error, TagType::Property),
        (TagType::Yields, TagType::Property),
        (TagType::Error, TagType::Class),
        (TagType::Yields, TagType::Class),
        (TagType::Unreleased, TagType::Since),
        (TagType::Unreleased, TagType::Deprecated),
        (TagType::Function, TagType::ReadOnly),
    ]
}

/// The pairs (depender, dependee): the first may not appear without the
/// second.
pub open spec fn dependent_pairs() -> Seq<(TagType, TagType)> {
    seq![(TagType::Property, TagType::Within), (TagType::Type, TagType::Within)]
}

/// The tag kinds that may appear more than once on one doc comment.
pub open spec fn allow_multiple() -> Seq<TagType> {
    seq![
        TagType::Param,
        TagType::Return,
        TagType::Custom,
        TagType::Field,
        TagType::Error,
        TagType::External,
    ]
}

/// The kinds of a sequence of tags, in order.
pub open spec fn types_of(tags: Seq<Tag>) -> Seq<TagType> {
    tags.map_values(|t: Tag| spec_tag_type(t))
}

/// Whether kind `t` occurs in `ts`.
pub open spec fn has_type(ts: Seq<TagType>, t: TagType) -> bool {
    exists|i: int| 0 <= i < ts.len() && ts[i] == t
}

/// How often kind `t` occurs in `ts`.
pub open spec fn count_type(ts: Seq<TagType>, t: TagType) -> nat
    decreases ts.len(),
{
    if ts.len() == 0 {
        0
    } else {
        count_type(ts.drop_last(), t) + if ts.last() == t {
            1nat
        } else {
            0nat
        }
    }
}

/// A mutual-exclusion pair is violated when both kinds occur.
pub open spec fn pair_violated(ts: Seq<TagType>, p: (TagType, TagType)) -> bool {
    has_type(ts, p.0) && has_type(ts, p.1)
}

/// A dependency pair is violated when the depender occurs without the
/// dependee.
pub open spec fn dep_violated(ts: Seq<TagType>, p: (TagType, TagType)) -> bool {
    has_type(ts, p.0) && !has_type(ts, p.1)
}

/// A kind's multiplicity is violated when it occurs more than once and is
/// not allowed to repeat.
pub open spec fn multi_violated(ts: Seq<TagType>, t: TagType) -> bool {
    count_type(ts, t) > 1 && !allow_multiple().contains(t)
}

/// Whether a comment's tag kinds pass every table.  This depends only on
/// which kinds occur how often, never on their order.
pub open spec fn tags_valid(ts: Seq<TagType>) -> bool {
    (forall|i: int|
        0 <= i < mutually_exclusive_pairs().len() ==> !pair_violated(
            ts,
            #[trigger] mutually_exclusive_pairs()[i],
        )) && (forall|i: int|
        0 <= i < dependent_pairs().len() ==> !dep_violated(ts, #[trigger] dependent_pairs()[i]))
        && (forall|t: TagType| !multi_violated(ts, t))
}

/// Whether kind `t` occurs among the tags.
fn has_tag_type(tags: &Vec<Tag>, t: TagType) -> (r: bool)
    ensures
        r == has_type(types_of(tags@), t),
{
    let ghost ts = types_of(tags@);
    let n = tags.len();
    let mut i: usize = 0;
    while i < n
        invariant
            n == tags@.len(),
            ts == types_of(tags@),
            0 <= i <= n,
            forall|k: int| 0 <= k < i ==> ts[k] != t,
        decreases n - i,
    {
        if tags[i].tag_type() == t {
            proof {
                assert(ts[i as int] == t);
            }
            return true;
        }
        i = i + 1;
    }
    false
}

/// How often kind `t` occurs among the tags.
fn count_tag_type(tags: &Vec<Tag>, t: TagType) -> (r: usize)
    ensures
        r == count_type(types_of(tags@), t),
{
    let ghost ts = types_of(tags@);
    let n = tags.len();
    let mut i: usize = 0;
    let mut c: usize = 0;
    while i < n
        invariant
            n == tags@.len(),
            ts == types_of(tags@),
            0 <= i <= n,
            c <= i,
            c == count_type(ts.take(i as int), t),
        decreases n - i,
    {
        proof {
            assert(ts.take(i + 1).drop_last() =~= ts.take(i as int));
            assert(ts.take(i + 1).last() == ts[i as int]);
        }
        if tags[i].tag_type() == t {
            c = c + 1;
        }
        i = i + 1;
    }
    proof {
        assert(ts.take(n as int) =~= ts);
    }
    c
}

/// One diagnostic for a violated table entry: the primary message on the
/// first tag whose kind is in `types`, and, when `secondary` is non-empty,
/// one secondary label on every later such tag.
pub fn build_diagnostic(tags: &Vec<Tag>, types: &Vec<TagType>, primary: &str, secondary: &str) -> (d:
    Option<Diagnostic>)
    ensures
        d is Some <==> exists|i: int|
            0 <= i < tags@.len() && types@.contains(spec_tag_type(#[trigger] tags@[i])),
        match d {
            Some(diag) => diag.spec_text() == primary@,
            None => true,
        },
{
    let n = tags.len();
    let mut i: usize = 0;
    let mut found: Option<Diagnostic> = None;
    while i < n
        invariant
            n == tags@.len(),
            0 <= i <= n,
            found is None ==> forall|k: int|
                0 <= k < i ==> !types@.contains(spec_tag_type(#[trigger] tags@[k])),
            found is Some <==> exists|k: int|
                0 <= k < i && types@.contains(spec_tag_type(#[trigger] tags@[k])),
            match found {
                Some(diag) => diag.spec_text() == primary@,
                None => true,
            },
        decreases n - i,
    {
        let t = tags[i].tag_type();
        let mut in_types = false;
        let m = types.len();
        let mut j: usize = 0;
        while j < m
            invariant
                m == types@.len(),
                0 <= j <= m,
                in_types ==> types@.contains(t),
                !in_types ==> forall|k: int| 0 <= k < j ==> types@[k] != t,
            decreases m - j,
        {
            if types[j] == t {
                in_types = true;
                proof {
                    assert(types@[j as int] == t);
                }
                j = m;
            } else {
                j = j + 1;
            }
        }
        if in_types {
            match &mut found {
                Some(diag) => {
                    if secondary.unicode_len() > 0 {
                        let extra = tags[i].diagnostic(secondary);
                        diag.attach_diagnostic(extra);
                    }
                },
                None => {
                    found = Some(tags[i].diagnostic(primary));
                    proof {
                        assert(types@.contains(spec_tag_type(tags@[i as int])));
                    }
                },
            }
        }
        i = i + 1;
    }
    found
}

/// Checks one comment's tags against the three tables.  The result is empty
/// exactly when the tags are valid; validity depends only on which kinds
/// occur how often, so two comments whose tags are reorderings of each other
/// fail or pass together.
pub fn validate_tags(tags: &Vec<Tag>) -> (r: Vec<Diagnostic>)
    ensures
        (r@.len() == 0) <==> tags_valid(types_of(tags@)),
{
    let ghost ts = types_of(tags@);
    let mut diagnostics: Vec<Diagnostic> = Vec::new();

    let mut exclusive: Vec<(TagType, TagType)> = Vec::new();
    exclusive.push((TagType::Property, TagType::Function));
    exclusive.push((TagType::Property, TagType::Class));
    exclusive.push((TagType::Function, TagType::Class));
    exclusive.push((TagType::Class, TagType::Within));
    exclusive.push((TagType::Index, TagType::Property));
    exclusive.push((TagType::Index, TagType::Function));
    exclusive.push((TagType::Index, TagType::Type));
    exclusive.push((TagType::Param, TagType::Property));
    exclusive.push((TagType::Param, TagType::Class));
    exclusive.push((TagType::Param, TagType::Type));
    exclusive.push((TagType::Return, TagType::Property));
    exclusive.push((TagType::Return, TagType::Class));
    exclusive.push((TagType::Return, TagType::Type));
    exclusive.push((TagType::Error, TagType::Property));
    exclusive.push((TagType::Yields, TagType::Property));
    exclusive.push((TagType::Error, TagType::Class));
    exclusive.push((TagType::Yields, TagType::Class));
    exclusive.push((TagType::Unreleased, TagType::Since));
    exclusive.push((TagType::Unreleased, TagType::Deprecated));
    exclusive.push((TagType::Function, TagType::ReadOnly));
    proof {
        assert(exclusive@ =~= mutually_exclusive_pairs());
    }

    let en = exclusive.len();
    let mut i: usize = 0;
    while i < en
        invariant
            en == mutually_exclusive_pairs().len(),
            exclusive@ == mutually_exclusive_pairs(),
            ts == types_of(tags@),
            0 <= i <= en,
            (diagnostics@.len() == 0) <==> (forall|k: int|
                0 <= k < i ==> !pair_violated(ts, #[trigger] mutually_exclusive_pairs()[k])),
        decreases en - i,
    {
        let (left, right) = exclusive[i];
        if has_tag_type(tags, left) && has_tag_type(tags, right) {
            let mut pair_types: Vec<TagType> = Vec::new();
            pair_types.push(left);
            pair_types.push(right);
            proof {
                let witness = choose|w: int| 0 <= w < ts.len() && ts[w] == left;
                assert(types_of(tags@)[witness] == spec_tag_type(tags@[witness]));
                assert(pair_types@[0] == left);
                assert(pair_types@.contains(spec_tag_type(tags@[witness])));
            }
            match build_diagnostic(
                tags,
                &pair_types,
                "This tag is mutually exclusive...",
                "...with this tag.",
            ) {
                Some(diag) => {
                    diagnostics.push(diag);
                },
                None => {},
            }
        }
        i = i + 1;
    }

    let ghost after_exclusive = diagnostics@.len();

    let mut dependent: Vec<(TagType, TagType)> = Vec::new();
    dependent.push((TagType::Property, TagType::Within));
    dependent.push((TagType::Type, TagType::Within));
    proof {
        assert(dependent@ =~= dependent_pairs());
    }
    let dn = dependent.len();
    let mut i2: usize = 0;
    while i2 < dn
        invariant
            dn == dependent_pairs().len(),
            dependent@ == dependent_pairs(),
            ts == types_of(tags@),
            0 <= i2 <= dn,
            diagnostics@.len() >= after_exclusive,
            (diagnostics@.len() == after_exclusive) <==> (forall|k: int|
                0 <= k < i2 ==> !dep_violated(ts, #[trigger] dependent_pairs()[k])),
            (after_exclusive == 0) <==> (forall|k: int|
                0 <= k < mutually_exclusive_pairs().len() ==> !pair_violated(
                    ts,
                    #[trigger] mutually_exclusive_pairs()[k],
                )),
        decreases dn - i2,
    {
        let (depender, dependee) = dependent[i2];
        if has_tag_type(tags, depender) && !has_tag_type(tags, dependee) {
            let mut dep_types: Vec<TagType> = Vec::new();
            dep_types.push(depender);
            dep_types.push(dependee);
            proof {
                let witness = choose|w: int| 0 <= w < ts.len() && ts[w] == depender;
                assert(types_of(tags@)[witness] == spec_tag_type(tags@[witness]));
                assert(dep_types@[0] == depender);
                assert(dep_types@.contains(spec_tag_type(tags@[witness])));
            }
            match build_diagnostic(
                tags,
                &dep_types,
                "The @within tag must also be present when using this tag.",
                "",
            ) {
                Some(diag) => {
                    diagnostics.push(diag);
                },
                None => {},
            }
        }
        i2 = i2 + 1;
    }

    let ghost after_dependent = diagnostics@.len();

    let n = tags.len();
    let mut i3: usize = 0;
    while i3 < n
        invariant
            n == tags@.len(),
            ts == types_of(tags@),
            0 <= i3 <= n,
            diagnostics@.len() >= after_dependent,
            (diagnostics@.len() == after_dependent) <==> (forall|t: TagType|
                !(multi_violated(ts, t) && has_type(ts.take(i3 as int), t))),
            after_dependent >= after_exclusive,
            (after_dependent == after_exclusive) <==> (forall|k: int|
                0 <= k < dependent_pairs().len() ==> !dep_violated(
                    ts,
                    #[trigger] dependent_pairs()[k],
                )),
            (after_exclusive == 0) <==> (forall|k: int|
                0 <= k < mutually_exclusive_pairs().len() ==> !pair_violated(
                    ts,
                    #[trigger] mutually_exclusive_pairs()[k],
                )),
        decreases n - i3,
    {
        let t = tags[i3].tag_type();
        let mut first = true;
        let mut j: usize = 0;
        while j < i3
            invariant
                0 <= j <= i3 <= n,
                n == tags@.len(),
                ts == types_of(tags@),
                t == ts[i3 as int],
                first <==> (forall|k: int| 0 <= k < j ==> ts[k] != t),
            decreases i3 - j,
        {
            if tags[j].tag_type() == t {
                first = false;
                proof {
                    assert(ts[j as int] == t);
                }
                j = i3;
            } else {
                j = j + 1;
            }
        }
        if first {
            let occurrences = count_tag_type(tags, t);
            let multiple_ok = t == TagType::Param || t == TagType::Return || t == TagType::Custom
                || t == TagType::Field || t == TagType::Error || t == TagType::External;
            proof {
                if multiple_ok {
                    assert(allow_multiple().contains(t));
                } else {
                    assert(forall|k: int|
                        0 <= k < allow_multiple().len() ==> allow_multiple()[k] != t);
                }
            }
            if occurrences > 1 && !multiple_ok {
                let mut one_type: Vec<TagType> = Vec::new();
                one_type.push(t);
                proof {
                    assert(one_type@[0] == t);
                    assert(one_type@.contains(spec_tag_type(tags@[i3 as int])));
                }
                match build_diagnostic(
                    tags,
                    &one_type,
                    "This tag cannot appear multiple times in a single doc entry.",
                    "Appears here",
                ) {
                    Some(diag) => {
                        diagnostics.push(diag);
                    },
                    None => {},
                }
                proof {
                    assert(ts.take(i3 + 1)[i3 as int] == t);
                    assert(multi_violated(ts, t) && has_type(ts.take(i3 + 1), t));
                }
            }
        }
        proof {
            let s1 = ts.take(i3 + 1);
            let s0 = ts.take(i3 as int);
            assert forall|u: TagType| multi_violated(ts, u) && has_type(s1, u) implies
                (diagnostics@.len() > after_dependent) by {
                if has_type(s0, u) {
                } else {
                    let w = choose|w: int| 0 <= w < s1.len() && s1[w] == u;
                    if w < i3 {
                        assert(s0[w] == u);
                        assert(has_type(s0, u));
                    }
                    assert(s1[i3 as int] == ts[i3 as int]);
                    assert(u == t);
                    if !first {
                        let k = choose|k: int| 0 <= k < i3 && ts[k] == t;
                        assert(s0[k] == t);
                        assert(has_type(s0, u));
                    }
                }
            }
        }
        i3 = i3 + 1;
    }
    proof {
        assert(ts.take(n as int) =~= ts);
        assert forall|t: TagType| multi_violated(ts, t) implies has_type(ts, t) by {
            if count_type(ts, t) > 1 {
                lemma_count_has(ts, t);
            }
        }
    }
    diagnostics
}

/// A positive count means an occurrence.
proof fn lemma_count_has(ts: Seq<TagType>, t: TagType)
    requires
        count_type(ts, t) > 0,
    ensures
        has_type(ts, t),
    decreases ts.len(),
{
    if ts.len() > 0 {
        if ts.last() == t {
            assert(ts[ts.len() - 1] == t);
        } else {
            lemma_count_has(ts.drop_last(), t);
            let w = choose|w: int| 0 <= w < ts.drop_last().len() && ts.drop_last()[w] == t;
            assert(ts[w] == t);
        }
    }
}

/// The name a tag uses in source, for the tags checked across the whole
/// run: classes and external types are declared at most once per name.
pub open spec fn global_name_of(t: Tag) -> Option<Seq<char>> {
    match t {
        Tag::External(e) => Some(e.name@),
        Tag::Class(c) => Some(c.name@),
        _ => None,
    }
}

/// Whether two tags of the whole run collide: same kind, same declared
/// name.
pub open spec fn global_dup_exists(tags: Seq<Tag>) -> bool {
    exists|i: int, j: int|
        0 <= i < j < tags.len() && spec_tag_type(#[trigger] tags[i]) == spec_tag_type(
            #[trigger] tags[j],
        ) && global_name_of(tags[i]) is Some && global_name_of(tags[i]) == global_name_of(tags[j])
}

/// Checks the tags of a whole run: a class or external name declared twice
/// under one kind yields one diagnostic naming every occurrence.  The result
/// is empty exactly when no such collision exists.
pub fn validate_global_tags(tags: &Vec<Tag>) -> (r: Vec<Diagnostic>)
    ensures
        (r@.len() == 0) <==> !global_dup_exists(tags@),
{
    let mut diagnostics: Vec<Diagnostic> = Vec::new();
    let n = tags.len();
    let mut i: usize = 0;
    while i < n
        invariant
            n == tags@.len(),
            0 <= i <= n,
            (diagnostics@.len() == 0) <==> (forall|a: int, b: int|
                !(0 <= a < b < tags@.len() && b < i && spec_tag_type(#[trigger] tags@[a])
                    == spec_tag_type(#[trigger] tags@[b]) && global_name_of(tags@[a]) is Some
                    && global_name_of(tags@[a]) == global_name_of(tags@[b]))),
        decreases n - i,
    {
        let name_i: Option<&Span> = match &tags[i] {
            Tag::External(e) => Some(&e.name),
            Tag::Class(c) => Some(&c.name),
            _ => None,
        };
        match name_i {
            None => {},
            Some(name_span) => {
                let ti = tags[i].tag_type();
                let mut j: usize = 0;
                let mut dup_of_earlier = false;
                while j < i
                    invariant
                        0 <= j <= i < n,
                        n == tags@.len(),
                        global_name_of(tags@[i as int]) == Some(name_span@),
                        ti == spec_tag_type(tags@[i as int]),
                        dup_of_earlier <==> (exists|a: int|
                            0 <= a < j && spec_tag_type(#[trigger] tags@[a]) == ti
                                && global_name_of(tags@[a]) == Some(name_span@)),
                    decreases i - j,
                {
                    let name_j: Option<&Span> = match &tags[j] {
                        Tag::External(e) => Some(&e.name),
                        Tag::Class(c) => Some(&c.name),
                        _ => None,
                    };
                    match name_j {
                        None => {},
                        Some(other) => {
                            if tags[j].tag_type() == ti && other.eq_str(name_span.as_str()) {
                                dup_of_earlier = true;
                                proof {
                                    assert(spec_tag_type(tags@[j as int]) == ti && global_name_of(
                                        tags@[j as int],
                                    ) == Some(name_span@));
                                }
                            }
                        },
                    }
                    j = j + 1;
                }
                if dup_of_earlier {
                    let diag = tags[i].diagnostic(
                        "This tag cannot be used multiple times with the same name.",
                    );
                    diagnostics.push(diag);
                }
            },
        }
        i = i + 1;
    }
    proof {
        if diagnostics@.len() == 0 {
            assert forall|a: int, b: int|
                0 <= a < b < tags@.len() implies !(spec_tag_type(#[trigger] tags@[a])
                == spec_tag_type(#[trigger] tags@[b]) && global_name_of(tags@[a]) is Some
                && global_name_of(tags@[a]) == global_name_of(tags@[b])) by {}
        }
    }
    diagnostics
}

/// How often a kind occurs is its count in the multiset of kinds.
proof fn lemma_count_is_multiset_count(ts: Seq<TagType>, t: TagType)
    ensures
        count_type(ts, t) == ts.to_multiset().count(t),
    decreases ts.len(),
{
    broadcast use vstd::seq_lib::group_to_multiset_ensures;

    if ts.len() == 0 {
        assert(ts.to_multiset() =~= Multiset::<TagType>::empty());
    } else {
        lemma_count_is_multiset_count(ts.drop_last(), t);
        assert(ts.drop_last().push(ts.last()) =~= ts);
        assert(ts.drop_last().push(ts.last()).to_multiset() =~= ts.drop_last().to_multiset().insert(
            ts.last(),
        ));
    }
}

/// Validation symmetry: whether a comment's tags pass the co-occurrence
/// tables depends only on which tag kinds occur how often, never on the
/// order they appear in.  Two tag lists whose kinds are reorderings of one
/// another are accepted or rejected together.
pub proof fn lemma_validation_order_independent(a: Seq<TagType>, b: Seq<TagType>)
    requires
        a.to_multiset() == b.to_multiset(),
    ensures
        tags_valid(a) == tags_valid(b),
{
    broadcast use vstd::seq_lib::group_to_multiset_ensures;

    assert forall|t: TagType| count_type(a, t) == count_type(b, t) by {
        lemma_count_is_multiset_count(a, t);
        lemma_count_is_multiset_count(b, t);
    }
    assert forall|t: TagType| has_type(a, t) == has_type(b, t) by {
        assert(a.contains(t) <==> a.to_multiset().count(t) > 0);
        assert(b.contains(t) <==> b.to_multiset().count(t) > 0);
        assert(has_type(a, t) == a.contains(t));
        assert(has_type(b, t) == b.contains(t));
    }
    assert forall|i: int| 0 <= i < mutually_exclusive_pairs().len() implies pair_violated(
        a,
        #[trigger] mutually_exclusive_pairs()[i],
    ) == pair_violated(b, mutually_exclusive_pairs()[i]) by {}
    assert forall|i: int| 0 <= i < dependent_pairs().len() implies dep_violated(
        a,
        #[trigger] dependent_pairs()[i],
    ) == dep_violated(b, dependent_pairs()[i]) by {}
    assert forall|t: TagType| multi_violated(a, t) == multi_violated(b, t) by {}
}

} // verus!
