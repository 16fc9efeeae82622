//! Extraction of structured API documentation from doc comments in Lua and
//! Luau source files.
//!
//! The pipeline recovers logical doc-comment blocks from comment trivia,
//! parses each block's tag micro-language, validates tag co-occurrence,
//! classifies each block as a function, property, type or class entry, and
//! groups the entries by class, producing either a document tree or precise
//! diagnostics that point back at the original source text.

use vstd::prelude::*;

pub mod cli;
pub mod diagnostic;
pub mod doc_comment;
pub mod error;
pub mod parse_error;
pub mod realm;
pub mod source_file;
pub mod span;
pub mod syntax;
pub mod tags;
pub mod doc_entry;
pub mod text;

use crate::diagnostic::{Diagnostic, Diagnostics};
use crate::doc_entry::{ClassDocEntry, DocEntry, FunctionDocEntry, PropertyDocEntry, TypeDocEntry};
use crate::error::Error;
use crate::source_file::SourceFile;

verus! {

/// One class of the final output: the class entry and the function,
/// property and type entries grouped under it.
pub struct OutputClass {
    pub functions: Vec<FunctionDocEntry>,
    pub properties: Vec<PropertyDocEntry>,
    pub types: Vec<TypeDocEntry>,
    pub class: ClassDocEntry,
}

/// Whether `w` names the class directly or through its index alias.
pub open spec fn class_matches(c: ClassDocEntry, w: Seq<char>) -> bool {
    w == c.name@ || w == c.name@ + seq!['.'] + c.__index@
}

/// The class entries of a run, in input order.
pub open spec fn spec_classes_of(entries: Seq<DocEntry>) -> Seq<ClassDocEntry>
    decreases entries.len(),
{
    if entries.len() == 0 {
        Seq::<ClassDocEntry>::empty()
    } else {
        spec_classes_of(entries.drop_last()) + (match entries.last() {
            DocEntry::Class(c) => seq![c],
            _ => Seq::<ClassDocEntry>::empty(),
        })
    }
}

/// The function, property and type entries of a run, in input order.
pub open spec fn spec_members_of(entries: Seq<DocEntry>) -> Seq<DocEntry>
    decreases entries.len(),
{
    if entries.len() == 0 {
        Seq::<DocEntry>::empty()
    } else {
        spec_members_of(entries.drop_last()) + (match entries.last() {
            DocEntry::Class(c) => Seq::<DocEntry>::empty(),
            _ => seq![entries.last()],
        })
    }
}

/// The class a containing-class name resolves to: the last class whose name
/// or index alias equals it, a later class shadowing an earlier one.
pub open spec fn spec_resolve(classes: Seq<ClassDocEntry>, w: Seq<char>) -> Option<int>
    decreases classes.len(),
{
    if classes.len() == 0 {
        None
    } else if class_matches(classes.last(), w) {
        Some(classes.len() - 1)
    } else {
        spec_resolve(classes.drop_last(), w)
    }
}

/// The containing-class name a member entry carries.
pub open spec fn member_within(e: DocEntry) -> Seq<char> {
    match e {
        DocEntry::Function(f) => f.within@,
        DocEntry::Property(p) => p.within@,
        DocEntry::Type(t) => t.within@,
        DocEntry::Class(c) => Seq::<char>::empty(),
    }
}

/// The doc comment a member entry points diagnostics at.
pub open spec fn member_source(e: DocEntry) -> crate::doc_comment::CommentRef {
    match e {
        DocEntry::Function(f) => f.source,
        DocEntry::Property(p) => p.source,
        DocEntry::Type(t) => t.source,
        DocEntry::Class(c) => c.source,
    }
}

/// The members whose containing class resolves to no class of the run, in
/// order.
pub open spec fn spec_unresolved(members: Seq<DocEntry>, classes: Seq<ClassDocEntry>) -> Seq<
    DocEntry,
>
    decreases members.len(),
{
    if members.len() == 0 {
        Seq::<DocEntry>::empty()
    } else {
        spec_unresolved(members.drop_last(), classes) + (match spec_resolve(
            classes,
            member_within(members.last()),
        ) {
            Some(j) => Seq::<DocEntry>::empty(),
            None => seq![members.last()],
        })
    }
}

/// Lexicographic order on texts, by character.
pub open spec fn lex_le(a: Seq<char>, b: Seq<char>) -> bool
    decreases a.len(),
{
    if a.len() == 0 {
        true
    } else if b.len() == 0 {
        false
    } else if a[0] != b[0] {
        a[0] < b[0]
    } else {
        lex_le(a.skip(1), b.skip(1))
    }
}

/// Compares two string slices lexicographically by character.
fn str_le(a: &str, b: &str) -> (r: bool)
    ensures
        r == lex_le(a@, b@),
{
    let an: usize = a.unicode_len();
    let bn: usize = b.unicode_len();
    let mut i: usize = 0;
    proof {
        assert(a@.skip(0) =~= a@);
        assert(b@.skip(0) =~= b@);
    }
    while i < an && i < bn
        invariant
            an == a@.len(),
            bn == b@.len(),
            0 <= i <= an,
            i <= bn,
            lex_le(a@, b@) == lex_le(a@.skip(i as int), b@.skip(i as int)),
            forall|k: int| 0 <= k < i ==> a@[k] == b@[k],
        decreases an - i,
    {
        proof {
            assert(a@.skip(i as int)[0] == a@[i as int]);
            assert(b@.skip(i as int)[0] == b@[i as int]);
            assert(a@.skip(i as int).skip(1) =~= a@.skip(i + 1));
            assert(b@.skip(i as int).skip(1) =~= b@.skip(i + 1));
        }
        let ca = a.get_char(i);
        let cb = b.get_char(i);
        if ca != cb {
            return ca < cb;
        }
        i = i + 1;
    }
    proof {
        if i >= an {
            assert(a@.skip(i as int).len() == 0);
        } else {
            assert(b@.skip(i as int).len() == 0);
            assert(a@.skip(i as int).len() > 0);
        }
    }
    an <= bn
}

/// Whether a run of output classes is ordered by class name.
pub open spec fn classes_sorted(v: Seq<OutputClass>) -> bool {
    forall|i: int, j: int|
        0 <= i < j < v.len() ==> lex_le((#[trigger] v[i]).class.name@, (#[trigger] v[j]).class.name@)
}

/// The order is total: of two names, one is below the other.
proof fn lemma_lex_total(a: Seq<char>, b: Seq<char>)
    ensures
        lex_le(a, b) || lex_le(b, a),
    decreases a.len(),
{
    if a.len() == 0 {
    } else if b.len() == 0 {
    } else if a[0] != b[0] {
    } else {
        lemma_lex_total(a.skip(1), b.skip(1));
    }
}

/// Inserting before the first larger name keeps the run ordered.
proof fn lemma_sorted_insert(v: Seq<OutputClass>, item: OutputClass, pos: int)
    requires
        classes_sorted(v),
        0 <= pos <= v.len(),
        forall|k: int| 0 <= k < pos ==> lex_le((#[trigger] v[k]).class.name@, item.class.name@),
        pos < v.len() ==> lex_le(item.class.name@, v[pos].class.name@),
    ensures
        classes_sorted(v.insert(pos, item)),
{
    let w = v.insert(pos, item);
    assert forall|i: int, j: int| 0 <= i < j < w.len() implies lex_le(
        (#[trigger] w[i]).class.name@,
        (#[trigger] w[j]).class.name@,
    ) by {
        lemma_lex_trans_all();
        if i < pos {
            assert(w[i] == v[i]);
        } else if i == pos {
            assert(w[i] == item);
        } else {
            assert(w[i] == v[i - 1]);
        }
        if j < pos {
            assert(w[j] == v[j]);
        } else if j == pos {
            assert(w[j] == item);
        } else {
            assert(w[j] == v[j - 1]);
        }
    }
}

/// The order is transitive.
proof fn lemma_lex_trans(a: Seq<char>, b: Seq<char>, c: Seq<char>)
    requires
        lex_le(a, b),
        lex_le(b, c),
    ensures
        lex_le(a, c),
    decreases a.len() + b.len() + c.len(),
{
    if a.len() == 0 {
    } else if b.len() == 0 {
    } else if c.len() == 0 {
    } else {
        if a[0] == b[0] && b[0] == c[0] {
            lemma_lex_trans(a.skip(1), b.skip(1), c.skip(1));
        }
    }
}

/// Transitivity, quantified for the sorting proofs.
proof fn lemma_lex_trans_all()
    ensures
        forall|a: Seq<char>, b: Seq<char>, c: Seq<char>|
            #[trigger] lex_le(a, b) && #[trigger] lex_le(b, c) ==> lex_le(a, c),
{
    assert forall|a: Seq<char>, b: Seq<char>, c: Seq<char>|
        #[trigger] lex_le(a, b) && #[trigger] lex_le(b, c) implies lex_le(a, c) by {
        lemma_lex_trans(a, b, c);
    }
}

/// One output class as its plain parts.
pub struct OutputClassModel {
    pub class: ClassDocEntry,
    pub functions: Seq<FunctionDocEntry>,
    pub properties: Seq<PropertyDocEntry>,
    pub types: Seq<TypeDocEntry>,
}

/// The parts of an output class.
pub open spec fn oc_model(oc: OutputClass) -> OutputClassModel {
    OutputClassModel {
        class: oc.class,
        functions: oc.functions@,
        properties: oc.properties@,
        types: oc.types@,
    }
}

/// The parts of a list of output classes.
pub open spec fn oc_models(v: Seq<OutputClass>) -> Seq<OutputClassModel> {
    v.map_values(|oc: OutputClass| oc_model(oc))
}

/// The class entries of a grouped list.
pub open spec fn model_classes(g: Seq<OutputClassModel>) -> Seq<ClassDocEntry> {
    g.map_values(|m: OutputClassModel| m.class)
}

/// One output class per class entry, all buckets empty.
pub open spec fn init_group(classes: Seq<ClassDocEntry>) -> Seq<OutputClassModel> {
    classes.map_values(
        |c: ClassDocEntry|
            OutputClassModel {
                class: c,
                functions: Seq::<FunctionDocEntry>::empty(),
                properties: Seq::<PropertyDocEntry>::empty(),
                types: Seq::<TypeDocEntry>::empty(),
            },
    )
}

/// One member appended to the matching bucket of the class its containing
/// name resolves to; a member that resolves nowhere changes nothing.
pub open spec fn apply_member(g: Seq<OutputClassModel>, e: DocEntry) -> Seq<OutputClassModel> {
    match spec_resolve(model_classes(g), member_within(e)) {
        None => g,
        Some(j) => {
            if 0 <= j < g.len() {
                let m = g[j];
                g.update(
                    j,
                    match e {
                        DocEntry::Function(f) => OutputClassModel {
                            functions: m.functions.push(f),
                            ..m
                        },
                        DocEntry::Property(p) => OutputClassModel {
                            properties: m.properties.push(p),
                            ..m
                        },
                        DocEntry::Type(t) => OutputClassModel { types: m.types.push(t), ..m },
                        DocEntry::Class(c) => m,
                    },
                )
            } else {
                g
            }
        },
    }
}

/// Every member applied, in input order.
pub open spec fn spec_group(members: Seq<DocEntry>, g: Seq<OutputClassModel>) -> Seq<
    OutputClassModel,
>
    decreases members.len(),
{
    if members.len() == 0 {
        g
    } else {
        apply_member(spec_group(members.drop_last(), g), members.last())
    }
}

/// An output class inserted before the first strictly later name, so equal
/// names keep their arrival order.
pub open spec fn spec_insert_class(
    sorted: Seq<OutputClassModel>,
    item: OutputClassModel,
) -> Seq<OutputClassModel>
    decreases sorted.len(),
{
    if sorted.len() == 0 {
        seq![item]
    } else if lex_le(sorted[0].class.name@, item.class.name@) {
        seq![sorted[0]] + spec_insert_class(sorted.skip(1), item)
    } else {
        seq![item] + sorted
    }
}

/// Insertion sort by class name, stable for equal names.
pub open spec fn spec_sort_from(
    acc: Seq<OutputClassModel>,
    v: Seq<OutputClassModel>,
) -> Seq<OutputClassModel>
    decreases v.len(),
{
    if v.len() == 0 {
        acc
    } else {
        spec_sort_from(spec_insert_class(acc, v[0]), v.skip(1))
    }
}

/// The sorted grouped classes.
pub open spec fn spec_sort_classes(v: Seq<OutputClassModel>) -> Seq<OutputClassModel> {
    spec_sort_from(Seq::<OutputClassModel>::empty(), v)
}

/// The whole grouping as one value: the run's class entries with every
/// resolving member attached in input order, sorted by class name.
pub open spec fn spec_into_classes(entries: Seq<DocEntry>) -> Seq<OutputClassModel> {
    spec_sort_classes(spec_group(spec_members_of(entries), init_group(spec_classes_of(entries))))
}

/// The message an orphaned member gets.
pub open spec fn orphan_message(w: Seq<char>) -> Seq<char> {
    "This entry's parent class \""@ + w + "\" is missing a doc entry"@
}

/// Splits a run into its class entries (with empty buckets) and its member
/// entries, both in input order.
fn partition_entries(entries: Vec<DocEntry>) -> (r: (Vec<OutputClass>, Vec<DocEntry>))
    ensures
        oc_models(r.0@) == init_group(spec_classes_of(entries@)),
        r.1@ == spec_members_of(entries@),
{
    let ghost orig = entries@;
    let mut entries = entries;
    let mut classes: Vec<OutputClass> = Vec::new();
    let mut rest: Vec<DocEntry> = Vec::new();
    let ghost mut done = Seq::<DocEntry>::empty();
    proof {
        assert(done + entries@ =~= orig);
        assert(spec_classes_of(done) =~= Seq::<ClassDocEntry>::empty());
        assert(oc_models(classes@) =~= init_group(spec_classes_of(done)));
        assert(rest@ =~= spec_members_of(done));
    }
    while entries.len() > 0
        invariant
            done + entries@ =~= orig,
            oc_models(classes@) == init_group(spec_classes_of(done)),
            rest@ == spec_members_of(done),
        decreases entries@.len(),
    {
        let entry = entries.remove(0);
        let ghost done2 = done.push(entry);
        proof {
            assert(done2.drop_last() =~= done);
            assert(done2 + entries@ =~= orig);
        }
        match entry {
            DocEntry::Class(class) => {
                let ghost before = oc_models(classes@);
                classes.push(
                    OutputClass {
                        functions: Vec::new(),
                        properties: Vec::new(),
                        types: Vec::new(),
                        class,
                    },
                );
                proof {
                    assert(spec_classes_of(done2) =~= spec_classes_of(done).push(class));
                    assert(oc_models(classes@) =~= before.push(
                        OutputClassModel {
                            class,
                            functions: Seq::<FunctionDocEntry>::empty(),
                            properties: Seq::<PropertyDocEntry>::empty(),
                            types: Seq::<TypeDocEntry>::empty(),
                        },
                    ));
                    assert(oc_models(classes@) =~= init_group(spec_classes_of(done2)));
                    assert(rest@ =~= spec_members_of(done2));
                }
            },
            other => {
                rest.push(other);
                proof {
                    assert(spec_classes_of(done2) =~= spec_classes_of(done));
                    assert(oc_models(classes@) =~= init_group(spec_classes_of(done2)));
                    assert(rest@ =~= spec_members_of(done2));
                }
            },
        }
        proof {
            done = done2;
        }
    }
    proof {
        assert(done =~= orig);
    }
    (classes, rest)
}

/// The class a containing-class name resolves to among the given output
/// classes, exactly as `spec_resolve` says.
fn resolve_target(classes: &Vec<OutputClass>, within: &str) -> (r: Option<usize>)
    ensures
        match r {
            Some(j) => j < classes@.len() && spec_resolve(
                model_classes(oc_models(classes@)),
                within@,
            ) == Some(j as int),
            None => spec_resolve(model_classes(oc_models(classes@)), within@) is None,
        },
{
    let ghost cls = model_classes(oc_models(classes@));
    let cn = classes.len();
    let mut j: usize = cn;
    proof {
        assert(cls.take(cn as int) =~= cls);
        reveal_strlit(".");
    }
    while j > 0
        invariant
            cn == classes@.len(),
            cls == model_classes(oc_models(classes@)),
            0 <= j <= cn,
            spec_resolve(cls, within@) == spec_resolve(cls.take(j as int), within@),
        decreases j,
    {
        proof {
            reveal_strlit(".");
            assert(cls.take(j as int).drop_last() =~= cls.take(j - 1));
            assert(cls.take(j as int).last() == cls[j - 1]);
            assert(cls[j - 1] == classes@[j - 1].class);
        }
        let name_match = crate::text::str_eq(
            classes[j - 1].class.name.as_str(),
            within,
        );
        let alias_match = if name_match {
            true
        } else {
            let mut alias = classes[j - 1].class.name.clone();
            alias.append(".");
            alias.append(classes[j - 1].class.__index.as_str());
            proof {
                assert(alias@ =~= classes@[j - 1].class.name@ + seq!['.'] + classes@[
                j - 1].class.__index@);
            }
            crate::text::str_eq(alias.as_str(), within)
        };
        if alias_match {
            proof {
                assert(class_matches(cls[j - 1], within@));
            }
            return Some(j - 1);
        }
        proof {
            assert(!class_matches(cls[j - 1], within@));
        }
        j = j - 1;
    }
    proof {
        assert(cls.take(0) =~= Seq::<ClassDocEntry>::empty());
    }
    None
}

/// Attaches every member to the bucket of the class its containing name
/// resolves to, in input order; each member that resolves nowhere yields one
/// orphan diagnostic pointing at its doc comment, in order.
#[verifier::rlimit(100)]
fn attach_members(classes: Vec<OutputClass>, members: Vec<DocEntry>) -> (r: (
    Vec<OutputClass>,
    Vec<Diagnostic>,
))
    ensures
        oc_models(r.0@) == spec_group(members@, oc_models(classes@)),
        r.1@.len() == spec_unresolved(members@, model_classes(oc_models(classes@))).len(),
        forall|k: int|
            0 <= k < r.1@.len() ==> ({
                let un = spec_unresolved(members@, model_classes(oc_models(classes@)));
                &&& (#[trigger] r.1@[k]).spec_text() == orphan_message(member_within(un[k]))
                &&& r.1@[k].spec_start() == member_source(un[k]).start
                &&& r.1@[k].spec_len() == member_source(un[k]).comment_len
                &&& r.1@[k].spec_file_id() == member_source(un[k]).file_id
                &&& r.1@[k].spec_additional().len() == 0
            }),
{
    let ghost g0 = oc_models(classes@);
    let ghost cls0 = model_classes(g0);
    let ghost all = members@;
    let mut classes = classes;
    let mut members = members;
    let mut diagnostics: Vec<Diagnostic> = Vec::new();
    let ghost mut p: int = 0;
    proof {
        assert(all.skip(0) =~= all);
        assert(all.take(0) =~= Seq::<DocEntry>::empty());
        assert(spec_group(all.take(0), g0) == g0);
        assert(spec_unresolved(all.take(0), cls0) =~= Seq::<DocEntry>::empty());
    }
    while members.len() > 0
        invariant
            0 <= p <= all.len(),
            members@ =~= all.skip(p),
            oc_models(classes@) == spec_group(all.take(p), g0),
            model_classes(oc_models(classes@)) =~= cls0,
            diagnostics@.len() == spec_unresolved(all.take(p), cls0).len(),
            forall|k: int|
                0 <= k < diagnostics@.len() ==> ({
                    let un = spec_unresolved(all.take(p), cls0);
                    &&& (#[trigger] diagnostics@[k]).spec_text() == orphan_message(
                        member_within(un[k]),
                    )
                    &&& diagnostics@[k].spec_start() == member_source(un[k]).start
                    &&& diagnostics@[k].spec_len() == member_source(un[k]).comment_len
                    &&& diagnostics@[k].spec_file_id() == member_source(un[k]).file_id
                    &&& diagnostics@[k].spec_additional().len() == 0
                }),
        decreases members@.len(),
    {
        let ghost current = all[p];
        let entry = members.remove(0);
        proof {
            assert(entry == all[p]);
            assert(members@ =~= all.skip(p + 1));
            assert(all.take(p + 1).drop_last() =~= all.take(p));
            assert(all.take(p + 1).last() == current);
        }
        let (within, source) = match &entry {
            DocEntry::Function(e) => (e.within.clone(), e.source),
            DocEntry::Property(e) => (e.within.clone(), e.source),
            DocEntry::Type(e) => (e.within.clone(), e.source),
            DocEntry::Class(e) => (String::new(), e.source),
        };
        proof {
            assert(within@ == member_within(current));
            assert(source == member_source(current));
        }
        let ghost before = oc_models(classes@);
        let found = resolve_target(&classes, within.as_str());
        match found {
            Some(j2) => {
                let target = classes.remove(j2);
                let mut target = target;
                match entry {
                    DocEntry::Function(e) => {
                        target.functions.push(e);
                    },
                    DocEntry::Property(e) => {
                        target.properties.push(e);
                    },
                    DocEntry::Type(e) => {
                        target.types.push(e);
                    },
                    DocEntry::Class(e) => {},
                }
                classes.insert(j2, target);
                proof {
                    assert(oc_models(classes@) =~= before.update(
                        j2 as int,
                        oc_model(target),
                    ));
                    assert(oc_models(classes@) =~= apply_member(before, current));
                    assert(model_classes(oc_models(classes@)) =~= cls0);
                    assert(spec_unresolved(all.take(p + 1), cls0) =~= spec_unresolved(
                        all.take(p),
                        cls0,
                    ));
                }
            },
            None => {
                let mut msg = String::from_str("This entry's parent class \"");
                msg.append(within.as_str());
                msg.append("\" is missing a doc entry");
                let d = source.diagnostic(msg.as_str());
                diagnostics.push(d);
                proof {
                    assert(oc_models(classes@) =~= apply_member(before, current));
                    assert(spec_unresolved(all.take(p + 1), cls0) =~= spec_unresolved(
                        all.take(p),
                        cls0,
                    ).push(current));
                }
            },
        }
        proof {
            p = p + 1;
        }
    }
    proof {
        assert(all.take(p) =~= all);
    }
    (classes, diagnostics)
}

/// Inserting at the scanned position is the stable insertion.
proof fn lemma_spec_insert_at(acc: Seq<OutputClassModel>, item: OutputClassModel, pos: int)
    requires
        0 <= pos <= acc.len(),
        forall|k: int| 0 <= k < pos ==> lex_le((#[trigger] acc[k]).class.name@, item.class.name@),
        pos < acc.len() ==> !lex_le(acc[pos].class.name@, item.class.name@),
    ensures
        spec_insert_class(acc, item) == acc.insert(pos, item),
    decreases pos,
{
    if acc.len() == 0 {
        assert(spec_insert_class(acc, item) =~= acc.insert(0, item));
    } else if pos == 0 {
        assert(seq![item] + acc =~= acc.insert(0, item));
    } else {
        assert(lex_le(acc[0].class.name@, item.class.name@));
        lemma_spec_insert_at(acc.skip(1), item, pos - 1);
        assert(forall|k: int| 0 <= k < acc.skip(1).len() ==> acc.skip(1)[k] == acc[k + 1]);
        assert(seq![acc[0]] + acc.skip(1).insert(pos - 1, item) =~= acc.insert(pos, item));
    }
}

/// Sorts the grouped classes by name, stable for equal names, exactly as
/// `spec_sort_classes` says.
fn sort_output(classes: Vec<OutputClass>) -> (r: Vec<OutputClass>)
    ensures
        oc_models(r@) == spec_sort_classes(oc_models(classes@)),
        classes_sorted(r@),
{
    let ghost g0 = oc_models(classes@);
    let mut classes = classes;
    let mut sorted: Vec<OutputClass> = Vec::new();
    proof {
        assert(oc_models(sorted@) =~= Seq::<OutputClassModel>::empty());
        assert(spec_sort_from(oc_models(sorted@), oc_models(classes@)) == spec_sort_classes(g0));
    }
    while classes.len() > 0
        invariant
            spec_sort_from(oc_models(sorted@), oc_models(classes@)) == spec_sort_classes(g0),
            classes_sorted(sorted@),
        decreases classes@.len(),
    {
        let ghost acc = oc_models(sorted@);
        let ghost rem = oc_models(classes@);
        let item = classes.remove(0);
        proof {
            assert(oc_model(item) == rem[0]);
            assert(oc_models(classes@) =~= rem.skip(1));
        }
        let sn = sorted.len();
        let mut pos: usize = 0;
        while pos < sn && str_le(sorted[pos].class.name.as_str(), item.class.name.as_str())
            invariant
                sn == sorted@.len(),
                acc == oc_models(sorted@),
                0 <= pos <= sn,
                forall|k: int|
                    0 <= k < pos ==> lex_le(
                        (#[trigger] sorted@[k]).class.name@,
                        item.class.name@,
                    ),
            decreases sn - pos,
        {
            pos = pos + 1;
        }
        proof {
            if pos < sn {
                lemma_lex_total(sorted@[pos as int].class.name@, item.class.name@);
            }
            lemma_sorted_insert(sorted@, item, pos as int);
            assert(forall|k: int| 0 <= k < acc.len() ==> (#[trigger] acc[k]).class.name@
                == sorted@[k].class.name@);
            lemma_spec_insert_at(acc, oc_model(item), pos as int);
        }
        sorted.insert(pos, item);
        proof {
            assert(oc_models(sorted@) =~= acc.insert(pos as int, oc_model(item)));
            assert(oc_models(sorted@) == spec_insert_class(acc, oc_model(item)));
        }
    }
    proof {
        assert(oc_models(classes@).len() == 0);
        assert(oc_models(classes@) =~= Seq::<OutputClassModel>::empty());
    }
    sorted
}

/// Groups a run\'s entries by class, exactly as `spec_into_classes` says:
/// every class entry becomes one output class, later ones keeping their own
/// identity even under a repeated name, emitted in ascending name order;
/// each function, property or type entry joins the bucket of the last class
/// whose name or index alias equals its containing name, in input order.
/// The run fails exactly when some member resolves to no class, with one
/// diagnostic per such member, in order, each naming the missing class and
/// pointing at the member\'s own doc comment.
pub fn into_classes(entries: Vec<DocEntry>) -> (r: Result<Vec<OutputClass>, Diagnostics>)
    ensures
        ({
            let cls = spec_classes_of(entries@);
            let members = spec_members_of(entries@);
            let un = spec_unresolved(members, cls);
            match r {
                Ok(classes) => un.len() == 0 && oc_models(classes@) == spec_into_classes(entries@)
                    && classes_sorted(classes@),
                Err(ds) => un.len() > 0 && ds.spec_errors().len() == un.len() && (forall|k: int|
                    0 <= k < un.len() ==> ((#[trigger] ds.spec_errors()[k]).spec_text()
                        == orphan_message(member_within(un[k])) && ds.spec_errors()[k].spec_start()
                        == member_source(un[k]).start && ds.spec_errors()[k].spec_len()
                        == member_source(un[k]).comment_len && ds.spec_errors()[k].spec_file_id()
                        == member_source(un[k]).file_id)),
            }
        }),
{
    let ghost cls = spec_classes_of(entries@);
    let (classes, members) = partition_entries(entries);
    proof {
        assert(model_classes(oc_models(classes@)) =~= cls);
    }
    let (classes, diagnostics) = attach_members(classes, members);
    if diagnostics.len() > 0 {
        return Err(Diagnostics::from(diagnostics));
    }
    let sorted = sort_output(classes);
    Ok(sorted)
}

/// Whether every doc comment of a file yields an entry.
pub open spec fn file_ok(f: SourceFile) -> bool {
    forall|i: int|
        0 <= i < f.spec_comments().len() ==> crate::doc_entry::spec_entry_ok(
            (#[trigger] f.spec_comments()[i]).spec_comment(),
            f.spec_comments()[i].spec_stmt(),
        )
}

/// Whether every doc comment of every file yields an entry.
pub open spec fn files_all_ok(fs: Seq<SourceFile>) -> bool {
    forall|k: int| 0 <= k < fs.len() ==> file_ok(#[trigger] fs[k])
}

/// Whether a file's entries are one per comment, in order, each carrying
/// its comment's classification.
pub open spec fn file_entries_match(
    es: Seq<DocEntry>,
    cs: Seq<crate::doc_comment::DocComment>,
) -> bool {
    es.len() == cs.len() && (forall|i: int|
        0 <= i < es.len() ==> (match crate::doc_entry::spec_comment_models(
            (#[trigger] cs[i]).spec_comment(),
        ) {
            Some(ms) => (match crate::doc_entry::m_kind(ms, cs[i].spec_stmt()) {
                Some(k) => crate::doc_entry::entry_matches_kind(es[i], k),
                None => false,
            }),
            None => false,
        }))
}

/// Whether a run's entries are the files' entries concatenated in file
/// order, each file contributing one entry per comment in order.
pub open spec fn run_entries_match(es: Seq<DocEntry>, fs: Seq<SourceFile>) -> bool
    decreases fs.len(),
{
    if fs.len() == 0 {
        es.len() == 0
    } else {
        let m = fs.last().spec_comments().len() as int;
        &&& es.len() >= m
        &&& run_entries_match(es.take(es.len() - m), fs.drop_last())
        &&& file_entries_match(es.skip(es.len() - m), fs.last().spec_comments())
    }
}

/// What a doc comment classifies as, if it classifies.
pub open spec fn comment_kind(c: crate::doc_comment::DocComment) -> Option<
    crate::doc_entry::KindModel,
> {
    match crate::doc_entry::spec_comment_models(c.spec_comment()) {
        Some(ms) => crate::doc_entry::m_kind(ms, c.spec_stmt()),
        None => None,
    }
}

/// Whether every doc comment of every file classifies as a class.
pub open spec fn all_classes(fs: Seq<SourceFile>) -> bool {
    forall|k: int, i: int|
        0 <= k < fs.len() && 0 <= i < (#[trigger] fs[k]).spec_comments().len() ==> (match
            comment_kind(#[trigger] fs[k].spec_comments()[i]) {
            Some(kind) => kind is Class,
            _ => false,
        })
}

/// A run of class entries alone has no members.
proof fn lemma_no_members(entries: Seq<DocEntry>)
    requires
        forall|k: int| 0 <= k < entries.len() ==> (#[trigger] entries[k]) is Class,
    ensures
        spec_members_of(entries).len() == 0,
    decreases entries.len(),
{
    if entries.len() > 0 {
        lemma_no_members(entries.drop_last());
    }
}

/// Runs the grouped pipeline over every file's recovered comments: parses
/// each file's entries, then groups the whole run's entries by class.  A
/// successful run means every comment of every file yielded an entry; and
/// when every comment does, the only failure left is the grouping's, carried
/// as one diagnostics error.
pub fn generate_docs(source_files: &Vec<SourceFile>) -> (r: Result<Vec<OutputClass>, Vec<Error>>)
    ensures
        match r {
            Ok(classes) => classes_sorted(classes@) && files_all_ok(source_files@) && (exists|
                es: Seq<DocEntry>,
            |
                #[trigger] run_entries_match(es, source_files@) && oc_models(classes@)
                    == spec_into_classes(es)),
            Err(errors) => errors@.len() > 0,
        },
        files_all_ok(source_files@) ==> (match r {
            Ok(classes) => true,
            Err(errors) => errors@.len() == 1 && errors@[0] is ParseErrors,
        }),
        files_all_ok(source_files@) && all_classes(source_files@) ==> r is Ok,
{
    let ghost hyp = files_all_ok(source_files@) && all_classes(source_files@);
    let mut errors: Vec<Error> = Vec::new();
    let mut entries: Vec<DocEntry> = Vec::new();
    let n = source_files.len();
    let mut i: usize = 0;
    while i < n
        invariant
            hyp == (files_all_ok(source_files@) && all_classes(source_files@)),
            n == source_files@.len(),
            0 <= i <= n,
            (errors@.len() == 0) <==> (forall|k: int|
                0 <= k < i ==> file_ok(#[trigger] source_files@[k])),
            hyp ==> (forall|k: int| 0 <= k < entries@.len() ==> (#[trigger] entries@[k]) is Class),
            errors@.len() == 0 ==> run_entries_match(entries@, source_files@.take(i as int)),
        decreases n - i,
    {
        proof {
            assert(source_files@.take(i + 1).drop_last() =~= source_files@.take(i as int));
            assert(source_files@.take(i + 1).last() == source_files@[i as int]);
        }
        let ghost prior = entries@;
        match source_files[i].parse() {
            Ok(mut file_entries) => {
                let ghost fcs = source_files@[i as int].spec_comments();
                let ghost fe = file_entries@;
                proof {
                    if hyp {
                        assert forall|k: int|
                            0 <= k < file_entries@.len() implies (#[trigger] file_entries@[k])
                            is Class by {
                            assert(comment_kind(fcs[k]) matches Some(kk) ==> kk is Class);
                        }
                    }
                }
                let ghost mut dc: int = 0;
                proof {
                    assert(entries@ =~= prior + fe.take(0));
                    assert(file_entries@ =~= fe.skip(0));
                }
                while file_entries.len() > 0
                    invariant
                        0 <= dc <= fe.len(),
                        entries@ =~= prior + fe.take(dc),
                        file_entries@ =~= fe.skip(dc),
                        hyp ==> (forall|k: int|
                            0 <= k < entries@.len() ==> (#[trigger] entries@[k]) is Class),
                        hyp ==> (forall|k: int|
                            0 <= k < file_entries@.len() ==> (#[trigger] file_entries@[k])
                                is Class),
                    decreases file_entries@.len(),
                {
                    proof {
                        assert(fe.take(dc + 1).drop_last() =~= fe.take(dc));
                        assert(fe.take(dc + 1).last() == fe[dc]);
                        assert(file_entries@[0] == fe[dc]);
                    }
                    let e = file_entries.remove(0);
                    entries.push(e);
                    proof {
                        assert(entries@ =~= prior + fe.take(dc + 1));
                        assert(file_entries@ =~= fe.skip(dc + 1));
                        dc = dc + 1;
                    }
                }
                proof {
                    assert(fe.take(dc) =~= fe);
                    assert(entries@ =~= prior + fe);
                    if errors@.len() == 0 {
                        let kk = prior.len() as int;
                        assert(entries@.take(kk) =~= prior);
                        assert(entries@.skip(kk) =~= fe);
                        assert(file_entries_match(fe, fcs));
                        assert(run_entries_match(
                            entries@.take(kk),
                            source_files@.take(i + 1).drop_last(),
                        ));
                        assert(file_entries_match(
                            entries@.skip(kk),
                            source_files@.take(i + 1).last().spec_comments(),
                        ));
                        assert(source_files@.take(i + 1).len() > 0);
                        assert(run_entries_match(entries@, source_files@.take(i + 1)));
                    }
                }
            },
            Err(e) => {
                errors.push(e);
            },
        }
        i = i + 1;
    }
    proof {
        assert(source_files@.take(n as int) =~= source_files@);
    }
    let ghost all_entries = entries@;
    match into_classes(entries) {
        Ok(classes) => {
            if errors.len() == 0 {
                proof {
                    assert(run_entries_match(all_entries, source_files@));
                    assert(oc_models(classes@) == spec_into_classes(all_entries));
                }
                Ok(classes)
            } else {
                Err(errors)
            }
        },
        Err(diagnostics) => {
            proof {
                if hyp {
                    lemma_no_members(all_entries);
                    assert(spec_unresolved(
                        spec_members_of(all_entries),
                        spec_classes_of(all_entries),
                    ).len() == 0);
                }
            }
            errors.push(Error::ParseErrors(diagnostics));
            Err(errors)
        },
    }
}

} // verus!
