//! The class documentation entry: the container functions, properties and
//! types are grouped under.

use vstd::prelude::*;

use crate::diagnostic::{Diagnostic, Diagnostics};
use crate::doc_comment::{CommentRef, OutputSource};
use crate::doc_entry::{
    custom_names, dep_view, opt_string_view, shared_consumes, spec_customs, spec_last_deprecated,
    spec_last_index, spec_last_since, DocEntryParseArguments, SharedAcc,
};
use crate::realm::{build_realm, realm_sorted, Realm};
use crate::tags::validation::{has_type, types_of};
use crate::tags::{spec_tag_type, CustomTag, DeprecatedTag, Tag, TagType};

verus! {

/// The tag kinds a class entry consumes.
pub open spec fn class_consumes(t: TagType) -> bool {
    shared_consumes(t) || t == TagType::Index
}

/// The tags a class entry rejects, in order.
pub open spec fn spec_unused_class(tags: Seq<Tag>) -> Seq<Tag>
    decreases tags.len(),
{
    if tags.len() == 0 {
        Seq::<Tag>::empty()
    } else {
        spec_unused_class(tags.drop_last()) + (if class_consumes(spec_tag_type(tags.last())) {
            Seq::<Tag>::empty()
        } else {
            seq![tags.last()]
        })
    }
}

/// A rejected tag exists exactly when the rejected list is non-empty.
pub proof fn lemma_unused_class_exists(tags: Seq<Tag>)
    ensures
        (spec_unused_class(tags).len() > 0) <==> (exists|i: int|
            0 <= i < tags.len() && !class_consumes(spec_tag_type(#[trigger] tags[i]))),
    decreases tags.len(),
{
    if tags.len() > 0 {
        lemma_unused_class_exists(tags.drop_last());
        if !class_consumes(spec_tag_type(tags.last())) {
            assert(!class_consumes(spec_tag_type(tags[tags.len() - 1])));
        }
        if exists|i: int| 0 <= i < tags.len() && !class_consumes(spec_tag_type(#[trigger] tags[i])) {
            let w = choose|i: int|
                0 <= i < tags.len() && !class_consumes(spec_tag_type(#[trigger] tags[i]));
            if w < tags.len() - 1 {
                assert(!class_consumes(spec_tag_type(tags.drop_last()[w])));
            }
        }
    }
}

/// A documentation entry for a class.
pub struct ClassDocEntry {
    pub name: String,
    pub desc: String,
    pub tags: Vec<CustomTag>,
    pub realm: Vec<Realm>,
    pub deprecated: Option<DeprecatedTag>,
    pub since: Option<String>,
    pub private: bool,
    pub unreleased: bool,
    pub ignore: bool,
    pub output_source: OutputSource,
    pub __index: String,
    pub source: CommentRef,
}

impl ClassDocEntry {
    /// Builds a class entry from the leftover tags.  Metadata, custom
    /// labels, flags, realms and the `@__index` alias are consumed; any
    /// other tag is rejected, one diagnostic each.
    pub fn parse(args: DocEntryParseArguments) -> (r: Result<ClassDocEntry, Diagnostics>)
        ensures
            match r {
                Ok(e) => {
                    &&& e.name@ == args.name@
                    &&& e.desc@ == args.desc@
                    &&& e.output_source == args.output_source
                    &&& e.source == args.source
                    &&& custom_names(e.tags@) == spec_customs(args.tags@)
                    &&& dep_view(e.deprecated) == spec_last_deprecated(args.tags@)
                    &&& opt_string_view(e.since) == spec_last_since(args.tags@)
                    &&& e.__index@ == (match spec_last_index(args.tags@) {
                        Some(n) => n,
                        None => "__index"@,
                    })
                    &&& e.private == has_type(types_of(args.tags@), TagType::Private)
                    &&& e.unreleased == has_type(types_of(args.tags@), TagType::Unreleased)
                    &&& e.ignore == has_type(types_of(args.tags@), TagType::Ignore)
                    &&& realm_sorted(e.realm@)
                    &&& (forall|x: Realm|
                        e.realm@.contains(x) <==> ((x == Realm::Client && has_type(
                            types_of(args.tags@),
                            TagType::Client,
                        )) || (x == Realm::Server && has_type(types_of(args.tags@), TagType::Server))
                            || (x == Realm::Plugin && has_type(
                            types_of(args.tags@),
                            TagType::Plugin,
                        ))))
                    &&& (forall|i: int|
                        0 <= i < args.tags@.len() ==> class_consumes(
                            spec_tag_type(#[trigger] args.tags@[i]),
                        ))
                },
                Err(ds) => {
                    let unused = spec_unused_class(args.tags@);
                    &&& unused.len() > 0
                    &&& ds.spec_errors().len() == unused.len()
                    &&& (forall|k: int|
                        0 <= k < unused.len() ==> ((#[trigger] ds.spec_errors()[k]).spec_text()
                            == "This tag is unused by class doc entries."@
                            && crate::diagnostic::diag_points_at(
                            &ds.spec_errors()[k],
                            &crate::tags::spec_source_of(unused[k]),
                        ) && ds.spec_errors()[k].spec_additional().len() == 0))
                },
            },
    {
        let DocEntryParseArguments { name, tags, desc, within: _, output_source, source } = args;
        let ghost orig = tags@;
        let mut tags = tags;
        let ghost mut done = Seq::<Tag>::empty();

        let mut acc = SharedAcc::new();
        let mut index_name: Option<String> = None;
        let mut unused: Vec<Tag> = Vec::new();

        proof {
            assert(done + tags@ =~= orig);
            assert(spec_customs(done) =~= Seq::<Seq<char>>::empty());
            assert(types_of(done) =~= Seq::<TagType>::empty());
        }
        while tags.len() > 0
            invariant
                done + tags@ =~= orig,
                custom_names(acc.tags@) == spec_customs(done),
                dep_view(acc.deprecated) == spec_last_deprecated(done),
                opt_string_view(acc.since) == spec_last_since(done),
                opt_string_view(index_name) == spec_last_index(done),
                acc.private == has_type(types_of(done), TagType::Private),
                acc.unreleased == has_type(types_of(done), TagType::Unreleased),
                acc.ignore == has_type(types_of(done), TagType::Ignore),
                acc.client == has_type(types_of(done), TagType::Client),
                acc.server == has_type(types_of(done), TagType::Server),
                acc.plugin == has_type(types_of(done), TagType::Plugin),
                unused@ == spec_unused_class(done),
            decreases tags@.len(),
        {
            let tag = tags.remove(0);
            let ghost done2 = done.push(tag);
            proof {
                assert(done2.drop_last() =~= done);
                assert(done2 + tags@ =~= orig);
                crate::doc_entry::lemma_types_push(done, tag);
            }
            let ghost old_unused = unused@;
            match tag {
                Tag::Index(t) => {
                    index_name = Some(t.name.to_string());
                },
                other => {
                    match acc.apply(other) {
                        Some(left) => {
                            unused.push(left);
                        },
                        None => {},
                    }
                },
            }
            proof {
                assert(unused@ =~= spec_unused_class(done2));
                done = done2;
            }
        }
        proof {
            assert(done =~= orig);
        }

        if unused.len() > 0 {
            let mut diagnostics: Vec<Diagnostic> = Vec::new();
            let un = unused.len();
            let mut i: usize = 0;
            while i < un
                invariant
                    un == unused@.len(),
                    unused@ == spec_unused_class(orig),
                    0 <= i <= un,
                    diagnostics@.len() == i,
                    forall|k: int|
                        0 <= k < i ==> ((#[trigger] diagnostics@[k]).spec_text()
                            == "This tag is unused by class doc entries."@
                            && crate::diagnostic::diag_points_at(
                            &diagnostics@[k],
                            &crate::tags::spec_source_of(unused@[k]),
                        ) && diagnostics@[k].spec_additional().len() == 0),
                decreases un - i,
            {
                diagnostics.push(unused[i].diagnostic("This tag is unused by class doc entries."));
                i = i + 1;
            }
            return Err(Diagnostics::from(diagnostics));
        }
        proof {
            lemma_unused_class_exists(orig);
        }

        let __index: String = match index_name {
            Some(s) => s,
            None => String::from_str("__index"),
        };
        let realm = build_realm(acc.client, acc.server, acc.plugin);
        Ok(
            ClassDocEntry {
                name,
                desc,
                tags: acc.tags,
                realm,
                deprecated: acc.deprecated,
                since: acc.since,
                private: acc.private,
                unreleased: acc.unreleased,
                ignore: acc.ignore,
                output_source,
                __index,
                source,
            },
        )
    }
}

} // verus!
