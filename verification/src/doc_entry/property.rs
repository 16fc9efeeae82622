//! The property documentation entry.

use vstd::prelude::*;

use crate::diagnostic::{Diagnostic, Diagnostics};
use crate::doc_comment::{CommentRef, OutputSource};
use crate::doc_entry::{
    custom_names, dep_view, opt_string_view, shared_consumes, spec_customs, spec_last_deprecated,
    spec_last_since, DocEntryParseArguments, SharedAcc,
};
use crate::realm::{build_realm, realm_sorted, Realm};
use crate::tags::validation::{has_type, types_of};
use crate::tags::{spec_tag_type, CustomTag, DeprecatedTag, Tag, TagType};

verus! {

/// The tag kinds a property entry consumes.
pub open spec fn property_consumes(t: TagType) -> bool {
    shared_consumes(t) || t == TagType::Property || t == TagType::ReadOnly
}

/// The type the last `@prop` tag carries, if one carries a type.
pub open spec fn spec_last_prop_type(tags: Seq<Tag>) -> Option<Seq<char>>
    decreases tags.len(),
{
    if tags.len() == 0 {
        None
    } else {
        match tags.last() {
            Tag::Property(t) => match t.lua_type {
                Some(sp) => Some(sp@),
                None => spec_last_prop_type(tags.drop_last()),
            },
            _ => spec_last_prop_type(tags.drop_last()),
        }
    }
}

/// A documentation entry for a property of a class.
pub struct PropertyDocEntry {
    pub name: String,
    pub desc: String,
    pub lua_type: String,
    pub tags: Vec<CustomTag>,
    pub realm: Vec<Realm>,
    pub since: Option<String>,
    pub deprecated: Option<DeprecatedTag>,
    pub private: bool,
    pub unreleased: bool,
    pub readonly: bool,
    pub ignore: bool,
    pub output_source: OutputSource,
    pub source: CommentRef,
    pub within: String,
}

impl PropertyDocEntry {
    /// Builds a property entry from the leftover tags and the type inferred
    /// from the decorated value, if any.  A type stated on the `@prop` tag
    /// overrides the inferred one; metadata, custom labels, flags and realms
    /// are consumed; any other tag is rejected, one diagnostic each.
    pub fn parse(args: DocEntryParseArguments, lua_type: Option<String>) -> (r: Result<
        PropertyDocEntry,
        Diagnostics,
    >)
        requires
            args.within is Some,
        ensures
            match r {
                Ok(e) => {
                    &&& e.name@ == args.name@
                    &&& e.desc@ == args.desc@
                    &&& e.within@ == args.within.unwrap()@
                    &&& e.output_source == args.output_source
                    &&& e.source == args.source
                    &&& e.lua_type@ == (match spec_last_prop_type(args.tags@) {
                        Some(t) => t,
                        None => (match lua_type {
                            Some(s) => s@,
                            None => Seq::<char>::empty(),
                        }),
                    })
                    &&& custom_names(e.tags@) == spec_customs(args.tags@)
                    &&& dep_view(e.deprecated) == spec_last_deprecated(args.tags@)
                    &&& opt_string_view(e.since) == spec_last_since(args.tags@)
                    &&& e.private == has_type(types_of(args.tags@), TagType::Private)
                    &&& e.unreleased == has_type(types_of(args.tags@), TagType::Unreleased)
                    &&& e.readonly == has_type(types_of(args.tags@), TagType::ReadOnly)
                    &&& e.ignore == has_type(types_of(args.tags@), TagType::Ignore)
                    &&& realm_sorted(e.realm@)
                    &&& (forall|x: Realm|
                        e.realm@.contains(x) <==> ((x == Realm::Client && has_type(
                            types_of(args.tags@),
                            TagType::Client,
                        )) || (x == Realm::Server && has_type(types_of(args.tags@), TagType::Server))
                            || (x == Realm::Plugin && has_type(
                            types_of(args.tags@),
                            TagType::Plugin,
                        ))))
                    &&& (forall|i: int|
                        0 <= i < args.tags@.len() ==> property_consumes(
                            spec_tag_type(#[trigger] args.tags@[i]),
                        ))
                },
                Err(ds) => {
                    &&& ds.spec_errors().len() > 0
                    &&& exists|i: int|
                        0 <= i < args.tags@.len() && !property_consumes(
                            spec_tag_type(#[trigger] args.tags@[i]),
                        )
                },
            },
    {
        let DocEntryParseArguments { name, tags, desc, within, output_source, source } = args;
        let within = match within {
            Some(w) => w,
            None => String::new(),
        };
        let ghost orig = tags@;
        let mut tags = tags;
        let ghost mut done = Seq::<Tag>::empty();

        let mut acc = SharedAcc::new();
        let mut readonly = false;
        let mut type_override: Option<String> = None;
        let mut unused: Vec<Tag> = Vec::new();

        proof {
            assert(done + tags@ =~= orig);
            assert(spec_customs(done) =~= Seq::<Seq<char>>::empty());
            assert(types_of(done) =~= Seq::<TagType>::empty());
        }
        while tags.len() > 0
            invariant
                done + tags@ =~= orig,
                custom_names(acc.tags@) == spec_customs(done),
                dep_view(acc.deprecated) == spec_last_deprecated(done),
                opt_string_view(acc.since) == spec_last_since(done),
                opt_string_view(type_override) == spec_last_prop_type(done),
                acc.private == has_type(types_of(done), TagType::Private),
                acc.unreleased == has_type(types_of(done), TagType::Unreleased),
                acc.ignore == has_type(types_of(done), TagType::Ignore),
                acc.client == has_type(types_of(done), TagType::Client),
                acc.server == has_type(types_of(done), TagType::Server),
                acc.plugin == has_type(types_of(done), TagType::Plugin),
                readonly == has_type(types_of(done), TagType::ReadOnly),
                (unused@.len() == 0) <==> (forall|i: int|
                    0 <= i < done.len() ==> property_consumes(spec_tag_type(#[trigger] done[i]))),
            decreases tags@.len(),
        {
            let tag = tags.remove(0);
            let ghost done2 = done.push(tag);
            proof {
                assert(done2.drop_last() =~= done);
                assert(done2 + tags@ =~= orig);
                crate::doc_entry::lemma_types_push(done, tag);
            }
            match tag {
                Tag::Property(t) => {
                    match t.lua_type {
                        Some(sp) => {
                            type_override = Some(sp.to_string());
                        },
                        None => {},
                    }
                },
                Tag::ReadOnly(t) => {
                    readonly = true;
                },
                other => {
                    match acc.apply(other) {
                        Some(left) => {
                            unused.push(left);
                        },
                        None => {},
                    }
                },
            }
            proof {
                done = done2;
            }
        }
        proof {
            assert(done =~= orig);
        }

        if unused.len() > 0 {
            let mut diagnostics: Vec<Diagnostic> = Vec::new();
            let un = unused.len();
            let mut i: usize = 0;
            while i < un
                invariant
                    un == unused@.len(),
                    0 <= i <= un,
                    diagnostics@.len() == i,
                decreases un - i,
            {
                diagnostics.push(
                    unused[i].diagnostic("This tag is unused by property doc entries."),
                );
                i = i + 1;
            }
            return Err(Diagnostics::from(diagnostics));
        }

        let final_type: String = match type_override {
            Some(s) => s,
            None => match lua_type {
                Some(s) => s,
                None => String::new(),
            },
        };
        let realm = build_realm(acc.client, acc.server, acc.plugin);
        Ok(
            PropertyDocEntry {
                name,
                desc,
                lua_type: final_type,
                tags: acc.tags,
                realm,
                since: acc.since,
                deprecated: acc.deprecated,
                private: acc.private,
                unreleased: acc.unreleased,
                readonly,
                ignore: acc.ignore,
                output_source,
                source,
                within,
            },
        )
    }
}

} // verus!
