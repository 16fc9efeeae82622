//! The execution contexts an entry can be restricted to.

use vstd::prelude::*;

verus! {

/// An execution context: where the documented item is available.
#[derive(PartialEq, Eq, Structural, Clone, Copy, Debug)]
pub enum Realm {
    Client,
    Server,
    Plugin,
}

/// The canonical position of a realm in an entry's realm list.
pub open spec fn realm_rank(r: Realm) -> int {
    match r {
        Realm::Client => 0,
        Realm::Server => 1,
        Realm::Plugin => 2,
    }
}

/// Whether a realm list is strictly ordered by rank (so each realm appears
/// at most once, in canonical order).
pub open spec fn realm_sorted(v: Seq<Realm>) -> bool {
    forall|i: int, j: int| 0 <= i < j < v.len() ==> realm_rank(v[i]) < realm_rank(v[j])
}

/// The canonical realm list holding exactly the realms whose flag is set.
pub fn build_realm(client: bool, server: bool, plugin: bool) -> (r: Vec<Realm>)
    ensures
        realm_sorted(r@),
        forall|x: Realm|
            r@.contains(x) <==> ((x == Realm::Client && client) || (x == Realm::Server && server)
                || (x == Realm::Plugin && plugin)),
{
    broadcast use vstd::seq_lib::lemma_seq_contains_after_push;

    let mut r: Vec<Realm> = Vec::new();
    proof {
        assert(forall|x: Realm| !r@.contains(x));
    }
    if client {
        r.push(Realm::Client);
    }
    let ghost r1 = r@;
    if server {
        r.push(Realm::Server);
    }
    let ghost r2 = r@;
    if plugin {
        r.push(Realm::Plugin);
    }
    r
}

} // verus!
