use vstd::prelude::*;
use crate::identify::NamespacedIdentifier;
use crate::text::{concat, replace_char, replace_char_spec};

verus! {

pub open spec fn store_dir_spec(data_dir: Seq<char>) -> Seq<char> {
    data_dir + seq!['/', 's', 't', 'o', 'r', 'e']
}

/// Where an identifier lives under the store: one directory per dot-separated segment of
/// the namespace, then one named by the identifier, which is kept whole.
pub open spec fn entry_path_spec(store: Seq<char>, ns: Seq<char>, id: Seq<char>) -> Seq<char> {
    store + seq!['/'] + replace_char_spec(ns, '.', '/') + seq!['/'] + id
}

/// The local store, under the data directory `data_dir`.
pub fn get_store_path(data_dir: &str) -> (r: String)
    ensures
        r@ == store_dir_spec(data_dir@),
{
    proof {
        reveal_strlit("/store");
    }
    let r = concat(data_dir, "/store");
    assert(r@ =~= store_dir_spec(data_dir@));
    r
}

/// The directory at which `identifier` would be located in the store at `store`.
pub fn get_path(store: &str, identifier: &NamespacedIdentifier) -> (r: String)
    ensures
        r@ == entry_path_spec(store@, identifier.namespace@, identifier.identifier@),
{
    proof {
        reveal_strlit("/");
    }
    let ns = replace_char(identifier.namespace.as_str(), '.', "/");
    let head = concat(store, "/");
    let a = concat(head.as_str(), ns.as_str());
    let b = concat(a.as_str(), "/");
    let r = concat(b.as_str(), identifier.identifier.as_str());
    assert(r@ =~= entry_path_spec(store@, identifier.namespace@, identifier.identifier@));
    r
}

} // verus!
