use vstd::prelude::*;
use crate::identify::NamespacedIdentifier;
use crate::store::{get_path, entry_path_spec};
use crate::text::{concat, rsplit_once, rsplit_once_spec, split_once, split_once_spec};
use crate::version::{Version, parse_spec, version_lt, version_text};

verus! {

/// What dependency notation `identifier[@version]` denotes: the identifier before the
/// last `@` (or the whole text), and the version after it, if there is an `@`. `None`
/// where the identifier part names no identifier.
pub open spec fn notation_spec(t: Seq<char>) -> Option<((Seq<char>, Seq<char>), Option<Version>)> {
    let (id_text, version) = match rsplit_once_spec(t, '@') {
        Some((a, b)) => (a, Some(parse_spec(b))),
        None => (t, None),
    };
    match split_once_spec(id_text, ':') {
        Some(id) => Some((id, version)),
        None => None,
    }
}

/// Reads dependency notation, `namespace:Identifier[@version]`.
pub fn parse_dependency_notation(notation: String) -> (r: Option<(NamespacedIdentifier, Option<Version>)>)
    ensures
        match r {
            Some((id, v)) => notation_spec(notation@) == Some((id@, v)),
            None => notation_spec(notation@) is None,
        },
{
    let (id_text, version) = match rsplit_once(notation.as_str(), '@') {
        Some((a, b)) => (a, Some(Version::parse(b))),
        None => (notation.clone(), None),
    };
    match NamespacedIdentifier::parse_text(&id_text) {
        Some(id) => Some((id, version)),
        None => None,
    }
}

/// The version that a store directory entry names: what follows its first `@`.
pub open spec fn entry_version(name: Seq<char>) -> Option<Version> {
    match split_once_spec(name, '@') {
        Some((_, b)) => Some(parse_spec(b)),
        None => None,
    }
}

/// The versions that the entries of an identifier's store directory name, in order;
/// entries without an `@` are passed over.
pub open spec fn versions_of(names: Seq<Seq<char>>) -> Seq<Version>
    decreases names.len(),
{
    if names.len() == 0 {
        Seq::empty()
    } else {
        let rest = versions_of(names.drop_last());
        match entry_version(names.last()) {
            Some(v) => rest.push(v),
            None => rest,
        }
    }
}

/// The views of a vector of strings.
pub open spec fn names_view(v: Seq<String>) -> Seq<Seq<char>> {
    v.map_values(|x: String| x@)
}

/// The entry names of a directory listing, where there is one.
pub open spec fn listing_view(l: Option<Vec<String>>) -> Option<Seq<Seq<char>>> {
    match l {
        Some(v) => Some(names_view(v@)),
        None => None,
    }
}

/// All versions of a package that the entries `names` of its store directory hold.
pub fn get_all_versions(names: &Vec<String>) -> (r: Vec<Version>)
    ensures
        r@ == versions_of(names_view(names@)),
{
    let mut r: Vec<Version> = Vec::new();
    let mut i: usize = 0;
    while i < names.len()
        invariant
            i <= names.len(),
            r@ == versions_of(names_view(names@.subrange(0, i as int))),
        decreases names.len() - i,
    {
        let ghost pre = names_view(names@.subrange(0, i as int));
        let ghost next = names_view(names@.subrange(0, i + 1));
        assert(next.drop_last() =~= pre);
        assert(next.last() == names@[i as int]@);
        match split_once(names[i].as_str(), '@') {
            Some((_, b)) => {
                r.push(Version::parse(b));
            },
            None => {},
        }
        i = i + 1;
    }
    assert(names@.subrange(0, names@.len() as int) =~= names@);
    r
}

/// The position of the entry with the latest version among `names` (entries without an
/// `@` name no version); of entries with equal versions, the last in listing order.
pub open spec fn latest_index(names: Seq<Seq<char>>) -> Option<int>
    decreases names.len(),
{
    if names.len() == 0 {
        None
    } else {
        let r = latest_index(names.drop_last());
        match entry_version(names.last()) {
            None => r,
            Some(v) => match r {
                None => Some(names.len() - 1),
                Some(j) => if version_lt(v, entry_version(names[j])->0) {
                    Some(j)
                } else {
                    Some(names.len() - 1)
                },
            },
        }
    }
}

/// The position of the entry of `names` with the latest version.
pub fn latest_entry(names: &Vec<String>) -> (r: Option<usize>)
    ensures
        match r {
            Some(i) => i < names@.len() && latest_index(names_view(names@)) == Some(i as int),
            None => latest_index(names_view(names@)) is None,
        },
{
    let mut best: Option<(usize, Version)> = None;
    let mut i: usize = 0;
    while i < names.len()
        invariant
            i <= names.len(),
            match best {
                Some((j, v)) => j < i && latest_index(names_view(names@).subrange(0, i as int)) == Some(j as int)
                    && entry_version(names@[j as int]@) == Some(v),
                None => latest_index(names_view(names@).subrange(0, i as int)) is None,
            },
        decreases names.len() - i,
    {
        let ghost pre = names_view(names@).subrange(0, i as int);
        let ghost next = names_view(names@).subrange(0, i + 1);
        assert(next.drop_last() =~= pre);
        assert(next.last() == names@[i as int]@);
        proof {
            match best {
                Some((j, v)) => {
                    assert(next[j as int] == names@[j as int]@);
                },
                None => {},
            }
        }
        match split_once(names[i].as_str(), '@') {
            Some((_, b)) => {
                let v = Version::parse(b);
                match best {
                    None => {
                        best = Some((i, v));
                    },
                    Some((j, w)) => {
                        if !v.is_older_than(&w) {
                            best = Some((i, v));
                        }
                    },
                }
            },
            None => {},
        }
        i = i + 1;
    }
    assert(names_view(names@).subrange(0, names@.len() as int) =~= names_view(names@));
    match best {
        Some((j, _)) => Some(j),
        None => None,
    }
}

/// Why a dependency did not resolve.
#[derive(Clone, Copy, PartialEq, Eq, Structural, Debug)]
pub enum ResolveError {
    /// Nothing in the store matches: the identifier's directory is absent, or the
    /// requested version's directory is.
    Unresolved,
    /// The identifier's directory is there but holds no version.
    NoVersions,
}

/// The directory of one version of an entry: `<entry>/@<version text>`.
pub open spec fn version_dir_spec(entry: Seq<char>, v: Version) -> Seq<char> {
    entry + seq!['/', '@'] + version_text(v)
}

/// The directory entry name of a version: `@<version text>`.
pub open spec fn version_entry_name(v: Version) -> Seq<char> {
    seq!['@'] + version_text(v)
}

/// What resolving `id` at `version` gives, where `listing` is the list of entries of the
/// identifier's store directory (`None` where that directory does not exist).
pub open spec fn resolve_spec(
    store: Seq<char>,
    id: (Seq<char>, Seq<char>),
    version: Option<Version>,
    listing: Option<Seq<Seq<char>>>,
) -> Result<Seq<char>, ResolveError> {
    let entry = entry_path_spec(store, id.0, id.1);
    match listing {
        None => Err(ResolveError::Unresolved),
        Some(names) => match version {
            Some(v) => if names.contains(version_entry_name(v)) {
                Ok(version_dir_spec(entry, v))
            } else {
                Err(ResolveError::Unresolved)
            },
            None => match latest_index(names) {
                Some(i) => Ok(entry + seq!['/'] + names[i]),
                None => Err(ResolveError::NoVersions),
            },
        },
    }
}

/// Whether `names` holds the entry of version `v`.
fn lists_version(names: &Vec<String>, v: &Version) -> (r: bool)
    ensures
        r == names_view(names@).contains(version_entry_name(*v)),
{
    proof {
        reveal_strlit("@");
    }
    let want = concat("@", v.as_text().as_str());
    assert(want@ =~= version_entry_name(*v));
    let mut i: usize = 0;
    while i < names.len()
        invariant
            i <= names.len(),
            want@ == version_entry_name(*v),
            forall|j: int| 0 <= j < i ==> names@[j]@ != want@,
        decreases names.len() - i,
    {
        if names[i] == want {
            assert(names_view(names@)[i as int] == want@);
            return true;
        }
        i = i + 1;
    }
    assert forall|j: int| 0 <= j < names_view(names@).len() implies names_view(names@)[j] != want@ by {
        assert(names_view(names@)[j] == names@[j]@);
    }
    false
}

/// Resolves the store directory of package `identifier`: at exactly `version` where one
/// is given, otherwise the listed entry of the latest version (the last of equal ones). `listing` holds the entries of the
/// identifier's store directory, `None` where that directory does not exist.
pub fn resolve_dependency(
    store: &str,
    identifier: &NamespacedIdentifier,
    version: Option<Version>,
    listing: &Option<Vec<String>>,
) -> (r: Result<String, ResolveError>)
    ensures
        match r {
            Ok(p) => resolve_spec(store@, identifier@, version, listing_view(*listing)) == Ok::<Seq<char>, ResolveError>(p@),
            Err(e) => resolve_spec(store@, identifier@, version, listing_view(*listing)) == Err::<Seq<char>, ResolveError>(e),
        },
{
    proof {
        reveal_strlit("/@");
    }
    let entry = get_path(store, identifier);
    match listing {
        None => Err(ResolveError::Unresolved),
        Some(names) => match version {
            Some(v) => {
                if lists_version(names, &v) {
                    let head = concat(entry.as_str(), "/@");
                    let p = concat(head.as_str(), v.as_text().as_str());
                    assert(p@ =~= version_dir_spec(entry@, v));
                    Ok(p)
                } else {
                    Err(ResolveError::Unresolved)
                }
            },
            None => match latest_entry(names) {
                Some(i) => {
                    proof {
                        reveal_strlit("/");
                    }
                    let head = concat(entry.as_str(), "/");
                    assert(names_view(names@)[i as int] == names@[i as int]@);
                    let p = concat(head.as_str(), names[i].as_str());
                    assert(p@ =~= entry@ + seq!['/'] + names_view(names@)[i as int]);
                    Ok(p)
                },
                None => Err(ResolveError::NoVersions),
            },
        },
    }
}

} // verus!
