use vstd::prelude::*;
use crate::identify::{NamespacedIdentifier, identifier_text};
use crate::table::TextMap;
use crate::text::{concat, split_once_spec, views};

verus! {

/// What `str::to_lowercase` gives for a text.
pub uninterp spec fn lower_of(s: Seq<char>) -> Seq<char>;

/// Relies on `str::to_lowercase`: the lower-case form of a text, which depends on the
/// text alone.
#[verifier::external_body]
pub(crate) fn lowercase(s: &str) -> (r: String)
    ensures
        r@ == lower_of(s@),
{
    s.to_lowercase()
}

/// What dispatch knows of a registered component (a builder, or an action): its
/// identifier and its short names.
pub struct ComponentInfo {
    pub identifier: NamespacedIdentifier,
    pub aliases: Vec<String>,
}

impl ComponentInfo {
    pub open spec fn view(&self) -> ((Seq<char>, Seq<char>), Seq<Seq<char>>) {
        (self.identifier@, views(self.aliases@))
    }
}

pub open spec fn infos_view(v: Seq<ComponentInfo>) -> Seq<((Seq<char>, Seq<char>), Seq<Seq<char>>)> {
    v.map_values(|b: ComponentInfo| b@)
}

/// Why no builder was chosen.
#[derive(Clone, Copy, PartialEq, Eq, Structural, Debug)]
pub enum DispatchError {
    /// More than one builder has the requested short name.
    Ambiguous,
    /// No builder has the requested name or identifier.
    Missing,
}

/// A builder matches by short name.
pub open spec fn alias_match(b: ((Seq<char>, Seq<char>), Seq<Seq<char>>), lowered: Seq<char>) -> bool {
    b.1.contains(lowered)
}

/// A builder matches: by short name, or by identifier where the requested type is one.
pub open spec fn builder_matches(
    b: ((Seq<char>, Seq<char>), Seq<Seq<char>>),
    lowered: Seq<char>,
    namespaced: Option<(Seq<char>, Seq<char>)>,
) -> bool {
    alias_match(b, lowered) || namespaced == Some(b.0)
}

/// How many builders match by short name.
pub open spec fn alias_matches(bs: Seq<((Seq<char>, Seq<char>), Seq<Seq<char>>)>, lowered: Seq<char>) -> nat
    decreases bs.len(),
{
    if bs.len() == 0 {
        0
    } else {
        alias_matches(bs.drop_last(), lowered) + if alias_match(bs.last(), lowered) { 1nat } else { 0nat }
    }
}

/// The position of the last builder that matches, if any does.
pub open spec fn last_match(
    bs: Seq<((Seq<char>, Seq<char>), Seq<Seq<char>>)>,
    lowered: Seq<char>,
    namespaced: Option<(Seq<char>, Seq<char>)>,
) -> Option<int>
    decreases bs.len(),
{
    if bs.len() == 0 {
        None
    } else if builder_matches(bs.last(), lowered, namespaced) {
        Some(bs.len() - 1)
    } else {
        last_match(bs.drop_last(), lowered, namespaced)
    }
}

/// The builder chosen for a requested type, given its lower-case form and the identifier
/// it names (if any): two or more short-name matches are ambiguous; otherwise the last
/// builder that matches is chosen.
pub open spec fn selection(
    bs: Seq<((Seq<char>, Seq<char>), Seq<Seq<char>>)>,
    lowered: Seq<char>,
    namespaced: Option<(Seq<char>, Seq<char>)>,
) -> Result<int, DispatchError> {
    if alias_matches(bs, lowered) >= 2 {
        Err(DispatchError::Ambiguous)
    } else {
        match last_match(bs, lowered, namespaced) {
            Some(i) => Ok(i),
            None => Err(DispatchError::Missing),
        }
    }
}

/// Whether `aliases` holds `name`.
fn holds_alias(aliases: &Vec<String>, name: &String) -> (r: bool)
    ensures
        r == views(aliases@).contains(name@),
{
    let mut i: usize = 0;
    while i < aliases.len()
        invariant
            i <= aliases.len(),
            forall|j: int| 0 <= j < i ==> aliases@[j]@ != name@,
        decreases aliases.len() - i,
    {
        if aliases[i] == *name {
            assert(views(aliases@)[i as int] == name@);
            return true;
        }
        i = i + 1;
    }
    assert forall|j: int| 0 <= j < views(aliases@).len() implies views(aliases@)[j] != name@ by {
        assert(views(aliases@)[j] == aliases@[j]@);
    }
    false
}

/// Chooses the builder for a requested type from its lower-case form `lowered` and the
/// identifier it names, if any.
pub fn select_builder_lowered(
    lowered: &String,
    namespaced: &Option<NamespacedIdentifier>,
    builders: &Vec<ComponentInfo>,
) -> (r: Result<usize, DispatchError>)
    ensures
        match r {
            Ok(i) => selection(infos_view(builders@), lowered@, match namespaced { Some(n) => Some(n@), None => None }) == Ok::<int, DispatchError>(i as int),
            Err(e) => selection(infos_view(builders@), lowered@, match namespaced { Some(n) => Some(n@), None => None }) == Err::<int, DispatchError>(e),
        },
{
    let ghost nid = match namespaced {
        Some(n) => Some(n@),
        None => None::<(Seq<char>, Seq<char>)>,
    };
    let ghost bs = infos_view(builders@);
    let mut count: usize = 0;
    let mut found: Option<usize> = None;
    let mut i: usize = 0;
    while i < builders.len()
        invariant
            i <= builders.len(),
            bs == infos_view(builders@),
            nid == match namespaced {
                Some(n) => Some(n@),
                None => None::<(Seq<char>, Seq<char>)>,
            },
            count <= i,
            count as nat == alias_matches(bs.subrange(0, i as int), lowered@),
            match found {
                Some(j) => last_match(bs.subrange(0, i as int), lowered@, nid) == Some(j as int),
                None => last_match(bs.subrange(0, i as int), lowered@, nid) is None,
            },
        decreases builders.len() - i,
    {
        let ghost next = bs.subrange(0, i + 1);
        assert(next.drop_last() =~= bs.subrange(0, i as int));
        assert(next.last() == builders@[i as int]@);
        let by_alias = holds_alias(&builders[i].aliases, lowered);
        let by_id = match namespaced {
            Some(n) => n.same_as(&builders[i].identifier),
            None => false,
        };
        assert(alias_match(next.last(), lowered@) == by_alias);
        assert(builder_matches(next.last(), lowered@, nid) == (by_alias || by_id));
        if by_alias {
            count = count + 1;
        }
        if by_alias || by_id {
            found = Some(i);
        }
        i = i + 1;
    }
    assert(bs.subrange(0, builders@.len() as int) =~= bs);
    if count >= 2 {
        Err(DispatchError::Ambiguous)
    } else {
        match found {
            Some(j) => Ok(j),
            None => Err(DispatchError::Missing),
        }
    }
}

/// Chooses the builder for the requested project type `project_type`: a builder matches
/// where its short names hold the type in lower case, or where the type is a namespaced
/// identifier equal to the builder's. Two short-name matches are an ambiguity; no match
/// means the builder is missing.
pub fn select_builder(project_type: &String, builders: &Vec<ComponentInfo>) -> (r: Result<usize, DispatchError>)
    ensures
        match r {
            Ok(i) => selection(infos_view(builders@), lower_of(project_type@), split_once_spec(project_type@, ':')) == Ok::<int, DispatchError>(i as int),
            Err(e) => selection(infos_view(builders@), lower_of(project_type@), split_once_spec(project_type@, ':')) == Err::<int, DispatchError>(e),
        },
{
    let lowered = lowercase(project_type.as_str());
    let namespaced = NamespacedIdentifier::parse_text(project_type);
    select_builder_lowered(&lowered, &namespaced, builders)
}

/// A name after `@Alias` substitution: the alias's target where `name` is an alias,
/// else `name` itself.
pub fn resolve_alias(name: &String, aliases: &TextMap) -> (r: String)
    ensures
        r@ == (if aliases@.contains_key(name@) { aliases@[name@] } else { name@ }),
{
    match aliases.get(name.as_str()) {
        Some(t) => t.clone(),
        None => name.clone(),
    }
}

/// Texts joined by `sep`.
pub open spec fn joined(ws: Seq<Seq<char>>, sep: Seq<char>) -> Seq<char>
    decreases ws.len(),
{
    if ws.len() == 0 {
        Seq::empty()
    } else if ws.len() == 1 {
        ws[0]
    } else {
        joined(ws.drop_last(), sep) + sep + ws.last()
    }
}

/// The line that lists a component: `identifier;name;alias,alias,...`.
pub fn listing_line(info: &ComponentInfo, name: &str) -> (r: String)
    ensures
        r@ == identifier_text(info.identifier.namespace@, info.identifier.identifier@) + ";"@ + name@ + ";"@
            + joined(views(info.aliases@), ","@),
{
    let head = concat(info.identifier.as_text().as_str(), ";");
    let head = concat(head.as_str(), name);
    let mut r = concat(head.as_str(), ";");
    let ghost start = r@;
    let ghost ws = views(info.aliases@);
    let mut i: usize = 0;
    assert(ws.subrange(0, 0) =~= Seq::<Seq<char>>::empty());
    assert(r@ =~= start + joined(ws.subrange(0, 0), ","@));
    while i < info.aliases.len()
        invariant
            i <= info.aliases.len(),
            ws == views(info.aliases@),
            r@ == start + joined(ws.subrange(0, i as int), ","@),
        decreases info.aliases.len() - i,
    {
        let ghost pre = ws.subrange(0, i as int);
        let ghost next = ws.subrange(0, i + 1);
        assert(next.drop_last() =~= pre);
        assert(next.last() == info.aliases@[i as int]@);
        if i > 0 {
            r = concat(r.as_str(), ",");
        }
        r = concat(r.as_str(), info.aliases[i].as_str());
        if i == 0 {
            assert(next =~= seq![info.aliases@[0]@]);
        }
        assert(r@ =~= start + joined(next, ","@));
        i = i + 1;
    }
    assert(ws.subrange(0, info.aliases@.len() as int) =~= ws);
    r
}

/// The position of the first of `ids` equal to `id`.
pub fn find_identifier(ids: &Vec<NamespacedIdentifier>, id: &NamespacedIdentifier) -> (r: Option<usize>)
    ensures
        match r {
            Some(i) => i < ids@.len() && ids@[i as int]@ == id@ && forall|j: int| 0 <= j < i ==> ids@[j]@ != id@,
            None => forall|j: int| 0 <= j < ids@.len() ==> ids@[j]@ != id@,
        },
{
    let mut i: usize = 0;
    while i < ids.len()
        invariant
            i <= ids.len(),
            forall|j: int| 0 <= j < i ==> ids@[j]@ != id@,
        decreases ids.len() - i,
    {
        if ids[i].same_as(id) {
            return Some(i);
        }
        i = i + 1;
    }
    None
}

} // verus!
