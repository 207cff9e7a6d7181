use vstd::prelude::*;
use crate::text::{split_once, split_once_spec, concat};

verus! {

/// Names a component (builder, generator, action) or a package where a bare name would
/// be ambiguous: a namespace in reverse-domain form and an identifier within it, written
/// `namespace:identifier`.
#[derive(Clone, Debug)]
pub struct NamespacedIdentifier {
    pub namespace: String,
    pub identifier: String,
}

impl PartialEq for NamespacedIdentifier {
    fn eq(&self, o: &NamespacedIdentifier) -> (r: bool) {
        self.namespace == o.namespace && self.identifier == o.identifier
    }
}

impl vstd::std_specs::cmp::PartialEqSpecImpl for NamespacedIdentifier {
    open spec fn obeys_eq_spec() -> bool {
        true
    }

    open spec fn eq_spec(&self, o: &NamespacedIdentifier) -> bool {
        self@ == o@
    }
}

/// The canonical text of an identifier.
pub open spec fn identifier_text(ns: Seq<char>, id: Seq<char>) -> Seq<char> {
    ns + seq![':'] + id
}

impl NamespacedIdentifier {
    pub open spec fn view(&self) -> (Seq<char>, Seq<char>) {
        (self.namespace@, self.identifier@)
    }

    /// Reads `namespace:identifier`, splitting at the first `:`. Text without a `:` names
    /// no identifier.
    pub fn parse_text(text: &String) -> (r: Option<NamespacedIdentifier>)
        ensures
            match r {
                Some(n) => split_once_spec(text@, ':') == Some(n@),
                None => split_once_spec(text@, ':') is None,
            },
    {
        match split_once(text.as_str(), ':') {
            Some((namespace, identifier)) => Some(NamespacedIdentifier { namespace, identifier }),
            None => None,
        }
    }

    /// The canonical text form, `namespace:identifier`.
    pub fn as_text(&self) -> (r: String)
        ensures
            r@ == identifier_text(self.namespace@, self.identifier@),
    {
        let a = concat(self.namespace.as_str(), ":");
        proof {
            reveal_strlit(":");
        }
        let r = concat(a.as_str(), self.identifier.as_str());
        assert(r@ =~= identifier_text(self.namespace@, self.identifier@));
        r
    }

    /// Whether two identifiers are the same.
    pub fn same_as(&self, o: &NamespacedIdentifier) -> (r: bool)
        ensures
            r == (self@ == o@),
    {
        self.namespace == o.namespace && self.identifier == o.identifier
    }
}

} // verus!
