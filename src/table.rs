use vstd::prelude::*;
use crate::text::{rsplit_once, rsplit_once_spec, split_once, split_once_spec, views};

verus! {

/// The map that a sequence of (key, value) records denotes: a later record for a key
/// replaces an earlier one.
pub open spec fn map_of(e: Seq<(Seq<char>, Seq<char>)>) -> Map<Seq<char>, Seq<char>>
    decreases e.len(),
{
    if e.len() == 0 {
        Map::empty()
    } else {
        map_of(e.drop_last()).insert(e.last().0, e.last().1)
    }
}

/// The records after setting `k` to `v`: an existing record for `k` keeps its place,
/// otherwise the new record goes at the end.
pub open spec fn insert_records(e: Seq<(Seq<char>, Seq<char>)>, k: Seq<char>, v: Seq<char>) -> Seq<(Seq<char>, Seq<char>)> {
    if exists|i: int| 0 <= i < e.len() && e[i].0 == k {
        let i = choose|i: int| 0 <= i < e.len() && e[i].0 == k;
        e.update(i, (k, v))
    } else {
        e.push((k, v))
    }
}

/// The table that lines of the form `a<sep>b` denote (later lines win); lines without
/// `sep` are passed over.
pub open spec fn pairs_of(items: Seq<Seq<char>>, sep: char) -> Map<Seq<char>, Seq<char>>
    decreases items.len(),
{
    if items.len() == 0 {
        Map::empty()
    } else {
        let m = pairs_of(items.drop_last(), sep);
        match split_once_spec(items.last(), sep) {
            Some((a, b)) => m.insert(a, b),
            None => m,
        }
    }
}

/// The table that lines of the form `a<sep>b` denote, each split at its last `sep`
/// (later lines win); lines without `sep` are passed over.
pub open spec fn last_pairs_of(items: Seq<Seq<char>>, sep: char) -> Map<Seq<char>, Seq<char>>
    decreases items.len(),
{
    if items.len() == 0 {
        Map::empty()
    } else {
        let m = last_pairs_of(items.drop_last(), sep);
        match rsplit_once_spec(items.last(), sep) {
            Some((a, b)) => m.insert(a, b),
            None => m,
        }
    }
}

/// No two records share a key.
pub open spec fn keys_unique(e: Seq<(Seq<char>, Seq<char>)>) -> bool {
    forall|i: int, j: int| 0 <= i < e.len() && 0 <= j < e.len() && e[i].0 == e[j].0 ==> i == j
}

/// A key that no record has is not in the map.
pub proof fn lemma_map_of_absent(e: Seq<(Seq<char>, Seq<char>)>, k: Seq<char>)
    requires
        forall|i: int| 0 <= i < e.len() ==> e[i].0 != k,
    ensures
        !map_of(e).contains_key(k),
    decreases e.len(),
{
    if e.len() > 0 {
        lemma_map_of_absent(e.drop_last(), k);
    }
}

/// With unique keys, each record's key maps to its value.
pub proof fn lemma_map_of_at(e: Seq<(Seq<char>, Seq<char>)>, i: int)
    requires
        keys_unique(e),
        0 <= i < e.len(),
    ensures
        map_of(e).contains_key(e[i].0),
        map_of(e)[e[i].0] == e[i].1,
    decreases e.len(),
{
    if i < e.len() - 1 {
        lemma_map_of_at(e.drop_last(), i);
    }
}

/// With unique keys, changing a record's value in place sets that key in the map.
pub proof fn lemma_map_of_update(e: Seq<(Seq<char>, Seq<char>)>, i: int, v: Seq<char>)
    requires
        keys_unique(e),
        0 <= i < e.len(),
    ensures
        map_of(e.update(i, (e[i].0, v))) == map_of(e).insert(e[i].0, v),
    decreases e.len(),
{
    let f = e.update(i, (e[i].0, v));
    if i == e.len() - 1 {
        assert(f.drop_last() =~= e.drop_last());
    } else {
        assert(f.drop_last() =~= e.drop_last().update(i, (e[i].0, v)));
        lemma_map_of_update(e.drop_last(), i, v);
        assert(e.last().0 != e[i].0);
        assert(map_of(f) =~= map_of(e).insert(e[i].0, v));
    }
}

/// A table from text keys to text values with unique keys, kept in the order in
/// which the keys were first inserted.
pub struct TextMap {
    entries: Vec<(String, String)>,
}

impl TextMap {
    /// The records of the table, in insertion order.
    pub closed spec fn records(&self) -> Seq<(Seq<char>, Seq<char>)> {
        self.entries@.map_values(|p: (String, String)| (p.0@, p.1@))
    }

    pub open spec fn view(&self) -> Map<Seq<char>, Seq<char>> {
        map_of(self.records())
    }

    pub open spec fn wf(&self) -> bool {
        keys_unique(self.records())
    }

    #[verifier::type_invariant]
    spec fn inv(&self) -> bool {
        keys_unique(self.records())
    }

    /// The table's keys are unique.
    pub fn prove_keys_unique(&self)
        ensures
            self.wf(),
    {
        proof {
            use_type_invariant(self);
        }
    }

    pub fn new() -> (r: TextMap)
        ensures
            r.wf(),
            r.records() == Seq::<(Seq<char>, Seq<char>)>::empty(),
            r@ == Map::<Seq<char>, Seq<char>>::empty(),
    {
        let r = TextMap { entries: Vec::new() };
        assert(r.records() =~= Seq::<(Seq<char>, Seq<char>)>::empty());
        r
    }

    pub fn len(&self) -> (n: usize)
        ensures
            n == self.records().len(),
    {
        self.entries.len()
    }

    /// The key and the value of the record at `i`.
    pub fn key_at(&self, i: usize) -> (r: &String)
        requires
            i < self.records().len(),
        ensures
            r@ == self.records()[i as int].0,
    {
        &self.entries[i].0
    }

    pub fn value_at(&self, i: usize) -> (r: &String)
        requires
            i < self.records().len(),
        ensures
            r@ == self.records()[i as int].1,
    {
        &self.entries[i].1
    }

    /// The position of the record for `key`, if there is one.
    pub fn position(&self, key: &str) -> (r: Option<usize>)
        ensures
            match r {
                Some(i) => i < self.records().len() && self.records()[i as int].0 == key@,
                None => forall|j: int| 0 <= j < self.records().len() ==> self.records()[j].0 != key@,
            },
            r is Some <==> self@.contains_key(key@),
    {
        proof {
            use_type_invariant(self);
        }
        let k = key.to_string();
        let mut i: usize = 0;
        while i < self.entries.len()
            invariant
                self.wf(),
                k@ == key@,
                i <= self.entries.len(),
                forall|j: int| 0 <= j < i ==> self.records()[j].0 != key@,
            decreases self.entries.len() - i,
        {
            if self.entries[i].0 == k {
                proof {
                    lemma_map_of_at(self.records(), i as int);
                }
                return Some(i);
            }
            i = i + 1;
        }
        proof {
            lemma_map_of_absent(self.records(), key@);
        }
        None
    }

    /// Looks `key` up.
    pub fn get(&self, key: &str) -> (r: Option<&String>)
        ensures
            match r {
                Some(v) => self@.contains_key(key@) && self@[key@] == v@,
                None => !self@.contains_key(key@),
            },
    {
        proof {
            use_type_invariant(self);
        }
        match self.position(key) {
            Some(i) => {
                proof {
                    lemma_map_of_at(self.records(), i as int);
                }
                Some(&self.entries[i].1)
            },
            None => None,
        }
    }

    /// Sets `key` to `value`: the record of an existing key keeps its place, a new key
    /// goes at the end.
    pub fn insert(&mut self, key: String, value: String)
        ensures
            final(self).wf(),
            final(self)@ == old(self)@.insert(key@, value@),
            final(self).records() == insert_records(old(self).records(), key@, value@),
            old(self)@.contains_key(key@) ==> final(self).records().len() == old(self).records().len(),
            !old(self)@.contains_key(key@) ==> final(self).records() == old(self).records().push((key@, value@)),
    {
        proof {
            use_type_invariant(&*self);
        }
        let ghost before = self.records();
        let ghost key_view = key@;
        let ghost value_view = value@;
        let n = self.entries.len();
        let idx = match self.position(key.as_str()) {
            Some(i) => i,
            None => n,
        };
        let mut fresh: Vec<(String, String)> = Vec::new();
        let mut pending: Option<(String, String)> = Some((key, value));
        let mut j: usize = 0;
        while j < n
            invariant
                n == self.entries.len(),
                j <= n,
                idx <= n,
                before == self.records(),
                idx < n ==> before[idx as int].0 == key_view,
                fresh@.len() == j,
                (j <= idx) ==> match pending {
                    Some(kv) => kv.0@ == key_view && kv.1@ == value_view,
                    None => false,
                },
                forall|m: int| 0 <= m < j ==> (#[trigger] fresh@[m]).0@ == before[m].0 && fresh@[m].1@ == (
                    if m == idx { value_view } else { before[m].1 }),
            decreases n - j,
        {
            if j == idx {
                let kv = pending.take().unwrap();
                fresh.push(kv);
            } else {
                let k = self.entries[j].0.clone();
                let v = self.entries[j].1.clone();
                fresh.push((k, v));
            }
            j = j + 1;
        }
        if idx == n {
            let kv = pending.take().unwrap();
            fresh.push(kv);
        }
        self.entries = fresh;
        if idx < n {
            assert(self.records() =~= before.update(idx as int, (before[idx as int].0, value_view)));
            proof {
                lemma_map_of_update(before, idx as int, value_view);
                let c = choose|c: int| 0 <= c < before.len() && before[c].0 == key_view;
                assert(c == idx);
            }
        } else {
            assert(self.records() =~= before.push((key_view, value_view)));
            assert(self.records().drop_last() =~= before);
        }
    }
}

impl TextMap {
    /// The table that `items[from..]` denote as `a<sep>b` pairs.
    pub fn from_pairs(items: &Vec<String>, from: usize, sep: char) -> (r: TextMap)
        requires
            from <= items@.len(),
        ensures
            r@ == pairs_of(views(items@).subrange(from as int, items@.len() as int), sep),
    {
        let mut r = TextMap::new();
        let mut i: usize = from;
        assert(views(items@).subrange(from as int, from as int) =~= Seq::<Seq<char>>::empty());
        while i < items.len()
            invariant
                from <= i <= items.len(),
                r@ == pairs_of(views(items@).subrange(from as int, i as int), sep),
            decreases items.len() - i,
        {
            let ghost pre = views(items@).subrange(from as int, i as int);
            let ghost next = views(items@).subrange(from as int, i + 1);
            assert(next.drop_last() =~= pre);
            assert(next.last() == items@[i as int]@);
            match split_once(items[i].as_str(), sep) {
                Some((a, b)) => r.insert(a, b),
                None => {},
            }
            i = i + 1;
        }
        r
    }
}

impl TextMap {
    /// The table that `items` denote as `a<sep>b` pairs split at their last `sep`.
    pub fn from_last_pairs(items: &Vec<String>, sep: char) -> (r: TextMap)
        ensures
            r@ == last_pairs_of(views(items@), sep),
    {
        let mut r = TextMap::new();
        let mut i: usize = 0;
        assert(views(items@).subrange(0, 0) =~= Seq::<Seq<char>>::empty());
        while i < items.len()
            invariant
                i <= items.len(),
                r@ == last_pairs_of(views(items@).subrange(0, i as int), sep),
            decreases items.len() - i,
        {
            let ghost pre = views(items@).subrange(0, i as int);
            let ghost next = views(items@).subrange(0, i + 1);
            assert(next.drop_last() =~= pre);
            assert(next.last() == items@[i as int]@);
            match rsplit_once(items[i].as_str(), sep) {
                Some((a, b)) => r.insert(a, b),
                None => {},
            }
            i = i + 1;
        }
        assert(views(items@).subrange(0, items@.len() as int) =~= views(items@));
        r
    }
}

} // verus!
