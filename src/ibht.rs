use vstd::prelude::*;
use crate::table::{TextMap, insert_records, keys_unique, map_of, last_pairs_of, lemma_map_of_at};
use crate::text::{concat, has_suffix, ends_with, lacks, split_char, split_on, rsplit_once_spec, views, is_last_index, lemma_split_on_append};

verus! {

/// The MD5 digest of a text's UTF-8 bytes, written as lower-case hex.
pub uninterp spec fn md5_hex_of(s: Seq<char>) -> Seq<char>;

pub open spec fn is_lower_hex(c: char) -> bool {
    ('0' <= c <= '9') || ('a' <= c <= 'f')
}

/// Relies on `md5::compute` and the `LowerHex` format of `md5::Digest`: the digest of the
/// text's bytes, each of its 16 bytes written as two lower-case hex digits.
#[verifier::external_body]
fn md5_hex(contents: &str) -> (r: String)
    ensures
        r@ == md5_hex_of(contents@),
        r@.len() == 32,
        forall|i: int| 0 <= i < r@.len() ==> is_lower_hex(#[trigger] r@[i]),
{
    format!("{:x}", md5::compute(contents.as_bytes()))
}

/// A source file handed to hashing: its path and its text.
pub open spec fn file_views(files: Seq<(String, String)>) -> Seq<(Seq<char>, Seq<char>)> {
    files.map_values(|f: (String, String)| (f.0@, f.1@))
}

/// The records of the hash table of `files`, hashed in order (a later file of the same
/// path replaces the earlier one's hash in place).
pub open spec fn hash_records(files: Seq<(Seq<char>, Seq<char>)>) -> Seq<(Seq<char>, Seq<char>)>
    decreases files.len(),
{
    if files.len() == 0 {
        Seq::empty()
    } else {
        insert_records(hash_records(files.drop_last()), files.last().0, md5_hex_of(files.last().1))
    }
}

/// A digest as `md5_hex` writes it.
pub open spec fn is_digest(s: Seq<char>) -> bool {
    s.len() == 32 && forall|i: int| 0 <= i < s.len() ==> is_lower_hex(#[trigger] s[i])
}

/// Hashes source files: the table maps each path to the digest of its text. The caller
/// walks the source tree and reads the files; files that could not be read are left out.
pub fn gen_hashtable(files: &Vec<(String, String)>) -> (r: TextMap)
    ensures
        r.records() == hash_records(file_views(files@)),
        r.wf(),
        forall|i: int| 0 <= i < r.records().len() ==> is_digest(#[trigger] r.records()[i].1),
{
    let mut r = TextMap::new();
    let mut i: usize = 0;
    while i < files.len()
        invariant
            i <= files.len(),
            r.records() == hash_records(file_views(files@).subrange(0, i as int)),
            forall|k: Seq<char>| r@.contains_key(k) ==> is_digest(#[trigger] r@[k]),
        decreases files.len() - i,
    {
        let ghost pre = file_views(files@).subrange(0, i as int);
        let ghost next = file_views(files@).subrange(0, i + 1);
        assert(next.drop_last() =~= pre);
        let ghost before = r.records();
        let h = md5_hex(files[i].1.as_str());
        let ghost hv = h@;
        r.insert(files[i].0.clone(), h);
        i = i + 1;
    }
    assert(file_views(files@).subrange(0, files@.len() as int) =~= file_views(files@));
    r.prove_keys_unique();
    assert forall|j: int| 0 <= j < r.records().len() implies is_digest(#[trigger] r.records()[j].1) by {
        lemma_map_of_at(r.records(), j);
        assert(r@.contains_key(r.records()[j].0));
        assert(is_digest(r@[r.records()[j].0]));
    }
    r
}

/// One record of the persisted table: `path=hash` and a newline.
pub open spec fn record_line(k: Seq<char>, v: Seq<char>) -> Seq<char> {
    k + seq!['='] + v + seq!['\n']
}

/// The persisted text of a table's records, one record per line.
pub open spec fn table_text(recs: Seq<(Seq<char>, Seq<char>)>) -> Seq<char>
    decreases recs.len(),
{
    if recs.len() == 0 {
        Seq::empty()
    } else {
        table_text(recs.drop_last()) + record_line(recs.last().0, recs.last().1)
    }
}

/// The table that persisted text denotes: each line with an `=` is a record, split at
/// its last `=` (a hash holds none); other lines are passed over.
pub open spec fn parse_table_spec(text: Seq<char>) -> Map<Seq<char>, Seq<char>> {
    last_pairs_of(split_on(text, '\n'), '=')
}

/// The persisted text of a hash table.
pub fn ibht_text(t: &TextMap) -> (r: String)
    ensures
        r@ == table_text(t.records()),
{
    proof {
        reveal_strlit("=");
        reveal_strlit("\n");
        assert("="@ =~= seq!['=']);
        assert("\n"@ =~= seq!['\n']);
    }
    let mut r = String::new();
    let mut i: usize = 0;
    while i < t.len()
        invariant
            i <= t.records().len(),
            r@ == table_text(t.records().subrange(0, i as int)),
            "="@ == seq!['='],
            "\n"@ == seq!['\n'],
        decreases t.records().len() - i,
    {
        assert(t.records().subrange(0, i + 1).drop_last() =~= t.records().subrange(0, i as int));
        assert(t.records().subrange(0, i + 1).last() == t.records()[i as int]);
        let ghost before = r@;
        let k = t.key_at(i);
        let v = t.value_at(i);
        let a = concat(k.as_str(), "=");
        let b = concat(a.as_str(), v.as_str());
        let line = concat(b.as_str(), "\n");
        assert(line@ =~= record_line(k@, v@));
        r = concat(r.as_str(), line.as_str());
        assert(r@ =~= before + record_line(t.records()[i as int].0, t.records()[i as int].1));
        i = i + 1;
    }
    assert(t.records().subrange(0, t.records().len() as int) =~= t.records());
    r
}

/// Reads persisted table text.
pub fn parse_ibht(text: &str) -> (r: TextMap)
    ensures
        r@ == parse_table_spec(text@),
{
    let lines = split_char(text, '\n');
    TextMap::from_last_pairs(&lines, '=')
}

pub open spec fn header_suffix() -> Seq<char> {
    seq!['.', 'h']
}

/// A source file must be recompiled: it is not a header, and a full rebuild is forced,
/// or the previous table has no record of it, or a different hash.
pub open spec fn needs_rebuild(k: Seq<char>, v: Seq<char>, prev: Map<Seq<char>, Seq<char>>, force: bool) -> bool {
    !has_suffix(k, header_suffix()) && (force || !prev.contains_key(k) || prev[k] != v)
}

/// The records of `recs` that must be recompiled, in order.
pub open spec fn rebuild_spec(
    recs: Seq<(Seq<char>, Seq<char>)>,
    prev: Map<Seq<char>, Seq<char>>,
    force: bool,
) -> Seq<(Seq<char>, Seq<char>)>
    decreases recs.len(),
{
    if recs.len() == 0 {
        Seq::empty()
    } else {
        let r = rebuild_spec(recs.drop_last(), prev, force);
        if needs_rebuild(recs.last().0, recs.last().1, prev, force) {
            r.push(recs.last())
        } else {
            r
        }
    }
}

/// The views of (path, hash) pairs.
pub open spec fn pair_views(v: Seq<(String, String)>) -> Seq<(Seq<char>, Seq<char>)> {
    v.map_values(|p: (String, String)| (p.0@, p.1@))
}

/// The source files to recompile, with their new hashes: `hashes` is the table of the
/// tree now, `previous` the table persisted by the last build.
pub fn rebuild_set(hashes: &TextMap, previous: &TextMap, force: bool) -> (r: Vec<(String, String)>)
    ensures
        pair_views(r@) == rebuild_spec(hashes.records(), previous@, force),
{
    proof {
        reveal_strlit(".h");
        assert(".h"@ =~= header_suffix());
    }
    let mut r: Vec<(String, String)> = Vec::new();
    let mut i: usize = 0;
    while i < hashes.len()
        invariant
            i <= hashes.records().len(),
            pair_views(r@) == rebuild_spec(hashes.records().subrange(0, i as int), previous@, force),
            ".h"@ == header_suffix(),
        decreases hashes.records().len() - i,
    {
        let ghost before = r@;
        assert(hashes.records().subrange(0, i + 1).drop_last() =~= hashes.records().subrange(0, i as int));
        let k = hashes.key_at(i);
        let v = hashes.value_at(i);
        let stale = if ends_with(k.as_str(), ".h") {
            false
        } else if force {
            true
        } else {
            match previous.get(k.as_str()) {
                Some(p) => !(*p == *v),
                None => true,
            }
        };
        assert(hashes.records().subrange(0, i + 1).last() == hashes.records()[i as int]);
        assert(stale == needs_rebuild(k@, v@, previous@, force));
        if stale {
            r.push((k.clone(), v.clone()));
            assert(pair_views(r@) =~= pair_views(before).push((k@, v@)));
        }
        i = i + 1;
    }
    assert(hashes.records().subrange(0, hashes.records().len() as int) =~= hashes.records());
    r
}

/// The line of a record, without its newline: `path=hash`.
pub open spec fn record_body(k: Seq<char>, v: Seq<char>) -> Seq<char> {
    k + seq!['='] + v
}

pub open spec fn record_bodies(recs: Seq<(Seq<char>, Seq<char>)>) -> Seq<Seq<char>> {
    recs.map_values(|r: (Seq<char>, Seq<char>)| record_body(r.0, r.1))
}

/// A table can be written as text and read back: no key holds a newline, and no value
/// holds `=` or a newline.
pub open spec fn persistable(recs: Seq<(Seq<char>, Seq<char>)>) -> bool {
    forall|i: int| 0 <= i < recs.len() ==> lacks(#[trigger] recs[i].0, '\n') && lacks(recs[i].1, '=') && lacks(recs[i].1, '\n')
}

proof fn lemma_split_table_text(recs: Seq<(Seq<char>, Seq<char>)>)
    requires
        persistable(recs),
    ensures
        split_on(table_text(recs), '\n') == record_bodies(recs).push(Seq::<char>::empty()),
    decreases recs.len(),
{
    if recs.len() == 0 {
        assert(record_bodies(recs).push(Seq::<char>::empty()) =~= seq![Seq::<char>::empty()]);
    } else {
        let r = recs.drop_last();
        assert(persistable(r)) by {
            assert forall|i: int| 0 <= i < r.len() implies lacks(#[trigger] r[i].0, '\n') && lacks(r[i].1, '=') && lacks(r[i].1, '\n') by {
                assert(r[i] == recs[i]);
            }
        }
        lemma_split_table_text(r);
        let (k, v) = recs.last();
        assert(lacks(recs[recs.len() - 1].0, '\n'));
        let body = record_body(k, v);
        assert(lacks(body, '\n')) by {
            assert forall|j: int| 0 <= j < body.len() implies body[j] != '\n' by {
                if j < k.len() {
                    assert(body[j] == k[j]);
                } else if j > k.len() {
                    assert(body[j] == v[j - k.len() - 1]);
                }
            }
        }
        let text = table_text(recs);
        assert(text =~= (table_text(r) + body).push('\n'));
        assert(text.drop_last() =~= table_text(r) + body);
        lemma_split_on_append(table_text(r), body, '\n');
        assert(record_bodies(recs) =~= record_bodies(r).push(body));
        assert(split_on(table_text(r) + body, '\n') =~= record_bodies(r).push(body));
        assert(split_on(text, '\n') =~= record_bodies(recs).push(Seq::<char>::empty()));
    }
}

proof fn lemma_split_record_body(k: Seq<char>, v: Seq<char>)
    requires
        lacks(v, '='),
    ensures
        rsplit_once_spec(record_body(k, v), '=') == Some((k, v)),
{
    let b = record_body(k, v);
    let at = k.len() as int;
    assert(is_last_index(b, '=', at)) by {
        assert forall|j: int| at < j < b.len() implies b[j] != '=' by {
            assert(b[j] == v[j - at - 1]);
        }
    }
    assert(!lacks(b, '='));
    let i = choose|i: int| is_last_index(b, '=', i);
    if i < at {
        assert(b[at] != '=');
    } else if i > at {
        assert(b[i] != '=');
    }
    assert(b.subrange(0, at) =~= k);
    assert(b.subrange(at + 1, b.len() as int) =~= v);
}

proof fn lemma_pairs_of_bodies(recs: Seq<(Seq<char>, Seq<char>)>)
    requires
        persistable(recs),
    ensures
        last_pairs_of(record_bodies(recs), '=') == map_of(recs),
    decreases recs.len(),
{
    if recs.len() > 0 {
        let r = recs.drop_last();
        assert(persistable(r)) by {
            assert forall|i: int| 0 <= i < r.len() implies lacks(#[trigger] r[i].0, '\n') && lacks(r[i].1, '=') && lacks(r[i].1, '\n') by {
                assert(r[i] == recs[i]);
            }
        }
        lemma_pairs_of_bodies(r);
        assert(lacks(recs[recs.len() - 1].0, '\n') && lacks(recs[recs.len() - 1].1, '='));
        lemma_split_record_body(recs.last().0, recs.last().1);
        assert(record_bodies(recs).drop_last() =~= record_bodies(r));
    }
}

/// Writing a table as text and reading the text back gives the same table.
pub proof fn lemma_table_round_trip(recs: Seq<(Seq<char>, Seq<char>)>)
    requires
        persistable(recs),
    ensures
        parse_table_spec(table_text(recs)) == map_of(recs),
{
    lemma_split_table_text(recs);
    let lines = record_bodies(recs).push(Seq::<char>::empty());
    assert(lines.drop_last() =~= record_bodies(recs));
    assert(rsplit_once_spec(Seq::<char>::empty(), '=') is None);
    lemma_pairs_of_bodies(recs);
}

proof fn lemma_rebuild_prefix_empty(recs: Seq<(Seq<char>, Seq<char>)>, prev: Map<Seq<char>, Seq<char>>, n: int)
    requires
        0 <= n <= recs.len(),
        forall|j: int| 0 <= j < n ==> prev.contains_key(#[trigger] recs[j].0) && prev[recs[j].0] == recs[j].1,
    ensures
        rebuild_spec(recs.subrange(0, n), prev, false) == Seq::<(Seq<char>, Seq<char>)>::empty(),
    decreases n,
{
    if n > 0 {
        lemma_rebuild_prefix_empty(recs, prev, n - 1);
        assert(recs.subrange(0, n).drop_last() =~= recs.subrange(0, n - 1));
        assert(recs.subrange(0, n).last() == recs[n - 1]);
    }
}

/// Idempotent rebuild: a build of an unchanged tree reads back the table that the build
/// before it persisted and finds nothing to recompile. Here `recs` are the records of a
/// tree's hash table as `gen_hashtable` gives them (unique paths, digest values), for
/// paths free of newlines. Both builds hash the same files into the same records
/// (`gen_hashtable` states them exactly), so both persist the same text.
pub proof fn lemma_idempotent_rebuild(recs: Seq<(Seq<char>, Seq<char>)>)
    requires
        keys_unique(recs),
        forall|i: int| 0 <= i < recs.len() ==> is_digest(#[trigger] recs[i].1),
        forall|i: int| 0 <= i < recs.len() ==> lacks(#[trigger] recs[i].0, '\n'),
    ensures
        parse_table_spec(table_text(recs)) == map_of(recs),
        rebuild_spec(recs, parse_table_spec(table_text(recs)), false) == Seq::<(Seq<char>, Seq<char>)>::empty(),
{
    assert(persistable(recs)) by {
        assert forall|i: int| 0 <= i < recs.len() implies lacks(#[trigger] recs[i].0, '\n') && lacks(recs[i].1, '=') && lacks(recs[i].1, '\n') by {
            assert(is_digest(recs[i].1));
            assert forall|j: int| 0 <= j < recs[i].1.len() implies recs[i].1[j] != '\n' && recs[i].1[j] != '=' by {
                assert(is_lower_hex(recs[i].1[j]));
            }
        }
    }
    lemma_table_round_trip(recs);
    assert forall|j: int| 0 <= j < recs.len() implies map_of(recs).contains_key(#[trigger] recs[j].0) && map_of(recs)[recs[j].0] == recs[j].1 by {
        lemma_map_of_at(recs, j);
    }
    lemma_rebuild_prefix_empty(recs, map_of(recs), recs.len() as int);
    assert(recs.subrange(0, recs.len() as int) =~= recs);
}

/// Each file hashed on its own: the records that files with distinct paths give.
pub open spec fn hashed(files: Seq<(Seq<char>, Seq<char>)>) -> Seq<(Seq<char>, Seq<char>)> {
    files.map_values(|f: (Seq<char>, Seq<char>)| (f.0, md5_hex_of(f.1)))
}

pub open spec fn paths_unique(files: Seq<(Seq<char>, Seq<char>)>) -> bool {
    forall|a: int, b: int| 0 <= a < files.len() && 0 <= b < files.len() && files[a].0 == files[b].0 ==> a == b
}

proof fn lemma_hash_records_unique(files: Seq<(Seq<char>, Seq<char>)>)
    requires
        paths_unique(files),
    ensures
        hash_records(files) == hashed(files),
    decreases files.len(),
{
    if files.len() > 0 {
        let d = files.drop_last();
        lemma_hash_records_unique(d);
        let k = files.last().0;
        assert(!exists|i: int| 0 <= i < hashed(d).len() && hashed(d)[i].0 == k) by {
            if exists|i: int| 0 <= i < hashed(d).len() && hashed(d)[i].0 == k {
                let i = choose|i: int| 0 <= i < hashed(d).len() && hashed(d)[i].0 == k;
                assert(files[i].0 == files[files.len() - 1].0);
            }
        }
        assert(hashed(files) =~= hashed(d).push((k, md5_hex_of(files.last().1))));
    }
}

proof fn lemma_rebuild_one_prefix(
    recs: Seq<(Seq<char>, Seq<char>)>,
    prev: Map<Seq<char>, Seq<char>>,
    i: int,
    n: int,
)
    requires
        0 <= i < recs.len(),
        0 <= n <= recs.len(),
        forall|j: int| 0 <= j < n && j != i ==> prev.contains_key(#[trigger] recs[j].0) && prev[recs[j].0] == recs[j].1,
        prev.contains_key(recs[i].0),
        prev[recs[i].0] != recs[i].1,
    ensures
        rebuild_spec(recs.subrange(0, n), prev, false) == (if n > i && !has_suffix(recs[i].0, header_suffix()) {
            seq![recs[i]]
        } else {
            Seq::<(Seq<char>, Seq<char>)>::empty()
        }),
    decreases n,
{
    if n > 0 {
        lemma_rebuild_one_prefix(recs, prev, i, n - 1);
        assert(recs.subrange(0, n).drop_last() =~= recs.subrange(0, n - 1));
        assert(recs.subrange(0, n).last() == recs[n - 1]);
        if n - 1 == i && !has_suffix(recs[i].0, header_suffix()) {
            assert(Seq::<(Seq<char>, Seq<char>)>::empty().push(recs[i]) =~= seq![recs[i]]);
        }
    }
}

/// Staleness: where one file's text changes between two builds (to a text of another
/// digest), the next rebuild set is exactly that file with its new hash, unless it is a
/// header, which is never compiled on its own. `files` are the tree's files with distinct
/// paths, as the first build hashed them.
pub proof fn lemma_staleness(files: Seq<(Seq<char>, Seq<char>)>, i: int, new_text: Seq<char>)
    requires
        paths_unique(files),
        0 <= i < files.len(),
        md5_hex_of(new_text) != md5_hex_of(files[i].1),
    ensures
        rebuild_spec(hash_records(files.update(i, (files[i].0, new_text))), map_of(hash_records(files)), false) == (
        if has_suffix(files[i].0, header_suffix()) {
            Seq::<(Seq<char>, Seq<char>)>::empty()
        } else {
            seq![(files[i].0, md5_hex_of(new_text))]
        }),
{
    let files2 = files.update(i, (files[i].0, new_text));
    assert(paths_unique(files2)) by {
        assert forall|a: int, b: int| 0 <= a < files2.len() && 0 <= b < files2.len() && files2[a].0 == files2[b].0 implies a == b by {
            assert(files2[a].0 == files[a].0);
            assert(files2[b].0 == files[b].0);
        }
    }
    lemma_hash_records_unique(files);
    lemma_hash_records_unique(files2);
    let recs = hashed(files);
    let recs2 = hashed(files2);
    assert(keys_unique(recs)) by {
        assert forall|a: int, b: int| 0 <= a < recs.len() && 0 <= b < recs.len() && recs[a].0 == recs[b].0 implies a == b by {
            assert(files[a].0 == recs[a].0);
            assert(files[b].0 == recs[b].0);
        }
    }
    let prev = map_of(recs);
    assert forall|j: int| 0 <= j < recs2.len() && j != i implies prev.contains_key(#[trigger] recs2[j].0) && prev[recs2[j].0] == recs2[j].1 by {
        lemma_map_of_at(recs, j);
        assert(recs2[j] == recs[j]);
    }
    lemma_map_of_at(recs, i);
    assert(recs2[i] == (files[i].0, md5_hex_of(new_text)));
    lemma_rebuild_one_prefix(recs2, prev, i, recs2.len() as int);
    assert(recs2.subrange(0, recs2.len() as int) =~= recs2);
}

} // verus!
