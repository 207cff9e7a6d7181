use greathelm::ibht::{gen_hashtable, ibht_text, parse_ibht, rebuild_set};
use greathelm::table::TextMap;

fn files(list: &[(&str, &str)]) -> Vec<(String, String)> {
    list.iter().map(|(p, c)| (p.to_string(), c.to_string())).collect()
}

#[test]
fn hashes_are_md5_hex() {
    let t = gen_hashtable(&files(&[("src/a.c", "hello"), ("src/e.c", "")]));
    assert_eq!(t.get("src/a.c").unwrap(), "5d41402abc4b2a76b9719d911017c592");
    assert_eq!(t.get("src/e.c").unwrap(), "d41d8cd98f00b204e9800998ecf8427e");
    assert_eq!(ibht_text(&t), "src/a.c=5d41402abc4b2a76b9719d911017c592\nsrc/e.c=d41d8cd98f00b204e9800998ecf8427e\n");
}

#[test]
fn table_text_reads_back() {
    let t = gen_hashtable(&files(&[("src/a.c", "x"), ("src/b.c", "y")]));
    let back = parse_ibht(&ibht_text(&t));
    assert_eq!(back.len(), 2);
    assert_eq!(back.get("src/a.c"), t.get("src/a.c"));
    assert_eq!(back.get("src/b.c"), t.get("src/b.c"));
}

#[test]
fn reading_skips_lines_without_equals() {
    let t = parse_ibht("garbage\na=1\n\nb=2=3\na=4");
    assert_eq!(t.len(), 2);
    assert_eq!(t.get("a").unwrap(), "4");
    assert_eq!(t.get("b=2").unwrap(), "3");
}

#[test]
fn unchanged_tree_rebuilds_nothing() {
    let tree = files(&[("src/a.c", "int a;"), ("src/b.c", "int b;"), ("src/a.h", "")]);
    let first = gen_hashtable(&tree);
    let persisted = ibht_text(&first);
    let second = gen_hashtable(&tree);
    let loaded = parse_ibht(&persisted);
    assert!(rebuild_set(&second, &loaded, false).is_empty());
    assert_eq!(ibht_text(&second), persisted);
}

#[test]
fn changed_file_alone_is_rebuilt() {
    let before = gen_hashtable(&files(&[("src/a.c", "int a;"), ("src/b.c", "int b;")]));
    let after = gen_hashtable(&files(&[("src/a.c", "int a;"), ("src/b.c", "int b = 1;")]));
    let r = rebuild_set(&after, &parse_ibht(&ibht_text(&before)), false);
    assert_eq!(r.len(), 1);
    assert_eq!(r[0].0, "src/b.c");
    assert_eq!(&r[0].1, after.get("src/b.c").unwrap());
}

#[test]
fn changed_header_is_not_compiled() {
    let before = gen_hashtable(&files(&[("src/a.c", "int a;"), ("src/a.h", "x")]));
    let after = gen_hashtable(&files(&[("src/a.c", "int a;"), ("src/a.h", "y")]));
    assert!(rebuild_set(&after, &before, false).is_empty());
}

#[test]
fn no_previous_table_rebuilds_everything() {
    let now = gen_hashtable(&files(&[("src/a.c", "1"), ("src/b.c", "2"), ("src/c.h", "3")]));
    let r = rebuild_set(&now, &TextMap::new(), false);
    assert_eq!(r.len(), 2);
}

#[test]
fn forced_rebuild_takes_every_source() {
    let now = gen_hashtable(&files(&[("src/a.c", "1"), ("src/b.c", "2")]));
    assert_eq!(rebuild_set(&now, &now, true).len(), 2);
    assert!(rebuild_set(&now, &now, false).is_empty());
}

#[test]
fn same_path_twice_keeps_last_hash() {
    let t = gen_hashtable(&files(&[("p", "hello"), ("p", "")]));
    assert_eq!(t.len(), 1);
    assert_eq!(t.get("p").unwrap(), "d41d8cd98f00b204e9800998ecf8427e");
}

#[test]
fn path_with_equals_sign_reads_back() {
    let tree = files(&[("src/a=b.c", "x"), ("src/c.c", "y")]);
    let first = gen_hashtable(&tree);
    let loaded = parse_ibht(&ibht_text(&first));
    assert_eq!(loaded.get("src/a=b.c"), first.get("src/a=b.c"));
    assert!(rebuild_set(&gen_hashtable(&tree), &loaded, false).is_empty());
}
