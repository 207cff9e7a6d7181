use greathelm::builders::{CBuilder, CustomBuilder, RustBuilder};
use greathelm::cbuild::{archive_args, artifact_path, classify_dependency, compile_args, emit_of, link_args, link_objects, object_path, pkgconf_flags, raw_object, store_dependency_flags, CSettings, DependencyKind, Emit};
use greathelm::dispatch::{find_identifier, select_builder, select_builder_lowered, ComponentInfo, DispatchError};
use greathelm::ibht::{gen_hashtable, parse_ibht, rebuild_set};
use greathelm::identify::NamespacedIdentifier;
use greathelm::manifest::ProjectManifest;

fn infos() -> Vec<ComponentInfo> {
    vec![CBuilder::create().info(), CustomBuilder::create().info(), RustBuilder::create().info()]
}

#[test]
fn two_builders_with_one_alias_are_ambiguous() {
    let v = vec![CBuilder::create().info(), CBuilder::create().info()];
    assert_eq!(select_builder(&"c".to_string(), &v), Err(DispatchError::Ambiguous));
}

#[test]
fn alias_match_ignores_case() {
    assert_eq!(select_builder(&"C".to_string(), &infos()), Ok(0));
    assert_eq!(select_builder(&"RS".to_string(), &infos()), Ok(2));
}

#[test]
fn identifier_match_selects_builder() {
    let v = vec![CBuilder::create().info(), CBuilder::create().info(), RustBuilder::create().info()];
    assert_eq!(select_builder(&"io.github.greathelm.greathelm:Rust".to_string(), &v), Ok(2));
}

#[test]
fn unknown_type_is_missing() {
    assert_eq!(select_builder(&"zig".to_string(), &infos()), Err(DispatchError::Missing));
    assert_eq!(select_builder(&"nobody:C".to_string(), &infos()), Err(DispatchError::Missing));
}

#[test]
fn lowered_selection_takes_the_given_form() {
    let none: Option<NamespacedIdentifier> = None;
    assert_eq!(select_builder_lowered(&"C".to_string(), &none, &infos()), Err(DispatchError::Missing));
    assert_eq!(select_builder_lowered(&"custom".to_string(), &none, &infos()), Ok(1));
}

#[test]
fn identifiers_are_found_by_value() {
    let ids = vec![CBuilder::create().get_identifier(), RustBuilder::create().get_identifier()];
    assert_eq!(find_identifier(&ids, &RustBuilder::create().get_identifier()), Some(1));
    assert_eq!(find_identifier(&ids, &CustomBuilder::create().get_identifier()), None);
}

#[test]
fn emit_kinds() {
    assert_eq!(emit_of("executable"), (Emit::Binary, true));
    assert_eq!(emit_of("shared"), (Emit::Dylib, true));
    assert_eq!(emit_of("staticlib"), (Emit::Staticlib, true));
    assert_eq!(emit_of("wasm"), (Emit::Binary, false));
}

#[test]
fn object_names_flatten_paths() {
    assert_eq!(object_path("src/util/x.c", "ab12"), "build/src_util_x.c-ab12.o");
}

#[test]
fn dependencies_are_classified() {
    assert!(matches!(classify_dependency("raw/crt0"), DependencyKind::Raw(n) if n == "crt0"));
    assert!(matches!(classify_dependency("sys/zlib"), DependencyKind::System(n) if n == "zlib"));
    assert!(matches!(classify_dependency("provided/m"), DependencyKind::Provided(n) if n == "m"));
    assert!(matches!(classify_dependency("a.b:C@1.0"), DependencyKind::Store(n) if n == "a.b:C@1.0"));
    assert_eq!(raw_object("crt0"), "lib/obj/crt0.o");
}

#[test]
fn pkgconf_output_splits_into_flags() {
    let (link, cc) = pkgconf_flags("-I/usr/include/z -lz \n");
    assert_eq!(link, vec!["-I/usr/include/z".to_string(), "-lz".to_string()]);
    assert_eq!(cc, vec!["-I/usr/include/z".to_string()]);
    let (link2, cc2) = pkgconf_flags("-lm");
    assert_eq!(link2, vec!["-lm".to_string()]);
    assert!(cc2.is_empty());
}

#[test]
fn store_dependency_flags_name_its_library() {
    let mut dep = ProjectManifest::new();
    dep.apply_line("Executable-Name=foo");
    let (link, cc) = store_dependency_flags("/s/a/B/@1.0.0", &dep);
    assert_eq!(link, vec!["-L/s/a/B/@1.0.0/build".to_string(), "-I/s/a/B/@1.0.0/export".to_string(), "-lfoo".to_string()]);
    assert_eq!(cc, vec!["-I/s/a/B/@1.0.0/export".to_string()]);
    let (link2, _) = store_dependency_flags("/p", &ProjectManifest::new());
    assert_eq!(link2[2], "-lLIBRESOLVEERROR");
}

#[test]
fn settings_from_manifest() {
    let mut m = ProjectManifest::new();
    for l in ["Emit=dylib", "Executable-Name=z", "Additional-CC-Flags=-DX,-DY", "debug-info=true"] {
        m.apply_line(l);
    }
    let s = CSettings::from_manifest(&m);
    assert_eq!(s.cc, "cc");
    assert_eq!(s.opt, "2");
    assert_eq!(s.emit, Emit::Dylib);
    assert_eq!(s.cflags, vec!["-DX".to_string(), "-DY".to_string()]);
    assert!(s.ldflags.is_empty());
    assert!(s.debug_info);
    assert!(!s.force_full_rebuild);
    assert_eq!(artifact_path(&s), "build/libz.so");
    let args = compile_args(&s, "src/a.c", "h1", &vec!["-I/dep".to_string()]);
    assert_eq!(args, vec!["-c", "-o", "build/src_a.c-h1.o", "-O2", "-Wall", "-DX", "-DY", "-I/dep", "src/a.c", "-g"]);
}

#[test]
fn link_arguments_follow_directives() {
    let mut m = ProjectManifest::new();
    for l in ["Emit=dylib", "@Directive no-link-libc", "C-Linker-Script=link.ld", "Additional-LD-Flags=-s"] {
        m.apply_line(l);
    }
    let s = CSettings::from_manifest(&m);
    let args = link_args(&s, &vec!["o1.o".to_string()], &vec!["-lm".to_string()], &m);
    assert_eq!(
        args,
        vec!["-o", "build/libbinary.so", "-s", "o1.o", "-I./lib/include", "-L./lib/shared", "-lm", "-shared", "-nostdlib", "-T", "link.ld"]
    );
}

#[test]
fn static_library_is_archived() {
    let mut m = ProjectManifest::new();
    m.apply_line("Emit=staticlib");
    let s = CSettings::from_manifest(&m);
    assert_eq!(archive_args(&s, &vec!["a.o".to_string()]), vec!["rcs", "build/libbinary.a", "a.o"]);
}

#[test]
fn fresh_c_project_compiles_each_file_and_links_once() {
    let mut m = ProjectManifest::new();
    m.apply_line("Project-Type=C");
    let builders = infos();
    let chosen = select_builder(&m.get_string_property("Project-Type", "Unknown"), &builders).unwrap();
    assert_eq!(chosen, 0);
    let s = CSettings::from_manifest(&m);
    let tree = vec![("src/main.c".to_string(), "int main(){}".to_string()), ("src/util.c".to_string(), "int u;".to_string())];
    let hashes = gen_hashtable(&tree);
    let previous = parse_ibht("");
    let rebuild = rebuild_set(&hashes, &previous, s.force_full_rebuild);
    assert_eq!(rebuild.len(), 2);
    let objects: Vec<String> = rebuild.iter().map(|(f, h)| compile_args(&s, f, h, &vec![])[2].clone()).collect();
    assert_eq!(objects.len(), 2);
    assert_ne!(objects[0], objects[1]);
    let link = link_objects(&hashes);
    assert_eq!(link, objects);
    let ld = link_args(&s, &link, &vec![], &m);
    assert_eq!(ld.iter().filter(|a| a.as_str() == "-o").count(), 1);
    assert_eq!(ld[1], "build/binary");
}

#[test]
fn listing_lines_join_aliases() {
    let r = RustBuilder::create();
    assert_eq!(greathelm::dispatch::listing_line(&r.info(), &r.get_name()), "io.github.greathelm.greathelm:Rust;Rust;rust,rs");
    let none = ComponentInfo { identifier: r.get_identifier(), aliases: vec![] };
    assert_eq!(greathelm::dispatch::listing_line(&none, "X"), "io.github.greathelm.greathelm:Rust;X;");
}

#[test]
fn aliases_substitute_names() {
    let mut a = greathelm::table::TextMap::new();
    a.insert("b".to_string(), "build".to_string());
    assert_eq!(greathelm::dispatch::resolve_alias(&"b".to_string(), &a), "build");
    assert_eq!(greathelm::dispatch::resolve_alias(&"c".to_string(), &a), "c");
}
