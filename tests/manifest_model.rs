use greathelm::manifest::{classify_line, ManifestLine, ProjectManifest};

fn manifest(lines: &[&str]) -> ProjectManifest {
    let mut m = ProjectManifest::new();
    for l in lines {
        assert!(m.apply_line(l).is_none());
    }
    m
}

#[test]
fn new_manifest_is_empty() {
    let m = ProjectManifest::new();
    assert_eq!(m.properties.len(), 0);
    for d in ["Dependency", "Alias", "Module", "Directive"] {
        assert!(m.get_directive(d).is_empty());
    }
}

#[test]
fn lines_are_classified() {
    assert!(matches!(classify_line("# a=b"), ManifestLine::Comment));
    match classify_line("@Import ../Base.ghm") {
        ManifestLine::Import(p) => assert_eq!(p, "../Base.ghm"),
        _ => panic!("not an import"),
    }
    match classify_line("@Export build/x bin/x") {
        ManifestLine::Directive(n, v) => {
            assert_eq!(n, "Export");
            assert_eq!(v, "build/x bin/x");
        },
        _ => panic!("not a directive"),
    }
    match classify_line("Project-Name=Demo=1") {
        ManifestLine::Property(k, v) => {
            assert_eq!(k, "Project-Name");
            assert_eq!(v, "Demo=1");
        },
        _ => panic!("not a property"),
    }
    assert!(matches!(classify_line("just text"), ManifestLine::Ignored));
    assert!(matches!(classify_line("@X=y"), ManifestLine::Ignored));
    assert!(matches!(classify_line(""), ManifestLine::Ignored));
}

#[test]
fn directive_value_keeps_spaces_and_equals() {
    let m = manifest(&["@Note a  b = c"]);
    assert_eq!(m.get_directive("Note"), vec!["a  b = c".to_string()]);
    assert!(m.properties.get("@Note a  b ").is_none());
}

#[test]
fn import_line_returns_path() {
    let mut m = ProjectManifest::new();
    assert_eq!(m.apply_line("@Import other.ghm"), Some("other.ghm".to_string()));
    assert!(m.get_directive("Import").is_empty());
}

#[test]
fn later_property_wins() {
    let m = manifest(&["Project-Type=C", "# Project-Type=Rust", "Project-Type=Custom"]);
    assert_eq!(m.get_string_property("Project-Type", "Unknown"), "Custom");
    assert_eq!(m.get_string_property("Missing", "Unknown"), "Unknown");
}

#[test]
fn directives_keep_order() {
    let m = manifest(&["@Dependency a:b", "@Dependency c:d@1.0.0", "@Alias x y"]);
    assert_eq!(m.get_directive("Dependency"), vec!["a:b".to_string(), "c:d@1.0.0".to_string()]);
    assert!(m.has_directive_value("Dependency", "a:b"));
    assert!(!m.has_directive_value("Alias", "a:b"));
}

#[test]
fn typed_accessors_fall_back_to_default() {
    let m = manifest(&["n=42", "neg=-7", "big=4294967296", "flag=true", "bad=4x", "plus=+5", "min=-2147483648"]);
    assert_eq!(m.get_i32_property("n", 1), 42);
    assert_eq!(m.get_i32_property("neg", 1), -7);
    assert_eq!(m.get_i32_property("min", 1), i32::MIN);
    assert_eq!(m.get_u32_property("big", 9), 9);
    assert_eq!(m.get_u64_property("big", 9), 4294967296);
    assert_eq!(m.get_i64_property("neg", 0), -7);
    assert_eq!(m.get_usize_property("bad", 3), 3);
    assert_eq!(m.get_usize_property("plus", 3), 5);
    assert_eq!(m.get_u32_property("neg", 8), 8);
    assert!(m.get_bool_property("flag", false));
    assert!(m.get_bool_property("bad", true));
    assert!(!m.get_bool_property("absent", false));
    assert_eq!(m.get_i32_property("absent", -3), -3);
}

#[test]
fn cli_tokens_override_and_add() {
    let mut m = manifest(&["Emit=binary"]);
    m.append_from_cli_args(vec![
        "--Emit=dylib".to_string(),
        "--force-full-rebuild".to_string(),
        "@Dependency:a.b:C@1.0".to_string(),
        "build".to_string(),
        "@nocolon".to_string(),
    ]);
    assert_eq!(m.get_string_property("Emit", ""), "dylib");
    assert_eq!(m.get_string_property("force-full-rebuild", ""), "true");
    assert_eq!(m.get_directive("Dependency"), vec!["a.b:C@1.0".to_string()]);
    assert_eq!(m.properties.len(), 2);
}

#[test]
fn modules_from_directives() {
    let m = manifest(&["@Module libx skip:me inc/x.h:include/x.h lib/x.a:build/libx.a"]);
    let mods = m.get_modules();
    assert_eq!(mods.len(), 1);
    assert_eq!(mods[0].module_name, "libx");
    assert_eq!(mods[0].files.len(), 2);
    assert_eq!(mods[0].files.get("inc/x.h").unwrap(), "include/x.h");
    assert_eq!(mods[0].files.get("lib/x.a").unwrap(), "build/libx.a");
    assert!(mods[0].files.get("skip").is_none());
}

#[test]
fn module_without_files() {
    let m = manifest(&["@Module solo x"]);
    let mods = m.get_modules();
    assert_eq!(mods[0].module_name, "solo");
    assert_eq!(mods[0].files.len(), 0);
}

#[test]
fn aliases_from_directives() {
    let m = manifest(&["@Alias cc io.example:C", "@Alias bare", "@Alias cc io.other:C"]);
    let a = m.get_aliases_map();
    assert_eq!(a.len(), 1);
    assert_eq!(a.get("cc").unwrap(), "io.other:C");
}

#[test]
fn at_line_sets_no_property() {
    let m = manifest(&["@X=y", "@Note k=v"]);
    assert_eq!(m.properties.len(), 0);
    assert_eq!(m.get_directive("Note"), vec!["k=v".to_string()]);
}
