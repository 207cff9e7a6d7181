use greathelm::manifest::ProjectManifest;
use greathelm::rustbuild::{classify_rust_dependency, crate_decoration, crate_extern, store_extern, vendored_extern, RustDependency, RustSettings};

fn manifest(lines: &[&str]) -> ProjectManifest {
    let mut m = ProjectManifest::new();
    for l in lines {
        m.apply_line(l);
    }
    m
}

#[test]
fn crate_type_decorations() {
    assert_eq!(crate_decoration("bin"), (String::new(), String::new()));
    assert_eq!(crate_decoration("rlib"), ("lib".to_string(), ".rlib".to_string()));
    assert_eq!(crate_decoration("cdylib"), ("lib".to_string(), ".so".to_string()));
    assert_eq!(crate_decoration("staticlib"), ("lib".to_string(), ".a".to_string()));
    assert_eq!(crate_decoration("proc-macro"), (String::new(), String::new()));
}

#[test]
fn rustc_arguments_from_settings() {
    let s = RustSettings::from_manifest(&manifest(&["Project-Name=tool", "Crate-Type=rlib", "Compiler-Opt-Level=3"]));
    assert_eq!(s.executable_name, "tool");
    assert_eq!(s.root_file(), "src/lib.rs");
    assert_eq!(
        s.rustc_base_args(),
        vec!["--crate-type", "rlib", "--emit", "link", "-o", "build/libtool.rlib", "--edition", "2021", "-C", "opt-level=3"]
    );
    let b = RustSettings::from_manifest(&ProjectManifest::new());
    assert_eq!(b.root_file(), "src/main.rs");
    assert_eq!(b.artifact(), "build/Unnamed-Project");
}

#[test]
fn rust_dependencies_are_classified() {
    assert!(matches!(classify_rust_dependency("vendored/foo"), RustDependency::Vendored(n) if n == "foo"));
    match classify_rust_dependency("crates.io/cargo/serde@1.0.0") {
        RustDependency::Crate { name, version, cargo } => {
            assert_eq!(name, "serde");
            assert_eq!(version, "1.0.0");
            assert!(cargo);
        },
        _ => panic!("not a crate"),
    }
    assert!(matches!(classify_rust_dependency("crates.io/rand@0.8"), RustDependency::Crate { cargo: false, .. }));
    assert!(matches!(classify_rust_dependency("crates.io/rand"), RustDependency::CrateWithoutVersion(n) if n == "rand"));
    assert!(matches!(classify_rust_dependency("a.b:C"), RustDependency::Store(n) if n == "a.b:C"));
}

#[test]
fn extern_values() {
    assert_eq!(vendored_extern("foo"), "foo=lib/rlib/libfoo.rlib");
    assert_eq!(crate_extern("serde"), "serde=lib/crates/libserde.rlib");
    let dep = manifest(&["Crate-Type=cdylib", "Executable-Name=util"]);
    assert_eq!(store_extern("Util", "/s/x/Util/@1.0.0", &dep), "util=/s/x/Util/@1.0.0/export/libutil.so");
    assert_eq!(store_extern("Util", "/p", &ProjectManifest::new()), "util=/p/export/libUtil.rlib");
}

#[test]
fn named_extern_uses_given_crate_name() {
    let dep = manifest(&["Executable-Name=util"]);
    assert_eq!(greathelm::rustbuild::store_extern_named("Util", "Util", "/p", &dep), "Util=/p/export/libutil.rlib");
}
