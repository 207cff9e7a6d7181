use vstd::prelude::*;
use crate::cbuild::string_prop;
use crate::dispatch::{lower_of, lowercase};
use crate::manifest::ProjectManifest;
use crate::text::{concat, same_text, contains_str, has_infix, has_prefix, slice, split_once, split_once_spec, starts_with, views};

verus! {

/// The file-name prefix and suffix of an artifact of a crate type: `lib` where the type
/// mentions `lib`; `.rlib` for `rlib`, `dylib` and `lib`, `.so` for `cdylib`, `.a` for
/// `staticlib`, none otherwise.
pub open spec fn decoration_spec(t: Seq<char>) -> (Seq<char>, Seq<char>) {
    (if has_infix(t, "lib"@) { "lib"@ } else { Seq::empty() },
    if t == "rlib"@ || t == "dylib"@ || t == "lib"@ {
        ".rlib"@
    } else if t == "cdylib"@ {
        ".so"@
    } else if t == "staticlib"@ {
        ".a"@
    } else {
        Seq::empty()
    })
}

pub fn crate_decoration(crate_type: &str) -> (r: (String, String))
    ensures
        (r.0@, r.1@) == decoration_spec(crate_type@),
{
    proof {
        reveal_strlit("");
    }
    let prefix = if contains_str(crate_type, "lib") { "lib".to_string() } else { "".to_string() };
    let suffix = if same_text(crate_type, "rlib") || same_text(crate_type, "dylib") || same_text(crate_type, "lib") {
        ".rlib".to_string()
    } else if same_text(crate_type, "cdylib") {
        ".so".to_string()
    } else if same_text(crate_type, "staticlib") {
        ".a".to_string()
    } else {
        "".to_string()
    };
    (prefix, suffix)
}

/// The settings of a Rust build, read from the manifest.
pub struct RustSettings {
    pub crate_type: String,
    pub project_name: String,
    pub executable_name: String,
    pub opt_level: String,
    pub edition: String,
}

impl RustSettings {
    pub fn from_manifest(m: &ProjectManifest) -> (r: RustSettings)
        ensures
            r.crate_type@ == string_prop(m, "Crate-Type"@, "bin"@),
            r.project_name@ == string_prop(m, "Project-Name"@, "Unnamed-Project"@),
            r.executable_name@ == string_prop(m, "Executable-Name"@, r.project_name@),
            r.opt_level@ == string_prop(m, "Compiler-Opt-Level"@, "2"@),
            r.edition@ == string_prop(m, "Rust-Edition"@, "2021"@),
    {
        let project_name = m.get_string_property("Project-Name", "Unnamed-Project");
        let executable_name = m.get_string_property("Executable-Name", project_name.as_str());
        RustSettings {
            crate_type: m.get_string_property("Crate-Type", "bin"),
            project_name,
            executable_name,
            opt_level: m.get_string_property("Compiler-Opt-Level", "2"),
            edition: m.get_string_property("Rust-Edition", "2021"),
        }
    }

    /// The artifact the build writes: `build/<prefix><name><suffix>`.
    pub open spec fn artifact_spec(&self) -> Seq<char> {
        "build/"@ + decoration_spec(self.crate_type@).0 + self.executable_name@ + decoration_spec(self.crate_type@).1
    }

    pub fn artifact(&self) -> (r: String)
        ensures
            r@ == self.artifact_spec(),
    {
        let (prefix, suffix) = crate_decoration(self.crate_type.as_str());
        let a = concat("build/", prefix.as_str());
        let b = concat(a.as_str(), self.executable_name.as_str());
        concat(b.as_str(), suffix.as_str())
    }

    /// The crate root: `src/main.rs` for a binary, `src/lib.rs` otherwise.
    pub fn root_file(&self) -> (r: String)
        ensures
            r@ == (if self.crate_type@ == "bin"@ { "src/main.rs"@ } else { "src/lib.rs"@ }),
    {
        if same_text(self.crate_type.as_str(), "bin") {
            "src/main.rs".to_string()
        } else {
            "src/lib.rs".to_string()
        }
    }

    /// The first rustc arguments: crate type, `--emit link`, output, edition and
    /// optimisation level.
    pub fn rustc_base_args(&self) -> (r: Vec<String>)
        ensures
            views(r@) == seq![
                "--crate-type"@, self.crate_type@, "--emit"@, "link"@, "-o"@, self.artifact_spec(),
                "--edition"@, self.edition@, "-C"@, "opt-level="@ + self.opt_level@,
            ],
    {
        let mut r: Vec<String> = Vec::new();
        r.push("--crate-type".to_string());
        r.push(self.crate_type.clone());
        r.push("--emit".to_string());
        r.push("link".to_string());
        r.push("-o".to_string());
        r.push(self.artifact());
        r.push("--edition".to_string());
        r.push(self.edition.clone());
        r.push("-C".to_string());
        r.push(concat("opt-level=", self.opt_level.as_str()));
        assert(views(r@) =~= seq![
            "--crate-type"@, self.crate_type@, "--emit"@, "link"@, "-o"@, self.artifact_spec(),
            "--edition"@, self.edition@, "-C"@, "opt-level="@ + self.opt_level@,
        ]);
        r
    }
}

/// How a `@Dependency` entry of a Rust project is provided.
pub enum RustDependency {
    /// `vendored/<name>`: `lib/rlib/lib<name>.rlib`.
    Vendored(String),
    /// `crates.io/[cargo/]<name>@<version>`: a crate downloaded from crates.io, built with
    /// Cargo where `cargo/` is given.
    Crate { name: String, version: String, cargo: bool },
    /// A crates.io entry without `@<version>`, which cannot be fetched.
    CrateWithoutVersion(String),
    /// Anything else: dependency notation resolved through the store.
    Store(String),
}

pub open spec fn crate_spec(rest: Seq<char>, r: RustDependency) -> bool {
    let cargo = has_prefix(rest, "cargo/"@);
    let body = if cargo { rest.subrange(6, rest.len() as int) } else { rest };
    match split_once_spec(body, '@') {
        Some((n, v)) => r is Crate && r->name@ == n && r->version@ == v && r->cargo == cargo,
        None => r is CrateWithoutVersion && r->CrateWithoutVersion_0@ == body,
    }
}

pub open spec fn rust_dependency_spec(d: Seq<char>, r: RustDependency) -> bool {
    if has_prefix(d, "vendored/"@) {
        r is Vendored && r->Vendored_0@ == d.subrange(9, d.len() as int)
    } else if has_prefix(d, "crates.io/"@) {
        crate_spec(d.subrange(10, d.len() as int), r)
    } else {
        r is Store && r->Store_0@ == d
    }
}

/// Classifies a `@Dependency` entry of a Rust project by its prefix.
pub fn classify_rust_dependency(d: &str) -> (r: RustDependency)
    ensures
        rust_dependency_spec(d@, r),
{
    proof {
        reveal_strlit("vendored/");
        reveal_strlit("crates.io/");
        reveal_strlit("cargo/");
    }
    let n = d.unicode_len();
    if starts_with(d, "vendored/") {
        RustDependency::Vendored(slice(d, 9, n))
    } else if starts_with(d, "crates.io/") {
        let rest = slice(d, 10, n);
        let m = rest.unicode_len();
        let cargo = starts_with(rest.as_str(), "cargo/");
        let body = if cargo { slice(rest.as_str(), 6, m) } else { rest.clone() };
        match split_once(body.as_str(), '@') {
            Some((name, version)) => RustDependency::Crate { name, version, cargo },
            None => RustDependency::CrateWithoutVersion(body),
        }
    } else {
        RustDependency::Store(d.to_string())
    }
}

/// The `--extern` value of a vendored crate: `<name>=lib/rlib/lib<name>.rlib`.
pub fn vendored_extern(name: &str) -> (r: String)
    ensures
        r@ == name@ + "=lib/rlib/lib"@ + name@ + ".rlib"@,
{
    let a = concat(name, "=lib/rlib/lib");
    let b = concat(a.as_str(), name);
    concat(b.as_str(), ".rlib")
}

/// The `--extern` value of a crates.io crate: `<name>=lib/crates/lib<name>.rlib`.
pub fn crate_extern(name: &str) -> (r: String)
    ensures
        r@ == name@ + "=lib/crates/lib"@ + name@ + ".rlib"@,
{
    let a = concat(name, "=lib/crates/lib");
    let b = concat(a.as_str(), name);
    concat(b.as_str(), ".rlib")
}

/// The `--extern` value of a dependency built in the store at `path`:
/// `<crate name>=<path>/export/<artifact>`, the artifact named by the dependency's own
/// manifest (its `Executable-Name`, by default `identifier`, and its `Crate-Type`, by
/// default `rlib`).
pub open spec fn extern_spec(crate_name: Seq<char>, identifier: Seq<char>, path: Seq<char>, dep: &ProjectManifest) -> Seq<char> {
    let t = string_prop(dep, "Crate-Type"@, "rlib"@);
    crate_name + "="@ + path + "/export/"@ + decoration_spec(t).0 + string_prop(dep, "Executable-Name"@, identifier)
        + decoration_spec(t).1
}

/// The `--extern` value of a store dependency whose crate name is `crate_name`.
pub fn store_extern_named(crate_name: &str, identifier: &str, path: &str, dep: &ProjectManifest) -> (r: String)
    ensures
        r@ == extern_spec(crate_name@, identifier@, path@, dep),
{
    let name = dep.get_string_property("Executable-Name", identifier);
    let t = dep.get_string_property("Crate-Type", "rlib");
    let (prefix, suffix) = crate_decoration(t.as_str());
    let a = concat(crate_name, "=");
    let b = concat(a.as_str(), path);
    let c = concat(b.as_str(), "/export/");
    let d = concat(c.as_str(), prefix.as_str());
    let e = concat(d.as_str(), name.as_str());
    concat(e.as_str(), suffix.as_str())
}

/// The `--extern` value of a store dependency: its crate name is its identifier in
/// lower case.
pub fn store_extern(identifier: &str, path: &str, dep: &ProjectManifest) -> (r: String)
    ensures
        r@ == extern_spec(lower_of(identifier@), identifier@, path@, dep),
{
    let low = lowercase(identifier);
    store_extern_named(low.as_str(), identifier, path, dep)
}

} // verus!
