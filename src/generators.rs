use vstd::prelude::*;
use crate::identify::NamespacedIdentifier;
use crate::text::views;

verus! {

/// Generates a new C project.
pub struct CGenerator {}

impl CGenerator {
    pub fn create() -> (r: CGenerator) {
        CGenerator {}
    }

    /// The display name.
    pub fn get_name(&self) -> (r: String)
        ensures
            r@ == "C"@,
    {
        "C".to_string()
    }

    /// The short names it is called by.
    pub fn get_aliases(&self) -> (r: Vec<String>)
        ensures
            views(r@) == seq!["c"@],
    {
        let mut v: Vec<String> = Vec::new();
        v.push("c".to_string());
        assert(views(v@) =~= seq!["c"@]);
        v
    }

    /// The full identifier, `io.github.madelynwith5ns.greathelm:C`.
    pub fn get_identifier(&self) -> (r: NamespacedIdentifier)
        ensures
            r@ == ("io.github.madelynwith5ns.greathelm"@, "C"@),
    {
        NamespacedIdentifier { namespace: "io.github.madelynwith5ns.greathelm".to_string(), identifier: "C".to_string() }
    }

}

/// Generates a new C++ project.
pub struct CPPGenerator {}

impl CPPGenerator {
    pub fn create() -> (r: CPPGenerator) {
        CPPGenerator {}
    }

    /// The display name.
    pub fn get_name(&self) -> (r: String)
        ensures
            r@ == "C++"@,
    {
        "C++".to_string()
    }

    /// The short names it is called by.
    pub fn get_aliases(&self) -> (r: Vec<String>)
        ensures
            views(r@) == seq!["c++"@, "cpp"@],
    {
        let mut v: Vec<String> = Vec::new();
        v.push("c++".to_string());
        v.push("cpp".to_string());
        assert(views(v@) =~= seq!["c++"@, "cpp"@]);
        v
    }

    /// The full identifier, `io.github.greathelm.greathelm:C++`.
    pub fn get_identifier(&self) -> (r: NamespacedIdentifier)
        ensures
            r@ == ("io.github.greathelm.greathelm"@, "C++"@),
    {
        NamespacedIdentifier { namespace: "io.github.greathelm.greathelm".to_string(), identifier: "C++".to_string() }
    }

}

/// Generates a new project built by its own scripts.
pub struct CustomGenerator {}

impl CustomGenerator {
    pub fn create() -> (r: CustomGenerator) {
        CustomGenerator {}
    }

    /// The display name.
    pub fn get_name(&self) -> (r: String)
        ensures
            r@ == "Custom"@,
    {
        "Custom".to_string()
    }

    /// The short names it is called by.
    pub fn get_aliases(&self) -> (r: Vec<String>)
        ensures
            views(r@) == seq!["custom"@],
    {
        let mut v: Vec<String> = Vec::new();
        v.push("custom".to_string());
        assert(views(v@) =~= seq!["custom"@]);
        v
    }

    /// The full identifier, `io.github.madelynwith5ns.greathelm:Custom`.
    pub fn get_identifier(&self) -> (r: NamespacedIdentifier)
        ensures
            r@ == ("io.github.madelynwith5ns.greathelm"@, "Custom"@),
    {
        NamespacedIdentifier { namespace: "io.github.madelynwith5ns.greathelm".to_string(), identifier: "Custom".to_string() }
    }

}

/// Generates a new Rust project.
pub struct RustGenerator {}

impl RustGenerator {
    pub fn create() -> (r: RustGenerator) {
        RustGenerator {}
    }

    /// The display name.
    pub fn get_name(&self) -> (r: String)
        ensures
            r@ == "Rust"@,
    {
        "Rust".to_string()
    }

    /// The short names it is called by.
    pub fn get_aliases(&self) -> (r: Vec<String>)
        ensures
            views(r@) == seq!["rust"@, "rs"@],
    {
        let mut v: Vec<String> = Vec::new();
        v.push("rust".to_string());
        v.push("rs".to_string());
        assert(views(v@) =~= seq!["rust"@, "rs"@]);
        v
    }

    /// The full identifier, `io.github.greathelm.greathelm:Rust`.
    pub fn get_identifier(&self) -> (r: NamespacedIdentifier)
        ensures
            r@ == ("io.github.greathelm.greathelm"@, "Rust"@),
    {
        NamespacedIdentifier { namespace: "io.github.greathelm.greathelm".to_string(), identifier: "Rust".to_string() }
    }

}

} // verus!
