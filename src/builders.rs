use vstd::prelude::*;
use crate::identify::NamespacedIdentifier;
use crate::text::views;
use crate::dispatch::ComponentInfo;

verus! {

/// The built-in builder for C projects: compiles each changed source file in parallel and links the objects.
pub struct CBuilder {}

impl CBuilder {
    pub fn create() -> (r: CBuilder) {
        CBuilder {}
    }

    /// The display name.
    pub fn get_name(&self) -> (r: String)
        ensures
            r@ == "C"@,
    {
        "C".to_string()
    }

    /// The short names it is called by.
    pub fn get_aliases(&self) -> (r: Vec<String>)
        ensures
            views(r@) == seq!["c"@],
    {
        let mut v: Vec<String> = Vec::new();
        v.push("c".to_string());
        assert(views(v@) =~= seq!["c"@]);
        v
    }

    /// The full identifier, `io.github.madelynwith5ns.greathelm:C`.
    pub fn get_identifier(&self) -> (r: NamespacedIdentifier)
        ensures
            r@ == ("io.github.madelynwith5ns.greathelm"@, "C"@),
    {
        NamespacedIdentifier { namespace: "io.github.madelynwith5ns.greathelm".to_string(), identifier: "C".to_string() }
    }

    /// What dispatch needs to know of this builder.
    pub fn info(&self) -> (r: ComponentInfo)
        ensures
            r@ == (("io.github.madelynwith5ns.greathelm"@, "C"@), seq!["c"@]),
    {
        ComponentInfo { identifier: self.get_identifier(), aliases: self.get_aliases() }
    }

}

/// The built-in builder that leaves building to the project's own scripts.
pub struct CustomBuilder {}

impl CustomBuilder {
    pub fn create() -> (r: CustomBuilder) {
        CustomBuilder {}
    }

    /// The display name.
    pub fn get_name(&self) -> (r: String)
        ensures
            r@ == "Custom"@,
    {
        "Custom".to_string()
    }

    /// The short names it is called by.
    pub fn get_aliases(&self) -> (r: Vec<String>)
        ensures
            views(r@) == seq!["custom"@],
    {
        let mut v: Vec<String> = Vec::new();
        v.push("custom".to_string());
        assert(views(v@) =~= seq!["custom"@]);
        v
    }

    /// The full identifier, `io.github.madelynwith5ns.greathelm:Custom`.
    pub fn get_identifier(&self) -> (r: NamespacedIdentifier)
        ensures
            r@ == ("io.github.madelynwith5ns.greathelm"@, "Custom"@),
    {
        NamespacedIdentifier { namespace: "io.github.madelynwith5ns.greathelm".to_string(), identifier: "Custom".to_string() }
    }

    /// What dispatch needs to know of this builder.
    pub fn info(&self) -> (r: ComponentInfo)
        ensures
            r@ == (("io.github.madelynwith5ns.greathelm"@, "Custom"@), seq!["custom"@]),
    {
        ComponentInfo { identifier: self.get_identifier(), aliases: self.get_aliases() }
    }

}

/// The built-in builder for Rust projects.
pub struct RustBuilder {}

impl RustBuilder {
    pub fn create() -> (r: RustBuilder) {
        RustBuilder {}
    }

    /// The display name.
    pub fn get_name(&self) -> (r: String)
        ensures
            r@ == "Rust"@,
    {
        "Rust".to_string()
    }

    /// The short names it is called by.
    pub fn get_aliases(&self) -> (r: Vec<String>)
        ensures
            views(r@) == seq!["rust"@, "rs"@],
    {
        let mut v: Vec<String> = Vec::new();
        v.push("rust".to_string());
        v.push("rs".to_string());
        assert(views(v@) =~= seq!["rust"@, "rs"@]);
        v
    }

    /// The full identifier, `io.github.greathelm.greathelm:Rust`.
    pub fn get_identifier(&self) -> (r: NamespacedIdentifier)
        ensures
            r@ == ("io.github.greathelm.greathelm"@, "Rust"@),
    {
        NamespacedIdentifier { namespace: "io.github.greathelm.greathelm".to_string(), identifier: "Rust".to_string() }
    }

    /// What dispatch needs to know of this builder.
    pub fn info(&self) -> (r: ComponentInfo)
        ensures
            r@ == (("io.github.greathelm.greathelm"@, "Rust"@), seq!["rust"@, "rs"@]),
    {
        ComponentInfo { identifier: self.get_identifier(), aliases: self.get_aliases() }
    }

}

} // verus!
