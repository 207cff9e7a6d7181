use vstd::prelude::*;
use crate::identify::NamespacedIdentifier;
use crate::text::views;

verus! {

/// Prints information about the program and its plugins.
pub struct AboutAction {}

impl AboutAction {
    pub fn create() -> (r: AboutAction) {
        AboutAction {}
    }

    /// The display name.
    pub fn get_name(&self) -> (r: String)
        ensures
            r@ == "About"@,
    {
        "About".to_string()
    }

    /// The short names it is called by.
    pub fn get_aliases(&self) -> (r: Vec<String>)
        ensures
            views(r@) == seq!["about"@],
    {
        let mut v: Vec<String> = Vec::new();
        v.push("about".to_string());
        assert(views(v@) =~= seq!["about"@]);
        v
    }

    /// The full identifier, `io.github.greathelm.greathelm:About`.
    pub fn get_identifier(&self) -> (r: NamespacedIdentifier)
        ensures
            r@ == ("io.github.greathelm.greathelm"@, "About"@),
    {
        NamespacedIdentifier { namespace: "io.github.greathelm.greathelm".to_string(), identifier: "About".to_string() }
    }

}

/// Builds the project: its modules, then the project itself with the builder its type names, then its exports.
pub struct BuildAction {}

impl BuildAction {
    pub fn create() -> (r: BuildAction) {
        BuildAction {}
    }

    /// The display name.
    pub fn get_name(&self) -> (r: String)
        ensures
            r@ == "Build"@,
    {
        "Build".to_string()
    }

    /// The short names it is called by.
    pub fn get_aliases(&self) -> (r: Vec<String>)
        ensures
            views(r@) == seq!["build"@],
    {
        let mut v: Vec<String> = Vec::new();
        v.push("build".to_string());
        assert(views(v@) =~= seq!["build"@]);
        v
    }

    /// The full identifier, `io.github.madelynwith5ns.greathelm:Build`.
    pub fn get_identifier(&self) -> (r: NamespacedIdentifier)
        ensures
            r@ == ("io.github.madelynwith5ns.greathelm"@, "Build"@),
    {
        NamespacedIdentifier { namespace: "io.github.madelynwith5ns.greathelm".to_string(), identifier: "Build".to_string() }
    }

}

/// Copies a package out of the store into the working directory.
pub struct CheckoutAction {}

impl CheckoutAction {
    pub fn create() -> (r: CheckoutAction) {
        CheckoutAction {}
    }

    /// The display name.
    pub fn get_name(&self) -> (r: String)
        ensures
            r@ == "Checkout"@,
    {
        "Checkout".to_string()
    }

    /// The short names it is called by.
    pub fn get_aliases(&self) -> (r: Vec<String>)
        ensures
            views(r@) == seq!["checkout"@],
    {
        let mut v: Vec<String> = Vec::new();
        v.push("checkout".to_string());
        assert(views(v@) =~= seq!["checkout"@]);
        v
    }

    /// The full identifier, `io.github.madelynwith5ns.greathelm:Checkout`.
    pub fn get_identifier(&self) -> (r: NamespacedIdentifier)
        ensures
            r@ == ("io.github.madelynwith5ns.greathelm"@, "Checkout"@),
    {
        NamespacedIdentifier { namespace: "io.github.madelynwith5ns.greathelm".to_string(), identifier: "Checkout".to_string() }
    }

}

/// Removes build outputs.
pub struct CleanAction {}

impl CleanAction {
    pub fn create() -> (r: CleanAction) {
        CleanAction {}
    }

    /// The display name.
    pub fn get_name(&self) -> (r: String)
        ensures
            r@ == "Clean"@,
    {
        "Clean".to_string()
    }

    /// The short names it is called by.
    pub fn get_aliases(&self) -> (r: Vec<String>)
        ensures
            views(r@) == seq!["clean"@],
    {
        let mut v: Vec<String> = Vec::new();
        v.push("clean".to_string());
        assert(views(v@) =~= seq!["clean"@]);
        v
    }

    /// The full identifier, `io.github.madelynwith5ns.greathelm:Clean`.
    pub fn get_identifier(&self) -> (r: NamespacedIdentifier)
        ensures
            r@ == ("io.github.madelynwith5ns.greathelm"@, "Clean"@),
    {
        NamespacedIdentifier { namespace: "io.github.madelynwith5ns.greathelm".to_string(), identifier: "Clean".to_string() }
    }

}

/// Copies the project into the store.
pub struct ImportAction {}

impl ImportAction {
    pub fn create() -> (r: ImportAction) {
        ImportAction {}
    }

    /// The display name.
    pub fn get_name(&self) -> (r: String)
        ensures
            r@ == "Import"@,
    {
        "Import".to_string()
    }

    /// The short names it is called by.
    pub fn get_aliases(&self) -> (r: Vec<String>)
        ensures
            views(r@) == seq!["import"@],
    {
        let mut v: Vec<String> = Vec::new();
        v.push("import".to_string());
        assert(views(v@) =~= seq!["import"@]);
        v
    }

    /// The full identifier, `io.github.madelynwith5ns.greathelm:Import`.
    pub fn get_identifier(&self) -> (r: NamespacedIdentifier)
        ensures
            r@ == ("io.github.madelynwith5ns.greathelm"@, "Import"@),
    {
        NamespacedIdentifier { namespace: "io.github.madelynwith5ns.greathelm".to_string(), identifier: "Import".to_string() }
    }

}

/// Creates a project in the current directory.
pub struct InitAction {}

impl InitAction {
    pub fn create() -> (r: InitAction) {
        InitAction {}
    }

    /// The display name.
    pub fn get_name(&self) -> (r: String)
        ensures
            r@ == "Initialize"@,
    {
        "Initialize".to_string()
    }

    /// The short names it is called by.
    pub fn get_aliases(&self) -> (r: Vec<String>)
        ensures
            views(r@) == seq!["init"@],
    {
        let mut v: Vec<String> = Vec::new();
        v.push("init".to_string());
        assert(views(v@) =~= seq!["init"@]);
        v
    }

    /// The full identifier, `io.github.madelynwith5ns.greathelm:Initialize`.
    pub fn get_identifier(&self) -> (r: NamespacedIdentifier)
        ensures
            r@ == ("io.github.madelynwith5ns.greathelm"@, "Initialize"@),
    {
        NamespacedIdentifier { namespace: "io.github.madelynwith5ns.greathelm".to_string(), identifier: "Initialize".to_string() }
    }

}

/// Installs a plugin library and runs its first-time setup.
pub struct InstallAction {}

impl InstallAction {
    pub fn create() -> (r: InstallAction) {
        InstallAction {}
    }

    /// The display name.
    pub fn get_name(&self) -> (r: String)
        ensures
            r@ == "Install"@,
    {
        "Install".to_string()
    }

    /// The short names it is called by.
    pub fn get_aliases(&self) -> (r: Vec<String>)
        ensures
            views(r@) == seq!["install"@],
    {
        let mut v: Vec<String> = Vec::new();
        v.push("install".to_string());
        assert(views(v@) =~= seq!["install"@]);
        v
    }

    /// The full identifier, `io.github.madelynwith5ns.greathelm:Install`.
    pub fn get_identifier(&self) -> (r: NamespacedIdentifier)
        ensures
            r@ == ("io.github.madelynwith5ns.greathelm"@, "Install"@),
    {
        NamespacedIdentifier { namespace: "io.github.madelynwith5ns.greathelm".to_string(), identifier: "Install".to_string() }
    }

}

/// Lists the packages in the store.
pub struct LSAction {}

impl LSAction {
    pub fn create() -> (r: LSAction) {
        LSAction {}
    }

    /// The display name.
    pub fn get_name(&self) -> (r: String)
        ensures
            r@ == "ls"@,
    {
        "ls".to_string()
    }

    /// The short names it is called by.
    pub fn get_aliases(&self) -> (r: Vec<String>)
        ensures
            views(r@) == seq!["ls"@],
    {
        let mut v: Vec<String> = Vec::new();
        v.push("ls".to_string());
        assert(views(v@) =~= seq!["ls"@]);
        v
    }

    /// The full identifier, `io.github.madelynwith5ns.greathelm:ls`.
    pub fn get_identifier(&self) -> (r: NamespacedIdentifier)
        ensures
            r@ == ("io.github.madelynwith5ns.greathelm"@, "ls"@),
    {
        NamespacedIdentifier { namespace: "io.github.madelynwith5ns.greathelm".to_string(), identifier: "ls".to_string() }
    }

}

/// Creates a project in a new directory.
pub struct NewAction {}

impl NewAction {
    pub fn create() -> (r: NewAction) {
        NewAction {}
    }

    /// The display name.
    pub fn get_name(&self) -> (r: String)
        ensures
            r@ == "New"@,
    {
        "New".to_string()
    }

    /// The short names it is called by.
    pub fn get_aliases(&self) -> (r: Vec<String>)
        ensures
            views(r@) == seq!["new"@],
    {
        let mut v: Vec<String> = Vec::new();
        v.push("new".to_string());
        assert(views(v@) =~= seq!["new"@]);
        v
    }

    /// The full identifier, `io.github.madelynwith5ns.greathelm:New`.
    pub fn get_identifier(&self) -> (r: NamespacedIdentifier)
        ensures
            r@ == ("io.github.madelynwith5ns.greathelm"@, "New"@),
    {
        NamespacedIdentifier { namespace: "io.github.madelynwith5ns.greathelm".to_string(), identifier: "New".to_string() }
    }

}

/// Runs a script of a stored package.
pub struct PackageScript {}

impl PackageScript {
    pub fn create() -> (r: PackageScript) {
        PackageScript {}
    }

    /// The display name.
    pub fn get_name(&self) -> (r: String)
        ensures
            r@ == "PackageScript"@,
    {
        "PackageScript".to_string()
    }

    /// The short names it is called by.
    pub fn get_aliases(&self) -> (r: Vec<String>)
        ensures
            views(r@) == seq!["pkgscript"@],
    {
        let mut v: Vec<String> = Vec::new();
        v.push("pkgscript".to_string());
        assert(views(v@) =~= seq!["pkgscript"@]);
        v
    }

    /// The full identifier, `io.github.madelynwith5ns.greathelm:PackageScript`.
    pub fn get_identifier(&self) -> (r: NamespacedIdentifier)
        ensures
            r@ == ("io.github.madelynwith5ns.greathelm"@, "PackageScript"@),
    {
        NamespacedIdentifier { namespace: "io.github.madelynwith5ns.greathelm".to_string(), identifier: "PackageScript".to_string() }
    }

}

/// Opens a shell in a stored package.
pub struct PackageShell {}

impl PackageShell {
    pub fn create() -> (r: PackageShell) {
        PackageShell {}
    }

    /// The display name.
    pub fn get_name(&self) -> (r: String)
        ensures
            r@ == "PackageShell"@,
    {
        "PackageShell".to_string()
    }

    /// The short names it is called by.
    pub fn get_aliases(&self) -> (r: Vec<String>)
        ensures
            views(r@) == seq!["pkgshell"@, "pkgsh"@],
    {
        let mut v: Vec<String> = Vec::new();
        v.push("pkgshell".to_string());
        v.push("pkgsh".to_string());
        assert(views(v@) =~= seq!["pkgshell"@, "pkgsh"@]);
        v
    }

    /// The full identifier, `io.github.madelynwith5ns.greathelm:PackageShell`.
    pub fn get_identifier(&self) -> (r: NamespacedIdentifier)
        ensures
            r@ == ("io.github.madelynwith5ns.greathelm"@, "PackageShell"@),
    {
        NamespacedIdentifier { namespace: "io.github.madelynwith5ns.greathelm".to_string(), identifier: "PackageShell".to_string() }
    }

}

/// Installs a plugin library.
pub struct PluginInstallAction {}

impl PluginInstallAction {
    pub fn create() -> (r: PluginInstallAction) {
        PluginInstallAction {}
    }

    /// The display name.
    pub fn get_name(&self) -> (r: String)
        ensures
            r@ == "PluginInstall"@,
    {
        "PluginInstall".to_string()
    }

    /// The short names it is called by.
    pub fn get_aliases(&self) -> (r: Vec<String>)
        ensures
            views(r@) == seq!["plugininstall"@, "pluginstall"@],
    {
        let mut v: Vec<String> = Vec::new();
        v.push("plugininstall".to_string());
        v.push("pluginstall".to_string());
        assert(views(v@) =~= seq!["plugininstall"@, "pluginstall"@]);
        v
    }

    /// The full identifier, `com.mw5ns.greathelm:PluginInstall`.
    pub fn get_identifier(&self) -> (r: NamespacedIdentifier)
        ensures
            r@ == ("com.mw5ns.greathelm"@, "PluginInstall"@),
    {
        NamespacedIdentifier { namespace: "com.mw5ns.greathelm".to_string(), identifier: "PluginInstall".to_string() }
    }

}

/// Removes a plugin library.
pub struct PluginUninstallAction {}

impl PluginUninstallAction {
    pub fn create() -> (r: PluginUninstallAction) {
        PluginUninstallAction {}
    }

    /// The display name.
    pub fn get_name(&self) -> (r: String)
        ensures
            r@ == "PluginUninstall"@,
    {
        "PluginUninstall".to_string()
    }

    /// The short names it is called by.
    pub fn get_aliases(&self) -> (r: Vec<String>)
        ensures
            views(r@) == seq!["pluginuninstall"@, "pluguninstall"@, "plugrm"@],
    {
        let mut v: Vec<String> = Vec::new();
        v.push("pluginuninstall".to_string());
        v.push("pluguninstall".to_string());
        v.push("plugrm".to_string());
        assert(views(v@) =~= seq!["pluginuninstall"@, "pluguninstall"@, "plugrm"@]);
        v
    }

    /// The full identifier, `com.mw5ns.greathelm:PluginUninstall`.
    pub fn get_identifier(&self) -> (r: NamespacedIdentifier)
        ensures
            r@ == ("com.mw5ns.greathelm"@, "PluginUninstall"@),
    {
        NamespacedIdentifier { namespace: "com.mw5ns.greathelm".to_string(), identifier: "PluginUninstall".to_string() }
    }

}

/// Removes a package from the store.
pub struct RemoveAction {}

impl RemoveAction {
    pub fn create() -> (r: RemoveAction) {
        RemoveAction {}
    }

    /// The display name.
    pub fn get_name(&self) -> (r: String)
        ensures
            r@ == "Remove"@,
    {
        "Remove".to_string()
    }

    /// The short names it is called by.
    pub fn get_aliases(&self) -> (r: Vec<String>)
        ensures
            views(r@) == seq!["remove"@],
    {
        let mut v: Vec<String> = Vec::new();
        v.push("remove".to_string());
        assert(views(v@) =~= seq!["remove"@]);
        v
    }

    /// The full identifier, `io.github.madelynwith5ns.greathelm:Remove`.
    pub fn get_identifier(&self) -> (r: NamespacedIdentifier)
        ensures
            r@ == ("io.github.madelynwith5ns.greathelm"@, "Remove"@),
    {
        NamespacedIdentifier { namespace: "io.github.madelynwith5ns.greathelm".to_string(), identifier: "Remove".to_string() }
    }

}

/// Prints where a dependency resolves in the store.
pub struct ResolveAction {}

impl ResolveAction {
    pub fn create() -> (r: ResolveAction) {
        ResolveAction {}
    }

    /// The display name.
    pub fn get_name(&self) -> (r: String)
        ensures
            r@ == "Resolve"@,
    {
        "Resolve".to_string()
    }

    /// The short names it is called by.
    pub fn get_aliases(&self) -> (r: Vec<String>)
        ensures
            views(r@) == seq!["resolve"@],
    {
        let mut v: Vec<String> = Vec::new();
        v.push("resolve".to_string());
        assert(views(v@) =~= seq!["resolve"@]);
        v
    }

    /// The full identifier, `io.github.madelynwith5ns.greathelm:Resolve`.
    pub fn get_identifier(&self) -> (r: NamespacedIdentifier)
        ensures
            r@ == ("io.github.madelynwith5ns.greathelm"@, "Resolve"@),
    {
        NamespacedIdentifier { namespace: "io.github.madelynwith5ns.greathelm".to_string(), identifier: "Resolve".to_string() }
    }

}

/// Runs one of the project's scripts.
pub struct ScriptAction {}

impl ScriptAction {
    pub fn create() -> (r: ScriptAction) {
        ScriptAction {}
    }

    /// The display name.
    pub fn get_name(&self) -> (r: String)
        ensures
            r@ == "Script"@,
    {
        "Script".to_string()
    }

    /// The short names it is called by.
    pub fn get_aliases(&self) -> (r: Vec<String>)
        ensures
            views(r@) == seq!["script"@],
    {
        let mut v: Vec<String> = Vec::new();
        v.push("script".to_string());
        assert(views(v@) =~= seq!["script"@]);
        v
    }

    /// The full identifier, `io.github.madelynwith5ns.greathelm:Script`.
    pub fn get_identifier(&self) -> (r: NamespacedIdentifier)
        ensures
            r@ == ("io.github.madelynwith5ns.greathelm"@, "Script"@),
    {
        NamespacedIdentifier { namespace: "io.github.madelynwith5ns.greathelm".to_string(), identifier: "Script".to_string() }
    }

}

/// Removes an installed plugin.
pub struct UninstallAction {}

impl UninstallAction {
    pub fn create() -> (r: UninstallAction) {
        UninstallAction {}
    }

    /// The display name.
    pub fn get_name(&self) -> (r: String)
        ensures
            r@ == "Uninstall"@,
    {
        "Uninstall".to_string()
    }

    /// The short names it is called by.
    pub fn get_aliases(&self) -> (r: Vec<String>)
        ensures
            views(r@) == seq!["uninstall"@],
    {
        let mut v: Vec<String> = Vec::new();
        v.push("uninstall".to_string());
        assert(views(v@) =~= seq!["uninstall"@]);
        v
    }

    /// The full identifier, `io.github.madelynwith5ns.greathelm:Uninstall`.
    pub fn get_identifier(&self) -> (r: NamespacedIdentifier)
        ensures
            r@ == ("io.github.madelynwith5ns.greathelm"@, "Uninstall"@),
    {
        NamespacedIdentifier { namespace: "io.github.madelynwith5ns.greathelm".to_string(), identifier: "Uninstall".to_string() }
    }

}

} // verus!
