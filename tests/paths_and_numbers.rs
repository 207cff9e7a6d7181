use greathelm::actions::{BuildAction, PluginUninstallAction};
use greathelm::generators::CPPGenerator;
use greathelm::identify::NamespacedIdentifier;
use greathelm::manifest::ProjectManifest;
use greathelm::number::{parse_bool, parse_i32, parse_i64, parse_u32, parse_u64};
use greathelm::paths::{
    command_line, ensure_config_dirs, export_target, get_config_base_dir, get_data_base_dir, get_template_path, get_templates_path,
    import_target, module_file, module_root, project_script_path, template_identifier, user_script_path, ImportError,
};
use greathelm::table::TextMap;

#[test]
fn config_dir_prefers_xdg() {
    let home = Some("/home/u".to_string());
    assert_eq!(get_config_base_dir(&home, &Some("/cfg".to_string())), "/cfg/greathelm");
    assert_eq!(get_config_base_dir(&home, &Some(String::new())), "/home/u/.config/greathelm");
    assert_eq!(get_config_base_dir(&None, &None), "~/.config/greathelm");
    assert_eq!(get_data_base_dir(&Some(String::new())), "~/.local/share/greathelm");
    assert_eq!(get_data_base_dir(&home), "/home/u/.local/share/greathelm");
}

#[test]
fn startup_directories() {
    let d = ensure_config_dirs("/c", "/d");
    assert_eq!(d, vec!["/c", "/c/plugins", "/c/scripts", "/d", "/d/store"]);
}

#[test]
fn template_paths() {
    assert_eq!(get_templates_path("/d"), "/d/templates");
    let id = NamespacedIdentifier::parse_text(&"com.ex:Web".to_string()).unwrap();
    assert_eq!(get_template_path("/d/templates", &id), "/d/templates/com/ex/Web");
}

#[test]
fn template_names_resolve_through_aliases() {
    let mut a = TextMap::new();
    a.insert("web".to_string(), "com.ex:Web".to_string());
    a.insert("bad".to_string(), "nocolon".to_string());
    assert_eq!(template_identifier(&"com.ex:Web".to_string(), &a).unwrap().identifier, "Web");
    assert_eq!(template_identifier(&"web".to_string(), &a).unwrap().namespace, "com.ex");
    assert!(template_identifier(&"bad".to_string(), &a).is_none());
    assert!(template_identifier(&"other".to_string(), &a).is_none());
}

#[test]
fn script_and_module_paths() {
    assert_eq!(project_script_path("prebuild"), "scripts/prebuild.sh");
    assert_eq!(user_script_path("/c", "prebuild"), "/c/scripts/prebuild.sh");
    assert_eq!(command_line("./scripts/x.sh", &vec!["a".to_string(), "b c".to_string()]), "./scripts/x.sh a b c");
    assert_eq!(module_root("m"), "modules/m");
    assert_eq!(module_file("m", "build/x"), "modules/m/build/x");
}

#[test]
fn export_destinations() {
    assert_eq!(export_target("build/greathelm bin/greathelm"), ("build/greathelm".to_string(), "export/bin/greathelm".to_string()));
    assert_eq!(export_target("build/tool"), ("build/tool".to_string(), "export/tool".to_string()));
    assert_eq!(export_target("plain"), ("plain".to_string(), "export/plain".to_string()));
}

#[test]
fn import_needs_namespace_and_name() {
    let mut m = ProjectManifest::new();
    assert_eq!(import_target(&m, "/s"), Err(ImportError::NoNamespace));
    m.apply_line("Project-Namespace=com.ex");
    assert_eq!(import_target(&m, "/s"), Err(ImportError::NoName));
    m.apply_line("Project-Name=Tool");
    assert_eq!(import_target(&m, "/s"), Ok("/s/com/ex/Tool/@0.0.0".to_string()));
    m.apply_line("Project-Name=Tool.x");
    assert_eq!(import_target(&m, "/s"), Ok("/s/com/ex/Tool.x/@0.0.0".to_string()));
    m.apply_line("Project-Name=Tool");
    m.apply_line("Project-Version=1.4");
    assert_eq!(import_target(&m, "/s"), Ok("/s/com/ex/Tool/@1.4.0".to_string()));
}

#[test]
fn numbers_parse_like_std() {
    assert_eq!(parse_u64("18446744073709551615"), Some(u64::MAX));
    assert_eq!(parse_u64("18446744073709551616"), None);
    assert_eq!(parse_u64("+7"), Some(7));
    assert_eq!(parse_u64("+"), None);
    assert_eq!(parse_u64(""), None);
    assert_eq!(parse_u32("-1"), None);
    assert_eq!(parse_i32("-2147483649"), None);
    assert_eq!(parse_i64("-9223372036854775808"), Some(i64::MIN));
    assert_eq!(parse_i64("9223372036854775808"), None);
    assert_eq!(parse_bool("true"), Some(true));
    assert_eq!(parse_bool("True"), None);
}

#[test]
fn components_describe_themselves() {
    let b = BuildAction::create();
    assert_eq!(b.get_name(), "Build");
    assert_eq!(b.get_aliases(), vec!["build".to_string()]);
    assert_eq!(b.get_identifier().as_text(), "io.github.madelynwith5ns.greathelm:Build");
    assert_eq!(PluginUninstallAction::create().get_aliases().len(), 3);
    assert_eq!(CPPGenerator::create().get_aliases(), vec!["c++".to_string(), "cpp".to_string()]);
}

#[test]
fn ignored_paths_match_by_suffix() {
    let ignore = vec!["build".to_string(), ".o".to_string()];
    assert!(greathelm::paths::is_ignored("/p/build", &ignore));
    assert!(greathelm::paths::is_ignored("/p/src/a.o", &ignore));
    assert!(!greathelm::paths::is_ignored("/p/src/a.c", &ignore));
    assert!(!greathelm::paths::is_ignored("/p/build", &vec![]));
}

#[test]
fn prompts_and_replacement() {
    assert_eq!(
        greathelm::paths::prompt_entry("NAME Project name?"),
        Some(("NAME".to_string(), "Project name? ".to_string()))
    );
    assert_eq!(greathelm::paths::prompt_entry("NAME"), None);
    assert_eq!(greathelm::paths::replace_text("a NAME b NAMENAME", "NAME", "x"), "a x b xx");
    assert_eq!(greathelm::paths::replace_text("aaa", "aa", "b"), "ba");
    assert_eq!(greathelm::paths::replace_text("", "aa", "b"), "");
    assert_eq!(greathelm::paths::replace_text("ab", "", "x"), "xaxbx");
    assert_eq!(greathelm::paths::replace_text("", "", "x"), "x");
}
