use greathelm::dependency::{get_all_versions, parse_dependency_notation, resolve_dependency, ResolveError};
use greathelm::identify::NamespacedIdentifier;
use greathelm::store::{get_path, get_store_path};
use greathelm::version::Version;

fn id(t: &str) -> NamespacedIdentifier {
    NamespacedIdentifier::parse_text(&t.to_string()).unwrap()
}

fn names(list: &[&str]) -> Option<Vec<String>> {
    Some(list.iter().map(|s| s.to_string()).collect())
}

#[test]
fn store_paths_split_namespace_and_identifier() {
    assert_eq!(get_store_path("/home/u/.local/share/greathelm"), "/home/u/.local/share/greathelm/store");
    assert_eq!(get_path("/d/store", &id("com.example.tools:Pkg")), "/d/store/com/example/tools/Pkg");
    assert_eq!(get_path("/d/store", &id("com.example:Lib.x")), "/d/store/com/example/Lib.x");
}

#[test]
fn notation_with_version() {
    let (i, ver) = parse_dependency_notation("com.example:Lib@1.2.0".to_string()).unwrap();
    assert_eq!(i.as_text(), "com.example:Lib");
    assert_eq!(ver, Some(Version::parse("1.2.0".to_string())));
}

#[test]
fn notation_splits_at_last_at_sign() {
    let (i, ver) = parse_dependency_notation("com.example:L@b@2.0.0".to_string()).unwrap();
    assert_eq!(i.identifier, "L@b");
    assert_eq!(ver.unwrap().major, 2);
}

#[test]
fn notation_without_version() {
    let (i, ver) = parse_dependency_notation("com.example:Lib".to_string()).unwrap();
    assert_eq!(i.identifier, "Lib");
    assert!(ver.is_none());
}

#[test]
fn notation_without_identifier_fails() {
    assert!(parse_dependency_notation("Lib@1.0.0".to_string()).is_none());
    assert!(parse_dependency_notation("Lib".to_string()).is_none());
}

#[test]
fn versions_from_directory_entries() {
    let vs = get_all_versions(&names(&["@1.0.0", "notes.txt", "@2.1"]).unwrap());
    assert_eq!(vs.len(), 2);
    assert_eq!(vs[0].as_text(), "1.0.0");
    assert_eq!(vs[1].as_text(), "2.1.0");
}

#[test]
fn exact_version_is_never_substituted() {
    let r = resolve_dependency("/s", &id("x.y:Id"), Some(Version::parse("1.0.0".to_string())), &names(&["@2.0.0"]));
    assert_eq!(r, Err(ResolveError::Unresolved));
}

#[test]
fn exact_version_resolves_to_its_directory() {
    let r = resolve_dependency("/s", &id("x.y:Id"), Some(Version::parse("2.0.0".to_string())), &names(&["@2.0.0"]));
    assert_eq!(r, Ok("/s/x/y/Id/@2.0.0".to_string()));
}

#[test]
fn latest_version_is_picked() {
    let r = resolve_dependency("/s", &id("x.y:Id"), None, &names(&["@1.0.0", "@1.2.0", "@1.1.0"]));
    assert_eq!(r, Ok("/s/x/y/Id/@1.2.0".to_string()));
}

#[test]
fn missing_identifier_is_unresolved() {
    assert_eq!(resolve_dependency("/s", &id("x.y:Id"), None, &None), Err(ResolveError::Unresolved));
    assert_eq!(
        resolve_dependency("/s", &id("x.y:Id"), Some(Version::parse("1.0.0".to_string())), &None),
        Err(ResolveError::Unresolved)
    );
}

#[test]
fn identifier_without_versions() {
    assert_eq!(resolve_dependency("/s", &id("x.y:Id"), None, &names(&["README"])), Err(ResolveError::NoVersions));
    assert_eq!(resolve_dependency("/s", &id("x.y:Id"), None, &names(&[])), Err(ResolveError::NoVersions));
}

#[test]
fn latest_entry_is_returned_as_listed() {
    assert_eq!(resolve_dependency("/s", &id("x.y:Id"), None, &names(&["@1.0.0", "@1.2"])), Ok("/s/x/y/Id/@1.2".to_string()));
}

#[test]
fn equal_versions_pick_the_last_listed() {
    assert_eq!(resolve_dependency("/s", &id("x.y:Id"), None, &names(&["@1.2", "@1.2.0", "@0.9"])), Ok("/s/x/y/Id/@1.2.0".to_string()));
    assert_eq!(resolve_dependency("/s", &id("x.y:Id"), None, &names(&["@1.2.0", "@1.2"])), Ok("/s/x/y/Id/@1.2".to_string()));
}
