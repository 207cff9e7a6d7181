use greathelm::identify::NamespacedIdentifier;
use greathelm::version::Version;

fn v(t: &str) -> Version {
    Version::parse(t.to_string())
}

#[test]
fn numeric_segments_order_numerically() {
    assert!(v("1.2.0") < v("1.10.0"));
    assert!(v("1.2.0").is_older_than(&v("1.10.0")));
    assert!(!v("1.10.0").is_older_than(&v("1.2.0")));
}

#[test]
fn release_orders_before_alpha_and_beta() {
    let release = v("2.0.0");
    let alpha = v("2.0.0-alpha");
    let beta = v("2.0.0-beta");
    assert_eq!(alpha.pre_state, 1);
    assert_eq!(beta.pre_state, 2);
    assert!(release < alpha);
    assert!(alpha < beta);
    assert!(release.is_older_than(&alpha));
    assert!(alpha.is_older_than(&beta));
}

#[test]
fn parse_fills_missing_segments_with_zero() {
    let x = v("3");
    assert_eq!((x.major, x.minor, x.patch, x.pre_state, x.rc_num), (3, 0, 0, 0, 0));
    let y = v("");
    assert_eq!((y.major, y.minor, y.patch), (0, 0, 0));
}

#[test]
fn parse_strips_non_numeric_characters() {
    let x = v("v1.2x.3y");
    assert_eq!((x.major, x.minor, x.patch), (1, 2, 3));
}

#[test]
fn parse_reads_release_candidate() {
    let x = v("1.2.3-rc-4");
    assert_eq!(x.rc_num, 4);
    assert_eq!((x.major, x.minor, x.patch), (1, 2, 3));
    let y = v("1.2.0-rc-3");
    assert_eq!(y, Version { major: 1, minor: 2, patch: 0, pre_state: 0, rc_num: 3 });
    let z = v("1.2.3-beta-rc-4");
    assert_eq!(z, Version { major: 1, minor: 2, patch: 3, pre_state: 2, rc_num: 4 });
}

#[test]
fn beta_wins_over_alpha() {
    assert_eq!(v("1.0.0-alpha-beta").pre_state, 2);
}

#[test]
fn overflowing_segment_is_zero() {
    let x = v("99999999999999999999.1.1");
    assert_eq!(x.major, 0);
    assert_eq!(x.minor, 1);
}

#[test]
fn version_text_is_canonical() {
    assert_eq!(v("1.2.3").as_text(), "1.2.3");
    assert_eq!(v("1.2").as_text(), "1.2.0");
    assert_eq!(v("0.1.0-alpha").as_text(), "0.1.0-alpha");
    assert_eq!(v("0.1.0-beta").as_text(), "0.1.0-beta");
    let x = Version { major: 10, minor: 0, patch: 7, pre_state: 2, rc_num: 12 };
    assert_eq!(x.as_text(), "10.0.7-beta-rc-12");
    assert_eq!(v("10.0.7-beta").as_text(), "10.0.7-beta");
}

#[test]
fn version_text_round_trips() {
    for t in ["0.0.0", "1.2.3", "4.5.6-alpha", "18446744073709551615.0.1-beta", "1.2.0-rc-3", "10.0.7-beta-rc-12", "0.0.1-alpha-rc-1"] {
        assert_eq!(v(t).as_text(), t);
        assert_eq!(v(&v(t).as_text()), v(t));
    }
}

#[test]
fn decimal_of_zero_and_large() {
    assert_eq!(greathelm::version::decimal(0), "0");
    assert_eq!(greathelm::version::decimal(u64::MAX), "18446744073709551615");
}

#[test]
fn identifier_parses_at_first_colon() {
    let id = NamespacedIdentifier::parse_text(&"com.example:Pkg:Extra".to_string()).unwrap();
    assert_eq!(id.namespace, "com.example");
    assert_eq!(id.identifier, "Pkg:Extra");
    assert_eq!(id.as_text(), "com.example:Pkg:Extra");
}

#[test]
fn identifier_without_colon_is_none() {
    assert!(NamespacedIdentifier::parse_text(&"Package".to_string()).is_none());
}

#[test]
fn identifiers_compare_structurally() {
    let a = NamespacedIdentifier::parse_text(&"a.b:C".to_string()).unwrap();
    let b = NamespacedIdentifier { namespace: "a.b".to_string(), identifier: "C".to_string() };
    let c = NamespacedIdentifier { namespace: "a.b".to_string(), identifier: "c".to_string() };
    assert!(a == b);
    assert!(a.same_as(&b));
    assert!(!a.same_as(&c));
}
