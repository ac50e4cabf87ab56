use deprecated_api_versions::rule::{Classification, DeprecationRule, RawRule};
use deprecated_api_versions::version::{parse, Version};

const REPLICA_SET: &str = r#"
version: extensions/v1beta1
kind: ReplicaSet
deprecated-in: ""
removed-in: v1.16.0
replacement-api: apps/v1
component: k8s"#;

const POD_SECURITY_POLICY: &str = r#"
version: extensions/v1beta1
kind: PodSecurityPolicy
deprecated-in: v1.10.0
removed-in: v1.16.0
replacement-api: policy/v1beta1
component: k8s"#;

fn version(text: &str) -> Version {
    parse(text).unwrap_or_else(|| panic!("cannot parse version {}", text))
}

fn ingress_rule() -> DeprecationRule {
    DeprecationRule {
        version: "extensions/v1beta1".to_string(),
        kind: "Ingress".to_string(),
        deprecated_in: Some(version("1.14.0")),
        removed_in: Some(version("1.22.0")),
        replacement_api: "networking.k8s.io/v1".to_string(),
        component: "k8s".to_string(),
    }
}

fn check_deserialize_deprecation() {
    let yaml_data = vec![REPLICA_SET, POD_SECURITY_POLICY];
    for yaml in &yaml_data {
        let deprecation = DeprecationRule::from_yaml(yaml.as_bytes());
        assert!(deprecation.is_ok());
    }
}

fn check_deprecation_applies_to_kubernetes_release() {
    let deprecation =
        DeprecationRule::from_yaml(POD_SECURITY_POLICY.as_bytes()).expect("cannot deserialize");

    let matching_versions = vec!["1.10.0", "1.12.0", "1.16.0", "1.23.0"];
    for v in &matching_versions {
        let kubernetes_version = version(v);
        assert!(deprecation.includes(&kubernetes_version), "{} should cause a match", v);
    }

    let matching_versions = vec!["1.0.0", "1.9.99"];
    for v in &matching_versions {
        let kubernetes_version = version(v);
        assert!(!deprecation.includes(&kubernetes_version), "{} should not cause a match", v);
    }
}

#[test]
fn deprecations_deserialize_deprecation() {
    check_deserialize_deprecation();
}

#[test]
fn version_deserialize_deprecation() {
    check_deserialize_deprecation();
}

#[test]
fn deprecations_deprecation_applies_to_kubernetes_release() {
    check_deprecation_applies_to_kubernetes_release();
}

#[test]
fn version_deprecation_applies_to_kubernetes_release() {
    check_deprecation_applies_to_kubernetes_release();
}

#[test]
fn empty_deprecated_in_is_absent() {
    let rule = DeprecationRule::from_yaml(REPLICA_SET.as_bytes()).unwrap();
    assert!(rule.deprecated_in.is_none());
    assert_eq!(rule.removed_in.as_ref().unwrap().to_text(), "1.16.0");
    assert!(!rule.includes(&version("1.15.9")));
    assert!(rule.includes(&version("1.16.0")));
}

#[test]
fn missing_removed_in_is_absent() {
    let yaml = "version: v1\nkind: Thing\ndeprecated-in: v1.2.0\nreplacement-api: x/v1\ncomponent: k8s";
    let rule = DeprecationRule::from_yaml(yaml.as_bytes()).unwrap();
    assert!(rule.removed_in.is_none());
    assert_eq!(rule.deprecated_in.as_ref().unwrap().to_text(), "1.2.0");
}

#[test]
fn missing_deprecated_in_is_an_error() {
    let yaml = "version: v1\nkind: Thing\nremoved-in: v1.2.0\nreplacement-api: x/v1\ncomponent: k8s";
    let err = DeprecationRule::from_yaml(yaml.as_bytes()).err().unwrap();
    assert_eq!(err, "expected a text for the key deprecated-in");
}

#[test]
fn bad_bound_is_an_error() {
    let raw = RawRule {
        version: "apps/v1".to_string(),
        kind: "Deployment".to_string(),
        deprecated_in: Some("one.two".to_string()),
        removed_in: Some("also bad".to_string()),
        replacement_api: "apps/v2".to_string(),
        component: "k8s".to_string(),
    };
    assert_eq!(DeprecationRule::from_raw(&raw).err().unwrap(), "cannot parse version: one.two");
}

#[test]
fn removal_bound_law_on_values() {
    let rule = ingress_rule();
    let v2 = version("1.22.0");
    assert!(rule.includes(&v2));
    // before the removal only the deprecation decides
    assert!(rule.includes(&version("1.21.0")));
    assert!(!rule.includes(&version("1.13.0")));
    let only_removed = DeprecationRule { deprecated_in: None, ..ingress_rule() };
    assert!(!only_removed.includes(&version("1.21.9")));
    assert!(only_removed.includes(&v2));
}

#[test]
fn classify_scenarios() {
    let rule = ingress_rule();
    assert_eq!(rule.classify(&version("1.25.0")), Classification::Removed);
    assert_eq!(rule.classify(&version("1.22.0")), Classification::Removed);
    assert_eq!(rule.classify(&version("1.19.0")), Classification::DeprecatedOnly);
    assert_eq!(rule.classify(&version("1.14.0")), Classification::DeprecatedOnly);
    assert_eq!(rule.classify(&version("1.10.0")), Classification::NotAffected);
    let bare = DeprecationRule { deprecated_in: None, removed_in: None, ..ingress_rule() };
    assert_eq!(bare.classify(&version("9.9.9")), Classification::NotAffected);
    assert!(!bare.includes(&version("9.9.9")));
}

#[test]
fn is_only_deprecated_results() {
    let rule = ingress_rule();
    assert_eq!(rule.is_only_deprecated(&version("1.25.0")), Ok(false));
    assert_eq!(rule.is_only_deprecated(&version("1.19.0")), Ok(true));
    let err = rule.is_only_deprecated(&version("1.10.0")).err().unwrap();
    assert_eq!(
        err,
        "The deprecation rule 'extensions/v1beta1 Ingress cannot be used. It has been deprecated \
         starting from 1.14.0. It has been removed starting from 1.22.0. It has been replaced by \
         networking.k8s.io/v1.' does not apply to kubernetes version: 1.10.0"
    );
}

#[test]
fn explanation_lists_present_bounds() {
    assert_eq!(
        ingress_rule().explanation(),
        "extensions/v1beta1 Ingress cannot be used. It has been deprecated starting from 1.14.0. \
         It has been removed starting from 1.22.0. It has been replaced by networking.k8s.io/v1."
    );
    let rule = DeprecationRule::from_yaml(REPLICA_SET.as_bytes()).unwrap();
    assert_eq!(
        rule.explanation(),
        "extensions/v1beta1 ReplicaSet cannot be used. It has been removed starting from 1.16.0. \
         It has been replaced by apps/v1."
    );
}

#[test]
fn raw_round_trip_keeps_rule() {
    let rule = DeprecationRule::from_yaml(POD_SECURITY_POLICY.as_bytes()).unwrap();
    let raw = rule.to_raw();
    assert_eq!(raw.deprecated_in.as_deref(), Some("1.10.0"));
    assert_eq!(raw.removed_in.as_deref(), Some("1.16.0"));
    let back = DeprecationRule::from_raw(&raw).unwrap();
    assert_eq!(back.version, rule.version);
    assert_eq!(back.kind, rule.kind);
    assert_eq!(back.replacement_api, rule.replacement_api);
    assert_eq!(back.component, rule.component);
    assert_eq!(back.explanation(), rule.explanation());
    let empty = DeprecationRule::from_yaml(REPLICA_SET.as_bytes()).unwrap().to_raw();
    assert_eq!(empty.deprecated_in.as_deref(), Some(""));
    assert!(DeprecationRule::from_raw(&empty).unwrap().deprecated_in.is_none());
}

#[test]
fn is_k8s_tag() {
    assert!(ingress_rule().is_k8s());
    let other = DeprecationRule { component: "istio".to_string(), ..ingress_rule() };
    assert!(!other.is_k8s());
}

#[test]
fn bounds_order_check() {
    assert!(ingress_rule().bounds_ordered());
    let reversed = DeprecationRule {
        deprecated_in: Some(version("1.23.0")),
        ..ingress_rule()
    };
    assert!(!reversed.bounds_ordered());
    let open = DeprecationRule { removed_in: None, ..ingress_rule() };
    assert!(open.bounds_ordered());
}

#[test]
fn yaml_round_trip_keeps_rules() {
    for source in [REPLICA_SET, POD_SECURITY_POLICY] {
        let rule = DeprecationRule::from_yaml(source.as_bytes()).unwrap();
        let raw = rule.to_raw();
        let yaml = format!(
            "version: {}\nkind: {}\ndeprecated-in: \"{}\"\nremoved-in: \"{}\"\nreplacement-api: {}\ncomponent: {}\n",
            raw.version,
            raw.kind,
            raw.deprecated_in.unwrap_or_default(),
            raw.removed_in.unwrap_or_default(),
            raw.replacement_api,
            raw.component
        );
        let back = DeprecationRule::from_yaml(yaml.as_bytes()).unwrap();
        assert_eq!(back.version, rule.version);
        assert_eq!(back.kind, rule.kind);
        assert_eq!(back.replacement_api, rule.replacement_api);
        assert_eq!(back.component, rule.component);
        assert_eq!(back.deprecated_in.map(|v| v.to_text()), rule.deprecated_in.map(|v| v.to_text()));
        assert_eq!(back.removed_in.map(|v| v.to_text()), rule.removed_in.map(|v| v.to_text()));
    }
}
