use deprecated_api_versions::checker::{DeprecationChecker, GroupVersionKind};
use deprecated_api_versions::metadata::{generate_metadata_rules, split_key, Operation};
use deprecated_api_versions::policy::{evaluate, Decision, Settings};
use deprecated_api_versions::rule::DeprecationRule;
use deprecated_api_versions::tooling::{expected_policy_version, most_recent_k8s_version};
use deprecated_api_versions::version::{parse, versions_equal, Version};

const TABLE: &str = r#"
deprecated-versions:
    - version: extensions/v1beta1
      kind: ReplicaSet
      deprecated-in: ""
      removed-in: v1.16.0
      replacement-api: apps/v1
      component: k8s
    - version: extensions/v1beta1
      kind: PodSecurityPolicy
      deprecated-in: v1.10.0
      removed-in: v1.16.0
      replacement-api: policy/v1beta1
      component: k8s
"#;

const INGRESS_TABLE: &str = r#"
deprecated-versions:
    - version: extensions/v1beta1
      kind: Ingress
      deprecated-in: v1.14.0
      removed-in: v1.22.0
      replacement-api: networking.k8s.io/v1
      component: k8s
"#;

fn version(text: &str) -> Version {
    parse(text).expect("Cannot parse version")
}

fn gvk(group: &str, version: &str, kind: &str) -> GroupVersionKind {
    GroupVersionKind {
        group: group.to_string(),
        version: version.to_string(),
        kind: kind.to_string(),
    }
}

fn settings(kubernetes_version: &str, deny_on_deprecation: bool) -> Settings {
    Settings { kubernetes_version: version(kubernetes_version), deny_on_deprecation }
}

fn check_deprecations_on_table() {
    let deprecated_versions =
        DeprecationChecker::from_yaml(TABLE.as_bytes()).expect("Cannot parse yaml");

    let obj = gvk("extensions", "v1beta1", "ReplicaSet");

    let kubernetes_version = version("1.24.0");
    let deprecation = deprecated_versions.check(&obj, &kubernetes_version);
    assert!(deprecation.is_some());

    let kubernetes_version = version("1.14.0");
    let deprecation = deprecated_versions.check(&obj, &kubernetes_version);
    assert!(deprecation.is_none());
}

#[test]
fn lib_check_deprecations() {
    check_deprecations_on_table();
}

#[test]
fn version_check_deprecations() {
    check_deprecations_on_table();
}

#[test]
fn eval_extensions_v1beta1_ingress() {
    let checker = DeprecationChecker::from_yaml(INGRESS_TABLE.as_bytes()).unwrap();
    let obj = gvk("extensions", "v1beta1", "Ingress");
    let test_cases = vec![
        ("Reject because it has been dropped from kubernetes 1.25.0", settings("1.25.0", true), false),
        ("Reject because it has been deprected startiong from 1.14.0", settings("1.19.0", true), false),
        ("Do not reject despite being deprected because of user settings", settings("1.19.0", false), true),
        ("Accept on a really old version of kubernetes", settings("1.10.0", false), true),
    ];
    for (name, s, expected) in &test_cases {
        let decision = evaluate(&checker, &obj, s);
        assert_eq!(decision.is_allowed(), *expected, "{}", name);
    }
}

#[test]
fn removed_is_denied_regardless_of_settings() {
    let checker = DeprecationChecker::from_yaml(INGRESS_TABLE.as_bytes()).unwrap();
    let obj = gvk("extensions", "v1beta1", "Ingress");
    for deny in [true, false] {
        let decision = evaluate(&checker, &obj, &settings("1.25.0", deny));
        assert_eq!(
            decision.message().unwrap(),
            "extensions/v1beta1 Ingress cannot be used. It has been deprecated starting from \
             1.14.0. It has been removed starting from 1.22.0. It has been replaced by \
             networking.k8s.io/v1."
        );
    }
}

#[test]
fn deprecated_is_denied_by_default() {
    let checker = DeprecationChecker::from_yaml(INGRESS_TABLE.as_bytes()).unwrap();
    let obj = gvk("extensions", "v1beta1", "Ingress");
    let decision = evaluate(&checker, &obj, &settings("1.19.0", true));
    assert!(matches!(decision, Decision::Deny(_)));
    let decision = evaluate(&checker, &obj, &settings("1.19.0", false));
    assert!(matches!(decision, Decision::Allow));
    assert!(decision.message().is_none());
}

#[test]
fn too_old_release_has_no_match() {
    let checker = DeprecationChecker::from_yaml(INGRESS_TABLE.as_bytes()).unwrap();
    let obj = gvk("extensions", "v1beta1", "Ingress");
    assert!(checker.check(&obj, &version("1.10.0")).is_none());
    assert!(evaluate(&checker, &obj, &settings("1.10.0", true)).is_allowed());
}

#[test]
fn unknown_key_and_kind_have_no_match() {
    let checker = DeprecationChecker::from_yaml(INGRESS_TABLE.as_bytes()).unwrap();
    assert!(checker.check(&gvk("apps", "v1beta1", "Ingress"), &version("1.25.0")).is_none());
    assert!(checker.check(&gvk("extensions", "v1beta1", "Deployment"), &version("1.25.0")).is_none());
}

#[test]
fn first_row_wins() {
    let table = r#"
deprecated-versions:
    - version: apps/v1beta1
      kind: Deployment
      deprecated-in: v1.9.0
      removed-in: v1.16.0
      replacement-api: apps/v1
      component: k8s
    - version: apps/v1beta1
      kind: Deployment
      deprecated-in: v1.8.0
      replacement-api: apps/v2
      component: k8s
"#;
    let checker = DeprecationChecker::from_yaml(table.as_bytes()).unwrap();
    assert_eq!(checker.len(), 2);
    let obj = gvk("apps", "v1beta1", "Deployment");
    assert_eq!(checker.check(&obj, &version("1.10.0")).unwrap().replacement_api, "apps/v1");
    assert_eq!(checker.check(&obj, &version("1.8.5")).unwrap().replacement_api, "apps/v2");
}

#[test]
fn core_group_uses_bare_version_key() {
    let table = r#"
deprecated-versions:
    - version: v1
      kind: ComponentStatus
      deprecated-in: v1.19.0
      removed-in: ""
      replacement-api: none
      component: k8s
"#;
    let checker = DeprecationChecker::from_yaml(table.as_bytes()).unwrap();
    assert_eq!(gvk("", "v1", "ComponentStatus").key(), "v1");
    assert_eq!(gvk("apps", "v1", "Deployment").key(), "apps/v1");
    assert!(checker.check(&gvk("", "v1", "ComponentStatus"), &version("1.20.0")).is_some());
}

#[test]
fn other_components_are_ignored() {
    let table = r#"
deprecated-versions:
    - version: networking.istio.io/v1alpha3
      kind: Gateway
      deprecated-in: v1.0.0
      replacement-api: networking.istio.io/v1
      component: istio
"#;
    let checker = DeprecationChecker::from_yaml(table.as_bytes()).unwrap();
    let obj = gvk("networking.istio.io", "v1alpha3", "Gateway");
    assert!(checker.check(&obj, &version("1.30.0")).is_none());
}

#[test]
fn malformed_tables_are_refused() {
    assert!(DeprecationChecker::from_yaml(b"deprecated-versions: [").is_err());
    assert_eq!(
        DeprecationChecker::from_yaml(b"other: 1").err().unwrap(),
        "expected a sequence under deprecated-versions"
    );
    let bad = "deprecated-versions:\n  - version: v1\n    kind: A\n    deprecated-in: 1.x\n    replacement-api: b\n    component: k8s\n";
    assert_eq!(DeprecationChecker::from_yaml(bad.as_bytes()).err().unwrap(), "cannot parse version: 1.x");
    let checker = DeprecationChecker::new(Vec::new());
    assert_eq!(checker.len(), 0);
}

#[test]
fn settings_validation() {
    let s = Settings::default();
    assert!(s.deny_on_deprecation);
    assert_eq!(s.validate(), Err("Please provide a kubernetes version".to_string()));
    assert!(settings("1.25.0", false).validate().is_ok());
}

#[test]
fn validate_settings() {
    let settings = Settings { kubernetes_version: version("1.25.0"), deny_on_deprecation: true };
    assert!(settings.validate().is_ok());

    let settings = Settings { kubernetes_version: version("0.0.1"), deny_on_deprecation: true };
    assert!(settings.validate().is_err());
}

fn rule(key: &str, component: &str, deprecated: Option<&str>, removed: Option<&str>) -> DeprecationRule {
    DeprecationRule {
        version: key.to_string(),
        kind: "Thing".to_string(),
        deprecated_in: deprecated.map(version),
        removed_in: removed.map(version),
        replacement_api: "x".to_string(),
        component: component.to_string(),
    }
}

#[test]
fn generated_rules_group_versions() {
    let rules = vec![
        rule("extensions/v1beta2", "k8s", Some("1.1.0"), None),
        rule("apps/v1", "k8s", Some("1.2.0"), None),
        rule("extensions/v1beta1", "k8s", Some("1.3.0"), None),
        rule("extensions/v1beta1", "k8s", Some("1.4.0"), None),
        rule("istio.io/v1", "istio", Some("1.5.0"), None),
    ];
    let generated = generate_metadata_rules(&rules);
    assert_eq!(generated.len(), 2);
    assert_eq!(generated[0].api_groups, vec!["apps".to_string()]);
    assert_eq!(generated[0].api_versions, vec!["v1".to_string()]);
    assert_eq!(generated[1].api_groups, vec!["extensions".to_string()]);
    assert_eq!(generated[1].api_versions, vec!["v1beta1".to_string(), "v1beta2".to_string()]);
    for r in &generated {
        assert_eq!(r.resources, vec!["*".to_string()]);
        assert_eq!(r.operations, vec![Operation::Create]);
    }
}

#[test]
fn core_group_rows_generate_empty_group() {
    let rules = vec![rule("v1", "k8s", Some("1.19.0"), None)];
    let generated = generate_metadata_rules(&rules);
    assert_eq!(generated.len(), 1);
    assert_eq!(generated[0].api_groups, vec!["".to_string()]);
    assert_eq!(generated[0].api_versions, vec!["v1".to_string()]);
    assert_eq!(split_key("a/b/c"), ("a".to_string(), "b/c".to_string()));
    assert!(generate_metadata_rules(&Vec::new()).is_empty());
}

#[test]
fn most_recent_release_and_stamp() {
    let rules = vec![
        rule("apps/v1", "k8s", Some("1.9.0"), Some("1.16.0")),
        rule("apps/v1", "istio", Some("9.0.0"), None),
        rule("batch/v1", "k8s", None, Some("1.25.0")),
        rule("batch/v1", "k8s", Some("1.21.0"), None),
    ];
    let recent = most_recent_k8s_version(&rules);
    assert_eq!(recent.to_text(), "1.25.0");
    assert_eq!(most_recent_k8s_version(&Vec::new()).to_text(), "0.0.1");
    let expected = expected_policy_version(&version("0.2.3"), &recent).unwrap();
    assert!(expected_policy_version(&version("0.2.3"), &version("1.25.0+meta")).is_none());
    assert_eq!(
        expected_policy_version(&version("0.2.3"), &version("1.25.0-rc.1")).unwrap().to_text(),
        "0.2.3+k8sv1.25.0-rc.1"
    );
    assert_eq!(expected.to_text(), "0.2.3+k8sv1.25.0");
    let declared = version("0.2.3+k8sv1.25.0");
    assert!(versions_equal(&expected, &declared));
    assert!(!versions_equal(&expected, &version("0.2.3+k8sv1.24.0")));
}

#[test]
fn reversed_bounds_are_kept() {
    let table = r#"
deprecated-versions:
    - version: apps/v1beta1
      kind: Deployment
      deprecated-in: v1.20.0
      removed-in: v1.16.0
      replacement-api: apps/v1
      component: k8s
    - version: apps/v1beta1
      kind: Deployment
      deprecated-in: v1.1.0
      replacement-api: apps/v1
      component: other
"#;
    let checker = DeprecationChecker::from_yaml(table.as_bytes()).unwrap();
    assert_eq!(checker.len(), 2);
    assert!(!checker.rule(0).bounds_ordered());
    assert_eq!(checker.rule(1).component, "other");
}

#[test]
fn yaml_field_shapes() {
    let number = "deprecated-versions:\n  - version: v1\n    kind: 7\n    deprecated-in: null\n    replacement-api: b\n    component: k8s\n";
    assert_eq!(
        DeprecationChecker::from_yaml(number.as_bytes()).err().unwrap(),
        "expected a text for the key kind"
    );
    let nulls = "deprecated-versions:\n  - version: v1\n    kind: A\n    deprecated-in: null\n    removed-in: ~\n    replacement-api: b\n    component: k8s\n";
    let checker = DeprecationChecker::from_yaml(nulls.as_bytes()).unwrap();
    assert!(checker.rule(0).deprecated_in.is_none());
    assert!(checker.rule(0).removed_in.is_none());
    let not_a_list = "deprecated-versions: 3\n";
    assert!(DeprecationChecker::from_yaml(not_a_list.as_bytes()).is_err());
    let empty = "deprecated-versions: []\n";
    assert_eq!(DeprecationChecker::from_yaml(empty.as_bytes()).unwrap().len(), 0);
}
