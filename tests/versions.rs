use deprecated_api_versions::text::{insert_sorted, text_less};
use deprecated_api_versions::version::{decimal_text, parse, versions_equal, Version};
use std::cmp::Ordering;

#[test]
fn leading_v_is_optional() {
    let a = parse("v1.16.0").unwrap();
    let b = parse("1.16.0").unwrap();
    assert!(versions_equal(&a, &b));
    assert_eq!((a.major(), a.minor(), a.patch()), (1, 16, 0));
}

#[test]
fn only_one_v_is_stripped() {
    assert!(parse("vv1.16.0").is_none());
    assert!(parse("").is_none());
    assert!(parse("1.16").is_none());
}

#[test]
fn pre_release_and_build_parts() {
    let v = parse("v1.2.3-alpha.1+build.5").unwrap();
    assert_eq!(v.pre(), "alpha.1");
    assert_eq!(v.build(), "build.5");
    assert_eq!(v.to_text(), "1.2.3-alpha.1+build.5");
}

#[test]
fn precedence_order() {
    let p = |s: &str| parse(s).unwrap();
    assert_eq!(p("1.2.3").compare(&p("1.10.0")), Ordering::Less);
    assert_eq!(p("2.0.0").compare(&p("1.99.99")), Ordering::Greater);
    assert_eq!(p("1.0.0-alpha").compare(&p("1.0.0")), Ordering::Less);
    assert_eq!(p("1.0.0-alpha.2").compare(&p("1.0.0-alpha.10")), Ordering::Less);
    assert_eq!(p("1.0.0+a").compare(&p("1.0.0+b")), Ordering::Equal);
    assert!(p("1.0.0+a").ge(&p("1.0.0")));
    assert!(!versions_equal(&p("1.0.0+a"), &p("1.0.0")));
}

#[test]
fn decimal_texts() {
    assert_eq!(decimal_text(0), "0");
    assert_eq!(decimal_text(1907), "1907");
    assert_eq!(decimal_text(u64::MAX), "18446744073709551615");
    assert_eq!(Version::new(1, 25, 0).to_text(), "1.25.0");
}

#[test]
fn text_order_and_sorted_insert() {
    assert!(text_less("apps", "extensions"));
    assert!(text_less("v1", "v1beta1"));
    assert!(!text_less("v1beta2", "v1beta1"));
    assert!(!text_less("same", "same"));
    assert!(text_less("", "a"));
    let mut v: Vec<String> = Vec::new();
    for s in ["b", "a", "c", "a", "b"] {
        insert_sorted(&mut v, s);
    }
    assert_eq!(v, vec!["a".to_string(), "b".to_string(), "c".to_string()]);
}

#[test]
fn build_metadata_grammar() {
    use_build_metadata_cases();
}

fn use_build_metadata_cases() {
    assert!(deprecated_api_versions::version::is_build_metadata(""));
    assert!(deprecated_api_versions::version::is_build_metadata("k8sv1.25.0"));
    assert!(deprecated_api_versions::version::is_build_metadata("a-b.001"));
    assert!(!deprecated_api_versions::version::is_build_metadata(".a"));
    assert!(!deprecated_api_versions::version::is_build_metadata("a."));
    assert!(!deprecated_api_versions::version::is_build_metadata("a..b"));
    assert!(!deprecated_api_versions::version::is_build_metadata("k8sv1.25.0+x"));
    assert!(!deprecated_api_versions::version::is_build_metadata("a_b"));
}
