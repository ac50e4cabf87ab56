//! The release stamp of a policy package: the most recent Kubernetes release
//! that the table mentions, carried as build metadata `k8sv<release>`.
use crate::checker::rules_view;
use crate::metadata::is_k8s;
use crate::policy::unset_version;
use crate::rule::{option_view, DeprecationRule, RuleView, K8S_COMPONENT};
use crate::version::{build_ok, is_build_metadata, version_cmp, version_text, Version, VersionView};
use std::cmp::Ordering;
use vstd::prelude::*;

verus! {

/// What a helper command is asked to do: propose the expected value, or check
/// the declared one against it.
#[derive(PartialEq, Eq, Structural, Clone, Copy, Debug)]
pub enum Commands {
    Build,
    Check,
}

/// `m`, or the bound when it is present and more recent.
pub open spec fn later_of(m: VersionView, bound: Option<VersionView>) -> VersionView {
    match bound {
        Some(b) => if version_cmp(b, m) == Ordering::Greater {
            b
        } else {
            m
        },
        None => m,
    }
}

/// The most recent release among the bounds of the Kubernetes rows of the
/// first `n` rows, starting from `0.0.1`; of equally recent releases the
/// first one met stays.
pub open spec fn most_recent_upto(rules: Seq<RuleView>, n: nat) -> VersionView
    decreases n,
{
    if n == 0 {
        unset_version()
    } else {
        let m = most_recent_upto(rules, (n - 1) as nat);
        let r = rules[n - 1];
        if is_k8s(r) {
            later_of(later_of(m, r.deprecated_in), r.removed_in)
        } else {
            m
        }
    }
}

/// The build metadata that stamps a Kubernetes release.
pub open spec fn stamp(k8s: VersionView) -> Seq<char> {
    "k8sv"@ + version_text(k8s)
}

fn later_of_exec(m: Version, bound: &Option<Version>) -> (r: Version)
    ensures
        r@ == later_of(m@, option_view(*bound)),
{
    match bound {
        Some(b) => {
            match b.compare(&m) {
                Ordering::Greater => b.clone(),
                _ => m,
            }
        },
        None => m,
    }
}

/// The most recent Kubernetes release that the Kubernetes rows of the table
/// mention, or `0.0.1` when they mention none.
pub fn most_recent_k8s_version(rules: &Vec<DeprecationRule>) -> (r: Version)
    ensures
        r@ == most_recent_upto(rules_view(rules@), rules@.len() as nat),
{
    let ghost rv = rules_view(rules@);
    let k8s = String::from_str(K8S_COMPONENT);
    let mut m = Version::new(0, 0, 1);
    let mut i: usize = 0;
    while i < rules.len()
        invariant
            i <= rules@.len(),
            rv == rules_view(rules@),
            k8s@ == K8S_COMPONENT@,
            m@ == most_recent_upto(rv, i as nat),
        decreases rules@.len() - i,
    {
        let rule = &rules[i];
        assert(rv[i as int] == rule@);
        if rule.component == k8s {
            m = later_of_exec(m, &rule.deprecated_in);
            m = later_of_exec(m, &rule.removed_in);
        }
        i = i + 1;
    }
    m
}

/// The version that a policy package should carry: its own version, with the
/// stamp of `k8s` as build metadata; none when the stamp is not valid build
/// metadata (a release that carries build metadata of its own).
pub fn expected_policy_version(current: &Version, k8s: &Version) -> (r: Option<Version>)
    ensures
        r is Some <==> build_ok(stamp(k8s@)),
        r matches Some(v) ==> v@ == (VersionView { build: stamp(k8s@), ..current@ }),
{
    let mut b = String::from_str("k8sv");
    let t = k8s.to_text();
    b.append(t.as_str());
    if is_build_metadata(b.as_str()) {
        Some(current.with_build(b.as_str()))
    } else {
        None
    }
}

} // verus!
