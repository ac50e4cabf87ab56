//! The policy: per-instance settings and the admission decision taken from
//! the checker's answer.
use crate::checker::{answers, DeprecationChecker, GroupVersionKind};
use crate::rule::{classify_spec, explanation_spec, includes_spec, Classification, RuleView};
use crate::version::{Version, VersionView};
use vstd::prelude::*;

verus! {

/// The settings of one policy instance: the Kubernetes release of the
/// cluster, and whether an API that is only deprecated is rejected too.
pub struct Settings {
    pub kubernetes_version: Version,
    pub deny_on_deprecation: bool,
}

/// The release that stands for "not configured": `0.0.1`, which no
/// Kubernetes release is.
pub open spec fn unset_version() -> VersionView {
    VersionView { major: 0, minor: 0, patch: 1, pre: Seq::empty(), build: Seq::empty() }
}

/// The error of [`Settings::validate`] on unset settings.
pub open spec fn unset_message() -> Seq<char> {
    "Please provide a kubernetes version"@
}

/// Rejecting deprecated APIs is the default.
pub fn deny_on_deprecation_default() -> (r: bool)
    ensures
        r,
{
    true
}

impl Default for Settings {
    /// Unset settings: the unset release, and rejection of deprecated APIs.
    fn default() -> (r: Settings)
        ensures
            r.kubernetes_version@ == unset_version(),
            r.deny_on_deprecation,
    {
        Settings {
            kubernetes_version: Version::new(0, 0, 1),
            deny_on_deprecation: deny_on_deprecation_default(),
        }
    }
}

impl Settings {
    /// Settings are valid unless their release is the unset one.
    pub fn validate(&self) -> (r: Result<(), String>)
        ensures
            r is Err <==> self.kubernetes_version@ == unset_version(),
            r matches Err(e) ==> e@ == unset_message(),
    {
        let unset = Version::new(0, 0, 1);
        if crate::version::versions_equal(&self.kubernetes_version, &unset) {
            Err(String::from_str("Please provide a kubernetes version"))
        } else {
            Ok(())
        }
    }
}

/// The outcome for one admission request.
pub enum Decision {
    Allow,
    Deny(String),
}

/// The mathematical value of a [`Decision`].
pub enum DecisionView {
    Allow,
    Deny(Seq<char>),
}

impl View for Decision {
    type V = DecisionView;

    open spec fn view(&self) -> DecisionView {
        match self {
            Decision::Allow => DecisionView::Allow,
            Decision::Deny(m) => DecisionView::Deny(m@),
        }
    }
}

impl Decision {
    pub fn is_allowed(&self) -> (r: bool)
        ensures
            r == (self@ is Allow),
    {
        match self {
            Decision::Allow => true,
            Decision::Deny(_) => false,
        }
    }

    /// The reason of a rejection, none for an acceptance.
    pub fn message(&self) -> (r: Option<String>)
        ensures
            r matches Some(m) ==> self@ == DecisionView::Deny(m@),
            r is None <==> self@ is Allow,
    {
        match self {
            Decision::Allow => None,
            Decision::Deny(m) => Some(m.clone()),
        }
    }
}

/// The decision on a matched rule: a removed API is always rejected, a
/// deprecated one unless the settings allow deprecated APIs.
pub open spec fn decide(r: RuleView, v: VersionView, deny_on_deprecation: bool) -> DecisionView {
    match classify_spec(r, v) {
        Classification::Removed => DecisionView::Deny(explanation_spec(r)),
        Classification::DeprecatedOnly => if deny_on_deprecation {
            DecisionView::Deny(explanation_spec(r))
        } else {
            DecisionView::Allow
        },
        Classification::NotAffected => DecisionView::Allow,
    }
}

/// `i` is the first row of `rules` that answers the query.
pub open spec fn first_answer_at(rules: Seq<RuleView>, i: int, obj: crate::checker::GvkView, v: VersionView) -> bool {
    &&& 0 <= i < rules.len()
    &&& answers(rules[i], obj, v)
    &&& forall|j: int| 0 <= j < i ==> !answers(#[trigger] rules[j], obj, v)
}

/// Decides an admission request for `obj`: accepted when no row answers the
/// query at the configured release, otherwise as [`decide`] says for the first
/// row that does.
pub fn evaluate(checker: &DeprecationChecker, obj: &GroupVersionKind, settings: &Settings) -> (r:
    Decision)
    ensures
        (forall|i: int|
            0 <= i < checker@.len() ==> !answers(
                #[trigger] checker@[i],
                obj@,
                settings.kubernetes_version@,
            )) ==> r@ == DecisionView::Allow,
        forall|i: int|
            #[trigger] first_answer_at(checker@, i, obj@, settings.kubernetes_version@) ==> r@
                == decide(checker@[i], settings.kubernetes_version@, settings.deny_on_deprecation),
{
    match checker.check(obj, &settings.kubernetes_version) {
        None => Decision::Allow,
        Some(rule) => {
            let ghost found = choose|k: int| first_answer_at(checker@, k, obj@, settings.kubernetes_version@);
            proof {
                assert forall|i: int|
                    #[trigger] first_answer_at(checker@, i, obj@, settings.kubernetes_version@)
                    implies i == found by {
                    if i < found {
                        assert(!answers(checker@[i], obj@, settings.kubernetes_version@));
                    } else if found < i {
                        assert(!answers(checker@[found], obj@, settings.kubernetes_version@));
                    }
                }
                // the checker hands back only rows that concern the release
                assert(includes_spec(rule@, settings.kubernetes_version@));
            }
            match rule.classify(&settings.kubernetes_version) {
                Classification::Removed => Decision::Deny(rule.explanation()),
                Classification::DeprecatedOnly => {
                    if settings.deny_on_deprecation {
                        Decision::Deny(rule.explanation())
                    } else {
                        Decision::Allow
                    }
                },
                // not reached: a row that concerns the release is removed or
                // only deprecated there
                Classification::NotAffected => Decision::Allow,
            }
        },
    }
}

} // verus!
