//! One row of the deprecation table and the decisions it takes on a version.
use crate::version::{
    decimal, lemma_ge_reflexive, parse, parse_spec, version_cmp, version_ge, version_text, Version,
    VersionView,
};
use std::cmp::Ordering;
use vstd::prelude::*;

verus! {

/// The component tag of rows that concern Kubernetes itself.
pub const K8S_COMPONENT: &'static str = "k8s";

/// One deprecation event: the API `version` key (`group/apiVersion`, or a bare
/// `apiVersion` for the core group) and `kind`, the releases that deprecate and
/// remove it, and its successor.
pub struct DeprecationRule {
    pub version: String,
    pub kind: String,
    pub deprecated_in: Option<Version>,
    pub removed_in: Option<Version>,
    pub replacement_api: String,
    pub component: String,
}

/// The mathematical value of a [`DeprecationRule`].
pub struct RuleView {
    pub version: Seq<char>,
    pub kind: Seq<char>,
    pub deprecated_in: Option<VersionView>,
    pub removed_in: Option<VersionView>,
    pub replacement_api: Seq<char>,
    pub component: Seq<char>,
}

pub open spec fn option_view(o: Option<Version>) -> Option<VersionView> {
    match o {
        Some(v) => Some(v@),
        None => None,
    }
}

impl View for DeprecationRule {
    type V = RuleView;

    open spec fn view(&self) -> RuleView {
        RuleView {
            version: self.version@,
            kind: self.kind@,
            deprecated_in: option_view(self.deprecated_in),
            removed_in: option_view(self.removed_in),
            replacement_api: self.replacement_api@,
            component: self.component@,
        }
    }
}

/// Where a rule leaves a Kubernetes release.
#[derive(PartialEq, Eq, Structural, Clone, Copy, Debug)]
pub enum Classification {
    NotAffected,
    DeprecatedOnly,
    Removed,
}

/// `v` is at or past an optional bound; an absent bound is never reached.
pub open spec fn reached(bound: Option<VersionView>, v: VersionView) -> bool {
    match bound {
        Some(b) => version_ge(v, b),
        None => false,
    }
}

/// A rule concerns `v` when `v` reaches its removal or its deprecation.
pub open spec fn includes_spec(r: RuleView, v: VersionView) -> bool {
    reached(r.removed_in, v) || reached(r.deprecated_in, v)
}

/// Removal takes precedence over deprecation.
pub open spec fn classify_spec(r: RuleView, v: VersionView) -> Classification {
    if reached(r.removed_in, v) {
        Classification::Removed
    } else if reached(r.deprecated_in, v) {
        Classification::DeprecatedOnly
    } else {
        Classification::NotAffected
    }
}

/// Deprecation comes no later than removal, when both are present.
pub open spec fn bounds_ordered_spec(r: RuleView) -> bool {
    match (r.deprecated_in, r.removed_in) {
        (Some(d), Some(rm)) => version_ge(rm, d),
        _ => true,
    }
}

/// The sentence for an optional bound, with the space that leads it.
pub open spec fn bound_sentence(lead: Seq<char>, bound: Option<VersionView>) -> Seq<char> {
    match bound {
        Some(b) => " "@ + lead + version_text(b) + "."@,
        None => Seq::empty(),
    }
}

/// The explanation of a rule: the API, its deprecation, its removal and its
/// successor, in that order.
pub open spec fn explanation_spec(r: RuleView) -> Seq<char> {
    r.version + " "@ + r.kind + " cannot be used."@
        + bound_sentence("It has been deprecated starting from "@, r.deprecated_in)
        + bound_sentence("It has been removed starting from "@, r.removed_in)
        + " It has been replaced by "@ + r.replacement_api + "."@
}

/// The error of [`DeprecationRule::is_only_deprecated`] on a release that the
/// rule does not concern.
pub open spec fn not_applicable_message(r: RuleView, v: VersionView) -> Seq<char> {
    "The deprecation rule '"@ + explanation_spec(r)
        + "' does not apply to kubernetes version: "@ + version_text(v)
}

fn clone_bound(o: &Option<Version>) -> (r: Option<Version>)
    ensures
        option_view(r) == option_view(*o),
{
    match o {
        Some(v) => Some(v.clone()),
        None => None,
    }
}

/// Appends the sentence for an optional bound.
fn push_bound(s: &mut String, lead: &str, bound: &Option<Version>)
    ensures
        final(s)@ == old(s)@ + bound_sentence(lead@, option_view(*bound)),
{
    match bound {
        Some(b) => {
            s.append(" ");
            s.append(lead);
            let t = b.to_text();
            s.append(t.as_str());
            s.append(".");
            proof {
                assert(final(s)@ =~= old(s)@ + bound_sentence(lead@, option_view(*bound)));
            }
        },
        None => {
            proof {
                assert(s@ =~= old(s)@ + bound_sentence(lead@, option_view(*bound)));
            }
        },
    }
}

impl DeprecationRule {
    /// Whether the rule concerns `kubernetes_version`: it reaches the removal
    /// or the deprecation release, whichever is present.
    pub fn includes(&self, kubernetes_version: &Version) -> (r: bool)
        ensures
            r == includes_spec(self@, kubernetes_version@),
    {
        if let Some(removed_in) = &self.removed_in {
            if kubernetes_version.ge(removed_in) {
                return true;
            }
        }
        if let Some(deprecated_in) = &self.deprecated_in {
            if kubernetes_version.ge(deprecated_in) {
                return true;
            }
        }
        false
    }

    /// Where the rule leaves `kubernetes_version`: removed, only deprecated,
    /// or not affected.
    pub fn classify(&self, kubernetes_version: &Version) -> (r: Classification)
        ensures
            r == classify_spec(self@, kubernetes_version@),
    {
        if let Some(removed_in) = &self.removed_in {
            if kubernetes_version.ge(removed_in) {
                return Classification::Removed;
            }
        }
        if let Some(deprecated_in) = &self.deprecated_in {
            if kubernetes_version.ge(deprecated_in) {
                return Classification::DeprecatedOnly;
            }
        }
        Classification::NotAffected
    }

    /// `Ok(true)` when the API is deprecated but still served at
    /// `kubernetes_version`, `Ok(false)` when it has been removed, and an error
    /// when the rule does not concern that release at all.
    pub fn is_only_deprecated(&self, kubernetes_version: &Version) -> (r: Result<bool, String>)
        ensures
            r matches Ok(b) ==> (b <==> classify_spec(self@, kubernetes_version@)
                == Classification::DeprecatedOnly),
            r is Err <==> classify_spec(self@, kubernetes_version@) == Classification::NotAffected,
            r matches Err(e) ==> e@ == not_applicable_message(self@, kubernetes_version@),
    {
        match self.classify(kubernetes_version) {
            Classification::Removed => Ok(false),
            Classification::DeprecatedOnly => Ok(true),
            Classification::NotAffected => {
                let mut msg = String::from_str("The deprecation rule '");
                let e = self.explanation();
                msg.append(e.as_str());
                msg.append("' does not apply to kubernetes version: ");
                let t = kubernetes_version.to_text();
                msg.append(t.as_str());
                proof {
                    assert(msg@ =~= not_applicable_message(self@, kubernetes_version@));
                }
                Err(msg)
            },
        }
    }

    /// The human-readable reason for rejecting the API: it cites the API, the
    /// deprecation and removal releases that are present, and the successor.
    pub fn explanation(&self) -> (r: String)
        ensures
            r@ == explanation_spec(self@),
    {
        let mut s = self.version.clone();
        s.append(" ");
        s.append(self.kind.as_str());
        s.append(" cannot be used.");
        push_bound(&mut s, "It has been deprecated starting from ", &self.deprecated_in);
        push_bound(&mut s, "It has been removed starting from ", &self.removed_in);
        s.append(" It has been replaced by ");
        s.append(self.replacement_api.as_str());
        s.append(".");
        proof {
            assert(s@ =~= explanation_spec(self@));
        }
        s
    }

    /// The authoring check of a row: when both bounds are present, the API is
    /// not deprecated after it is removed.
    pub fn bounds_ordered(&self) -> (r: bool)
        ensures
            r == bounds_ordered_spec(self@),
    {
        match (&self.deprecated_in, &self.removed_in) {
            (Some(d), Some(rm)) => rm.ge(d),
            _ => true,
        }
    }

    /// Whether the row concerns Kubernetes itself rather than another component.
    pub fn is_k8s(&self) -> (r: bool)
        ensures
            r == (self@.component == K8S_COMPONENT@),
    {
        self.component == String::from_str(K8S_COMPONENT)
    }

    /// This row as the text fields of the table format; a bound that is absent
    /// is written as an empty text.
    pub fn to_raw(&self) -> (r: RawRule)
        ensures
            r.version@ == self@.version,
            r.kind@ == self@.kind,
            r.replacement_api@ == self@.replacement_api,
            r.component@ == self@.component,
            r.deprecated_in matches Some(t) && t@ == bound_text(self@.deprecated_in),
            r.removed_in matches Some(t) && t@ == bound_text(self@.removed_in),
    {
        RawRule {
            version: self.version.clone(),
            kind: self.kind.clone(),
            deprecated_in: Some(bound_to_text(&self.deprecated_in)),
            removed_in: Some(bound_to_text(&self.removed_in)),
            replacement_api: self.replacement_api.clone(),
            component: self.component.clone(),
        }
    }

    /// Reads a row of the table format. A bound that is missing or empty is
    /// absent; any other bound must parse as a version (a leading `v` is
    /// allowed), the deprecation bound being read first.
    pub fn from_raw(raw: &RawRule) -> (r: Result<DeprecationRule, String>)
        ensures
            r is Ok <==> raw_readable(*raw),
            r matches Ok(rule) ==> rule@ == raw_view(*raw),
            r matches Err(e) ==> e@ == raw_error(*raw),
    {
        let deprecated_in = match parse_bound(&raw.deprecated_in) {
            Ok(b) => b,
            Err(e) => return Err(e),
        };
        let removed_in = match parse_bound(&raw.removed_in) {
            Ok(b) => b,
            Err(e) => return Err(e),
        };
        Ok(
            DeprecationRule {
                version: raw.version.clone(),
                kind: raw.kind.clone(),
                deprecated_in,
                removed_in,
                replacement_api: raw.replacement_api.clone(),
                component: raw.component.clone(),
            },
        )
    }
}

impl Clone for DeprecationRule {
    fn clone(&self) -> (r: Self)
        ensures
            r@ == self@,
    {
        DeprecationRule {
            version: self.version.clone(),
            kind: self.kind.clone(),
            deprecated_in: clone_bound(&self.deprecated_in),
            removed_in: clone_bound(&self.removed_in),
            replacement_api: self.replacement_api.clone(),
            component: self.component.clone(),
        }
    }
}

/// A row of the table format as text: `version`, `kind`, `deprecated-in`,
/// `removed-in`, `replacement-api` and `component`. A bound may be missing or
/// empty, which both mean absent.
pub struct RawRule {
    pub version: String,
    pub kind: String,
    pub deprecated_in: Option<String>,
    pub removed_in: Option<String>,
    pub replacement_api: String,
    pub component: String,
}

/// A bound as the table format writes it: its version text, or empty.
pub open spec fn bound_text(bound: Option<VersionView>) -> Seq<char> {
    match bound {
        Some(b) => version_text(b),
        None => Seq::empty(),
    }
}

/// The mathematical value of a [`RawRule`].
pub struct RowText {
    pub version: Seq<char>,
    pub kind: Seq<char>,
    pub deprecated_in: Option<Seq<char>>,
    pub removed_in: Option<Seq<char>>,
    pub replacement_api: Seq<char>,
    pub component: Seq<char>,
}

pub open spec fn text_option(o: Option<String>) -> Option<Seq<char>> {
    match o {
        Some(t) => Some(t@),
        None => None,
    }
}

impl View for RawRule {
    type V = RowText;

    open spec fn view(&self) -> RowText {
        RowText {
            version: self.version@,
            kind: self.kind@,
            deprecated_in: text_option(self.deprecated_in),
            removed_in: text_option(self.removed_in),
            replacement_api: self.replacement_api@,
            component: self.component@,
        }
    }
}

/// How a textual bound reads: `Some(None)` when missing or empty,
/// `Some(Some(v))` when it parses as `v`, and `None` when it does not parse.
pub open spec fn read_text_bound(text: Option<Seq<char>>) -> Option<Option<VersionView>> {
    match text {
        None => Some(None),
        Some(t) => if t.len() == 0 {
            Some(None)
        } else {
            match parse_spec(t) {
                Some(v) => Some(Some(v)),
                None => None,
            }
        },
    }
}

pub open spec fn read_bound(text: Option<String>) -> Option<Option<VersionView>> {
    read_text_bound(text_option(text))
}

/// A textual row reads when both of its bounds do.
pub open spec fn row_readable(t: RowText) -> bool {
    read_text_bound(t.deprecated_in) is Some && read_text_bound(t.removed_in) is Some
}

/// The rule that a readable textual row stands for.
pub open spec fn row_view(t: RowText) -> RuleView {
    RuleView {
        version: t.version,
        kind: t.kind,
        deprecated_in: read_text_bound(t.deprecated_in).unwrap(),
        removed_in: read_text_bound(t.removed_in).unwrap(),
        replacement_api: t.replacement_api,
        component: t.component,
    }
}

/// The error for a row that does not read: it names the first bound that
/// does not parse, the deprecation bound first.
pub open spec fn row_error(t: RowText) -> Seq<char> {
    if read_text_bound(t.deprecated_in) is None {
        invalid_version_message(t.deprecated_in.unwrap())
    } else {
        invalid_version_message(t.removed_in.unwrap())
    }
}

pub open spec fn raw_readable(raw: RawRule) -> bool {
    row_readable(raw@)
}

pub open spec fn raw_view(raw: RawRule) -> RuleView {
    row_view(raw@)
}

pub open spec fn raw_error(raw: RawRule) -> Seq<char> {
    row_error(raw@)
}

pub open spec fn invalid_version_message(text: Seq<char>) -> Seq<char> {
    "cannot parse version: "@ + text
}

fn bound_to_text(bound: &Option<Version>) -> (r: String)
    ensures
        r@ == bound_text(option_view(*bound)),
{
    match bound {
        Some(b) => b.to_text(),
        None => String::new(),
    }
}

fn parse_bound(text: &Option<String>) -> (r: Result<Option<Version>, String>)
    ensures
        r is Ok <==> read_bound(*text) is Some,
        r matches Ok(b) ==> Some(option_view(b)) == read_bound(*text),
        r matches Err(e) ==> e@ == invalid_version_message(text.unwrap()@),
{
    match text {
        None => Ok(None),
        Some(t) => {
            if t.as_str().is_empty() {
                Ok(None)
            } else {
                match parse(t.as_str()) {
                    Some(v) => Ok(Some(v)),
                    None => {
                        let mut msg = String::from_str("cannot parse version: ");
                        msg.append(t.as_str());
                        Err(msg)
                    },
                }
            }
        },
    }
}

/// A rule removed in `v2` concerns `v2`, and on any earlier `v1` it concerns
/// `v1` exactly when `v1` reaches its deprecation.
pub proof fn lemma_removal_bound(r: RuleView, v1: VersionView, v2: VersionView)
    requires
        r.removed_in == Some(v2),
        version_cmp(v1, v2) != Ordering::Greater,
    ensures
        includes_spec(r, v2),
        version_cmp(v1, v2) == Ordering::Equal ==> includes_spec(r, v1),
        version_cmp(v1, v2) == Ordering::Less ==> (includes_spec(r, v1) == reached(
            r.deprecated_in,
            v1,
        )),
{
    lemma_ge_reflexive(v2);
}

/// Classification is total and agrees with `includes`: a release that the rule
/// does not concern is not affected, one that it concerns is either removed or
/// only deprecated, and `Removed` comes only at or past the removal release.
pub proof fn lemma_classify_total(r: RuleView, v: VersionView)
    ensures
        classify_spec(r, v) == Classification::NotAffected || classify_spec(r, v)
            == Classification::DeprecatedOnly || classify_spec(r, v) == Classification::Removed,
        !includes_spec(r, v) <==> classify_spec(r, v) == Classification::NotAffected,
        classify_spec(r, v) == Classification::Removed ==> (r.removed_in matches Some(b)
            && version_ge(v, b)),
        classify_spec(r, v) == Classification::DeprecatedOnly ==> (r.deprecated_in matches Some(
            b,
        ) && version_ge(v, b)),
{
}

/// Reading back the textual row of a rule (the row that
/// [`DeprecationRule::to_raw`] writes) keeps every text field, keeps an absent
/// bound absent, and reads a present bound as semver reads the text of that
/// release.
pub proof fn lemma_raw_round_trip(r: RuleView, raw: RawRule)
    requires
        raw.version@ == r.version,
        raw.kind@ == r.kind,
        raw.replacement_api@ == r.replacement_api,
        raw.component@ == r.component,
        raw.deprecated_in matches Some(t) && t@ == bound_text(r.deprecated_in),
        raw.removed_in matches Some(t) && t@ == bound_text(r.removed_in),
    ensures
        r.deprecated_in is None ==> read_bound(raw.deprecated_in) == Some(
            Option::<VersionView>::None,
        ),
        r.removed_in is None ==> read_bound(raw.removed_in) == Some(Option::<VersionView>::None),
        r.deprecated_in matches Some(b) ==> read_bound(raw.deprecated_in) == (match parse_spec(
            version_text(b),
        ) {
            Some(v) => Some(Some(v)),
            None => None,
        }),
        r.removed_in matches Some(b) ==> read_bound(raw.removed_in) == (match parse_spec(
            version_text(b),
        ) {
            Some(v) => Some(Some(v)),
            None => None,
        }),
        raw_readable(raw) ==> {
            let back = raw_view(raw);
            &&& back.version == r.version
            &&& back.kind == r.kind
            &&& back.replacement_api == r.replacement_api
            &&& back.component == r.component
            &&& (r.deprecated_in is None ==> back.deprecated_in is None)
            &&& (r.removed_in is None ==> back.removed_in is None)
        },
{
    if let Some(b) = r.deprecated_in {
        lemma_version_text_nonempty(b);
    }
    if let Some(b) = r.removed_in {
        lemma_version_text_nonempty(b);
    }
}

/// The text of a version is never empty.
pub proof fn lemma_version_text_nonempty(v: VersionView)
    ensures
        version_text(v).len() > 0,
{
    let d = decimal(v.major as nat);
    assert(d.len() > 0) by {
        reveal_with_fuel(decimal, 2);
    }
}

} // verus!
