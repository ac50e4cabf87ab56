//! The deprecation table and the point query that the policy asks of it.
use crate::rule::{
    includes_spec, raw_error, raw_readable, raw_view, DeprecationRule, RawRule, RuleView,
    K8S_COMPONENT,
};
use crate::version::{Version, VersionView};
use vstd::prelude::*;

verus! {

/// The group, version and kind of a Kubernetes resource type. The core group
/// is the empty group.
pub struct GroupVersionKind {
    pub group: String,
    pub version: String,
    pub kind: String,
}

/// The mathematical value of a [`GroupVersionKind`].
pub struct GvkView {
    pub group: Seq<char>,
    pub version: Seq<char>,
    pub kind: Seq<char>,
}

impl View for GroupVersionKind {
    type V = GvkView;

    open spec fn view(&self) -> GvkView {
        GvkView { group: self.group@, version: self.version@, kind: self.kind@ }
    }
}

/// The table key of a group and version: `group/version`, or the bare version
/// for the core group, as the table writes core APIs (`v1`).
pub open spec fn gvk_key(g: GvkView) -> Seq<char> {
    if g.group.len() == 0 {
        g.version
    } else {
        g.group + "/"@ + g.version
    }
}

/// A row answers a query when it belongs to Kubernetes, has the queried key
/// and kind, and concerns the queried release.
pub open spec fn answers(r: RuleView, g: GvkView, v: VersionView) -> bool {
    &&& r.component == K8S_COMPONENT@
    &&& r.version == gvk_key(g)
    &&& r.kind == g.kind
    &&& includes_spec(r, v)
}

/// The views of a sequence of rules.
pub open spec fn rules_view(rules: Seq<DeprecationRule>) -> Seq<RuleView> {
    rules.map_values(|r: DeprecationRule| r@)
}

/// The rows of one table key, in table order, with the places in the table
/// that they come from.
struct Bucket {
    key: String,
    rules: Vec<DeprecationRule>,
    at: Ghost<Seq<int>>,
}

/// `b` holds, in order, exactly the rows among the first `n` of `src` whose
/// key is its key.
spec fn bucket_wf(b: Bucket, src: Seq<RuleView>, n: int) -> bool {
    &&& b.at@.len() == b.rules@.len()
    &&& forall|j: int|
        0 <= j < b.at@.len() ==> {
            &&& 0 <= #[trigger] b.at@[j] < n
            &&& src[b.at@[j]] == b.rules@[j]@
            &&& src[b.at@[j]].version == b.key@
        }
    &&& forall|j1: int, j2: int|
        0 <= j1 < j2 < b.at@.len() ==> #[trigger] b.at@[j1] < #[trigger] b.at@[j2]
    &&& forall|i: int|
        0 <= i < n && #[trigger] src[i].version == b.key@ ==> exists|j: int|
            0 <= j < b.at@.len() && #[trigger] b.at@[j] == i
}

/// The buckets group the first `n` rows of `src` by key: one bucket per key,
/// each well formed.
spec fn buckets_wf(buckets: Seq<Bucket>, src: Seq<RuleView>, n: int) -> bool {
    &&& 0 <= n <= src.len()
    &&& forall|p: int| 0 <= p < buckets.len() ==> bucket_wf(#[trigger] buckets[p], src, n)
    &&& forall|p: int, q: int|
        0 <= p < q < buckets.len() ==> #[trigger] buckets[p].key@ != #[trigger] buckets[q].key@
    &&& forall|i: int| 0 <= i < n ==> has_bucket(buckets, #[trigger] src[i].version)
}

/// Some bucket has the key.
spec fn has_bucket(buckets: Seq<Bucket>, key: Seq<char>) -> bool {
    exists|p: int| 0 <= p < buckets.len() && (#[trigger] buckets[p]).key@ == key
}

/// The deprecation table: its rows in the order of the source table, grouped
/// by key. A query is answered by the first row of its key's group that
/// answers it, so of two rows with the same key and kind the earlier one wins.
pub struct DeprecationChecker {
    rules: Vec<DeprecationRule>,
    buckets: Vec<Bucket>,
}

impl View for DeprecationChecker {
    type V = Seq<RuleView>;

    closed spec fn view(&self) -> Seq<RuleView> {
        rules_view(self.rules@)
    }
}

impl DeprecationChecker {
    #[verifier::type_invariant]
    spec fn inv(&self) -> bool {
        buckets_wf(self.buckets@, rules_view(self.rules@), self.rules@.len() as int)
    }
}

impl GroupVersionKind {
    /// The table key of this group and version.
    pub fn key(&self) -> (r: String)
        ensures
            r@ == gvk_key(self@),
    {
        if self.group.as_str().is_empty() {
            self.version.clone()
        } else {
            let mut s = self.group.clone();
            s.append("/");
            s.append(self.version.as_str());
            s
        }
    }
}

impl DeprecationChecker {
    /// The table of `rules`, in their order, grouped by key.
    pub fn new(rules: Vec<DeprecationRule>) -> (r: DeprecationChecker)
        ensures
            r@ == rules_view(rules@),
    {
        let ghost src = rules_view(rules@);
        let mut buckets: Vec<Bucket> = Vec::new();
        let mut i: usize = 0;
        while i < rules.len()
            invariant
                i <= rules@.len(),
                src == rules_view(rules@),
                buckets_wf(buckets@, src, i as int),
            decreases rules@.len() - i,
        {
            let rule = &rules[i];
            assert(src[i as int] == rule@);
            let mut p: usize = 0;
            while p < buckets.len() && buckets[p].key != rule.version
                invariant
                    p <= buckets@.len(),
                    forall|q: int| 0 <= q < p ==> buckets@[q].key@ != rule.version@,
                decreases buckets@.len() - p,
            {
                p = p + 1;
            }
            let ghost before = buckets@;
            if p < buckets.len() {
                let mut b = buckets.remove(p);
                let ghost old_b = b;
                b.rules.push(rule.clone());
                let ghost at1 = b.at@.push(i as int);
                b.at = Ghost(at1);
                proof {
                    assert(bucket_wf(old_b, src, i as int));
                    assert forall|j: int| 0 <= j < b.at@.len() implies {
                        &&& 0 <= #[trigger] b.at@[j] < i + 1
                        &&& src[b.at@[j]] == b.rules@[j]@
                        &&& src[b.at@[j]].version == b.key@
                    } by {
                        if j < old_b.at@.len() {
                            assert(b.at@[j] == old_b.at@[j]);
                            assert(b.rules@[j] == old_b.rules@[j]);
                        }
                    }
                    assert forall|k: int| 0 <= k < i + 1 && #[trigger] src[k].version == b.key@
                        implies exists|j: int| 0 <= j < b.at@.len() && #[trigger] b.at@[j] == k by {
                        if k < i {
                            let j = choose|j: int| 0 <= j < old_b.at@.len() && #[trigger] old_b.at@[j] == k;
                            assert(b.at@[j] == k);
                        } else {
                            assert(b.at@[old_b.at@.len() as int] == k);
                        }
                    }
                    assert(bucket_wf(b, src, i + 1));
                }
                buckets.insert(p, b);
                proof {
                    assert(buckets@ == before.update(p as int, b));
                    assert forall|q: int| 0 <= q < buckets@.len() && q != p implies bucket_wf(
                        #[trigger] buckets@[q],
                        src,
                        i + 1,
                    ) by {
                        let c = buckets@[q];
                        assert(c == before[q]);
                        assert(bucket_wf(c, src, i as int));
                        assert(c.key@ != before[p as int].key@);
                        assert forall|k: int| 0 <= k < i + 1 && #[trigger] src[k].version == c.key@
                            implies exists|j: int| 0 <= j < c.at@.len() && #[trigger] c.at@[j] == k by {
                            if k == i {
                                assert(src[k].version == before[p as int].key@);
                            }
                        }
                    }
                    assert forall|k: int| 0 <= k < i + 1 implies has_bucket(buckets@, #[trigger] src[k].version) by {
                        if k == i {
                            assert(buckets@[p as int].key@ == src[k].version);
                        } else {
                            let q = choose|q: int|
                                0 <= q < before.len() && (#[trigger] before[q]).key@ == src[k].version;
                            if q == p {
                                assert(buckets@[p as int].key@ == before[q].key@);
                            } else {
                                assert(buckets@[q] == before[q]);
                            }
                        }
                    }
                    assert(buckets@[p as int] == b);
                    assert forall|q: int| 0 <= q < buckets@.len() implies bucket_wf(#[trigger] buckets@[q], src, i + 1) by {
                        if q == p {
                            assert(buckets@[q] == b);
                        }
                    }
                    assert forall|q1: int, q2: int| 0 <= q1 < q2 < buckets@.len() implies #[trigger] buckets@[q1].key@ != #[trigger] buckets@[q2].key@ by {
                        assert(before[q1].key@ != before[q2].key@);
                        if q1 == p {
                            assert(buckets@[q1].key@ == before[q1].key@);
                        }
                        if q2 == p {
                            assert(buckets@[q2].key@ == before[q2].key@);
                        }
                    }
                    assert(buckets_wf(buckets@, src, i + 1));
                }
            } else {
                let mut first: Vec<DeprecationRule> = Vec::new();
                first.push(rule.clone());
                let ghost at0 = seq![i as int];
                let b = Bucket { key: rule.version.clone(), rules: first, at: Ghost(at0) };
                proof {
                    assert forall|k: int| 0 <= k < i + 1 && #[trigger] src[k].version == b.key@
                        implies exists|j: int| 0 <= j < b.at@.len() && #[trigger] b.at@[j] == k by {
                        if k < i {
                            let q = choose|q: int|
                                0 <= q < before.len() && (#[trigger] before[q]).key@ == src[k].version;
                            assert(before[q].key@ != rule.version@);
                        } else {
                            assert(b.at@[0] == k);
                        }
                    }
                    assert(b.rules@[0]@ == rule@);
                    assert(bucket_wf(b, src, i + 1));
                }
                buckets.push(b);
                proof {
                    assert forall|q: int| 0 <= q < buckets@.len() implies bucket_wf(
                        #[trigger] buckets@[q],
                        src,
                        i + 1,
                    ) by {
                        if q < before.len() {
                            let c = buckets@[q];
                            assert(c == before[q]);
                            assert(bucket_wf(c, src, i as int));
                            assert(c.key@ != rule.version@);
                            assert forall|k: int| 0 <= k < i + 1 && #[trigger] src[k].version == c.key@
                                implies exists|j: int| 0 <= j < c.at@.len() && #[trigger] c.at@[j] == k by {
                            }
                        } else {
                            assert(buckets@[q] == b);
                        }
                    }
                    assert forall|k: int| 0 <= k < i + 1 implies has_bucket(buckets@, #[trigger] src[k].version) by {
                        if k == i {
                            assert(buckets@[before.len() as int].key@ == src[k].version);
                        } else {
                            let q = choose|q: int|
                                0 <= q < before.len() && (#[trigger] before[q]).key@ == src[k].version;
                            assert(buckets@[q] == before[q]);
                        }
                    }
                    assert forall|q1: int, q2: int| 0 <= q1 < q2 < buckets@.len() implies #[trigger] buckets@[q1].key@ != #[trigger] buckets@[q2].key@ by {
                        if q2 == before.len() {
                            assert(buckets@[q1] == before[q1]);
                        } else {
                            assert(before[q1].key@ != before[q2].key@);
                        }
                    }
                    assert(buckets_wf(buckets@, src, i + 1));
                }
            }
            i = i + 1;
        }
        DeprecationChecker { rules, buckets }
    }

    /// Reads the textual rows of a table. Every row must read; the first one
    /// that does not gives the error.
    pub fn from_raw_rules(raw: &Vec<RawRule>) -> (r: Result<DeprecationChecker, String>)
        ensures
            r is Ok <==> (forall|i: int| 0 <= i < raw@.len() ==> raw_readable(#[trigger] raw@[i])),
            r matches Ok(c) ==> c@ == raw@.map_values(|x: RawRule| raw_view(x)),
            r matches Err(e) ==> exists|i: int|
                0 <= i < raw@.len() && !raw_readable(#[trigger] raw@[i]) && (forall|j: int|
                    0 <= j < i ==> raw_readable(#[trigger] raw@[j])) && e@ == raw_error(raw@[i]),
    {
        let mut rules: Vec<DeprecationRule> = Vec::new();
        let mut i: usize = 0;
        while i < raw.len()
            invariant
                i <= raw@.len(),
                rules@.len() == i,
                forall|j: int| 0 <= j < i ==> raw_readable(#[trigger] raw@[j]),
                rules_view(rules@) =~= raw@.subrange(0, i as int).map_values(
                    |x: RawRule| raw_view(x),
                ),
            decreases raw@.len() - i,
        {
            match DeprecationRule::from_raw(&raw[i]) {
                Ok(rule) => {
                    let ghost before = rules@;
                    let ghost rv = rule@;
                    rules.push(rule);
                    proof {
                        let done = raw@.subrange(0, i as int).map_values(|x: RawRule| raw_view(x));
                        assert forall|k: int| 0 <= k <= i implies #[trigger] rules_view(
                            rules@,
                        )[k] == raw_view(raw@[k]) by {
                            if k < i {
                                assert(rules@[k] == before[k]);
                                assert(rules_view(before)[k] == done[k]);
                            } else {
                                assert(rules@[k]@ == rv);
                            }
                        }
                        assert(rules_view(rules@) =~= raw@.subrange(0, i + 1).map_values(
                            |x: RawRule| raw_view(x),
                        ));
                    }
                    i = i + 1;
                },
                Err(e) => {
                    return Err(e);
                },
            }
        }
        proof {
            assert(raw@.subrange(0, i as int) =~= raw@);
        }
        Ok(DeprecationChecker::new(rules))
    }

    /// The number of rows.
    pub fn len(&self) -> (r: usize)
        ensures
            r == self@.len(),
    {
        self.rules.len()
    }

    /// The row at `i`.
    pub fn rule(&self, i: usize) -> (r: &DeprecationRule)
        requires
            i < self@.len(),
        ensures
            r@ == self@[i as int],
    {
        &self.rules[i]
    }

    /// The first row that answers the query for `obj` at `kubernetes_version`,
    /// or none when no row does.
    pub fn check(&self, obj: &GroupVersionKind, kubernetes_version: &Version) -> (r: Option<
        DeprecationRule,
    >)
        ensures
            r is None <==> (forall|i: int|
                0 <= i < self@.len() ==> !answers(
                    #[trigger] self@[i],
                    obj@,
                    kubernetes_version@,
                )),
            r matches Some(x) ==> exists|i: int|
                0 <= i < self@.len() && answers(#[trigger] self@[i], obj@, kubernetes_version@)
                    && x@ == self@[i] && (forall|j: int|
                    0 <= j < i ==> !answers(#[trigger] self@[j], obj@, kubernetes_version@)),
    {
        proof {
            use_type_invariant(self);
        }
        let ghost src = self@;
        let ghost v = kubernetes_version@;
        let key = obj.key();
        let mut p: usize = 0;
        while p < self.buckets.len() && self.buckets[p].key != key
            invariant
                p <= self.buckets@.len(),
                forall|q: int| 0 <= q < p ==> self.buckets@[q].key@ != key@,
            decreases self.buckets@.len() - p,
        {
            p = p + 1;
        }
        if p == self.buckets.len() {
            proof {
                assert forall|i: int| 0 <= i < src.len() implies !answers(
                    #[trigger] src[i],
                    obj@,
                    v,
                ) by {
                    if answers(src[i], obj@, v) {
                        assert(has_bucket(self.buckets@, src[i].version));
                        let q = choose|q: int|
                            0 <= q < self.buckets@.len() && (#[trigger] self.buckets@[q]).key@
                                == src[i].version;
                    }
                }
            }
            return None;
        }
        let bucket = &self.buckets[p];
        proof {
            assert(bucket_wf(*bucket, src, src.len() as int));
        }
        let k8s = String::from_str(K8S_COMPONENT);
        let mut j: usize = 0;
        while j < bucket.rules.len()
            invariant
                j <= bucket.rules@.len(),
                src == self@,
                bucket_wf(*bucket, src, src.len() as int),
                bucket.key@ == key@,
                key@ == gvk_key(obj@),
                k8s@ == K8S_COMPONENT@,
                v == kubernetes_version@,
                forall|j2: int| 0 <= j2 < j ==> !answers(#[trigger] src[bucket.at@[j2]], obj@, v),
            decreases bucket.rules@.len() - j,
        {
            let rule = &bucket.rules[j];
            proof {
                assert(src[bucket.at@[j as int]] == rule@);
            }
            if rule.component == k8s && rule.kind == obj.kind && rule.includes(kubernetes_version) {
                proof {
                    let i = bucket.at@[j as int];
                    assert(0 <= i < src.len());
                    assert(answers(src[i], obj@, v));
                    assert forall|i2: int| 0 <= i2 < i implies !answers(#[trigger] src[i2], obj@, v) by {
                        if answers(src[i2], obj@, v) {
                            let j2 = choose|j2: int| 0 <= j2 < bucket.at@.len() && #[trigger] bucket.at@[j2] == i2;
                            if j2 >= j {
                                if j2 > j {
                                    assert(bucket.at@[j as int] < bucket.at@[j2]);
                                }
                            }
                        }
                    }
                }
                let found = rule.clone();
                proof {
                    let i = bucket.at@[j as int];
                    assert(found@ == self@[i]);
                }
                return Some(found);
            }
            j = j + 1;
        }
        proof {
            assert forall|i: int| 0 <= i < src.len() implies !answers(#[trigger] src[i], obj@, v) by {
                if answers(src[i], obj@, v) {
                    let j2 = choose|j2: int| 0 <= j2 < bucket.at@.len() && #[trigger] bucket.at@[j2] == i;
                }
            }
        }
        None
    }
}

} // verus!
