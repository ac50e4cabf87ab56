//! The admission-matching rules that the policy's metadata should declare:
//! one rule per API group of the table's Kubernetes rows, listing the API
//! versions that the table mentions for that group.
use crate::checker::rules_view;
use crate::rule::{DeprecationRule, RuleView, K8S_COMPONENT};
use crate::text::{insert_sorted, strictly_sorted, texts};
use vstd::prelude::*;

verus! {

/// An operation that an admission rule matches.
#[derive(PartialEq, Eq, Structural, Clone, Copy, Debug, Hash)]
pub enum Operation {
    Create,
    Update,
    Delete,
    Connect,
    All,
}

/// An admission-matching rule of the policy metadata.
pub struct Rule {
    pub api_groups: Vec<String>,
    pub api_versions: Vec<String>,
    pub resources: Vec<String>,
    pub operations: Vec<Operation>,
}

/// The part of the policy metadata that holds the matching rules.
pub struct MetadataLite {
    pub rules: Vec<Rule>,
}

/// Where the first `/` of a key stands, or the key's length when it has none.
pub open spec fn first_slash(key: Seq<char>) -> int
    decreases key.len(),
{
    if key.len() == 0 {
        0
    } else if key[0] == '/' {
        0
    } else {
        1 + first_slash(key.drop_first())
    }
}

/// The API group of a table key: what stands before its first `/`, or the
/// empty core group when it has none.
pub open spec fn api_group(key: Seq<char>) -> Seq<char> {
    if first_slash(key) < key.len() {
        key.subrange(0, first_slash(key))
    } else {
        Seq::empty()
    }
}

/// The API version of a table key: what follows its first `/`, or the whole
/// key when it has none.
pub open spec fn api_version(key: Seq<char>) -> Seq<char> {
    if first_slash(key) < key.len() {
        key.subrange(first_slash(key) + 1, key.len() as int)
    } else {
        key
    }
}

pub open spec fn is_k8s(r: RuleView) -> bool {
    r.component == K8S_COMPONENT@
}

/// The API groups of the Kubernetes rows among the first `n`.
pub open spec fn k8s_groups(rules: Seq<RuleView>, n: int) -> Set<Seq<char>> {
    Set::new(
        |g: Seq<char>|
            exists|i: int| 0 <= i < n && is_k8s(rules[i]) && #[trigger] api_group(rules[i].version) == g,
    )
}

/// The API versions of the Kubernetes rows of group `g` among the first `n`.
pub open spec fn k8s_versions(rules: Seq<RuleView>, g: Seq<char>, n: int) -> Set<Seq<char>> {
    Set::new(
        |v: Seq<char>|
            exists|i: int|
                0 <= i < n && is_k8s(rules[i]) && api_group(rules[i].version) == g
                    && #[trigger] api_version(rules[i].version) == v,
    )
}

pub proof fn lemma_first_slash(key: Seq<char>, i: int)
    requires
        0 <= i <= key.len(),
        forall|j: int| 0 <= j < i ==> key[j] != '/',
        i == key.len() || key[i] == '/',
    ensures
        first_slash(key) == i,
    decreases i,
{
    if i > 0 {
        lemma_first_slash(key.drop_first(), i - 1);
    }
}

/// Splits a table key into its API group and API version.
pub fn split_key(key: &str) -> (r: (String, String))
    ensures
        r.0@ == api_group(key@),
        r.1@ == api_version(key@),
{
    let n = key.unicode_len();
    let mut i: usize = 0;
    while i < n && key.get_char(i) != '/'
        invariant
            n == key@.len(),
            i <= n,
            forall|j: int| 0 <= j < i ==> key@[j] != '/',
        decreases n - i,
    {
        i = i + 1;
    }
    proof {
        lemma_first_slash(key@, i as int);
    }
    if i < n {
        (String::from_str(key.substring_char(0, i)), String::from_str(key.substring_char(i + 1, n)))
    } else {
        (String::new(), String::from_str(key))
    }
}

/// The sorted, distinct API groups of the Kubernetes rows.
fn collect_groups(rules: &Vec<DeprecationRule>) -> (r: Vec<String>)
    ensures
        strictly_sorted(texts(r@)),
        texts(r@).to_set() == k8s_groups(rules_view(rules@), rules@.len() as int),
{
    let ghost rv = rules_view(rules@);
    let k8s = String::from_str(K8S_COMPONENT);
    let mut groups: Vec<String> = Vec::new();
    let mut i: usize = 0;
    proof {
        assert(texts(groups@).to_set() =~= k8s_groups(rv, 0));
    }
    while i < rules.len()
        invariant
            i <= rules@.len(),
            rv == rules_view(rules@),
            k8s@ == K8S_COMPONENT@,
            strictly_sorted(texts(groups@)),
            texts(groups@).to_set() == k8s_groups(rv, i as int),
        decreases rules@.len() - i,
    {
        let rule = &rules[i];
        assert(rv[i as int] == rule@);
        if rule.component == k8s {
            let (g, _) = split_key(rule.version.as_str());
            insert_sorted(&mut groups, g.as_str());
            proof {
                assert forall|x: Seq<char>| k8s_groups(rv, i + 1).contains(x) <==> k8s_groups(
                    rv,
                    i as int,
                ).insert(g@).contains(x) by {
                    if k8s_groups(rv, i + 1).contains(x) {
                        let k = choose|k: int|
                            0 <= k < i + 1 && is_k8s(rv[k]) && #[trigger] api_group(rv[k].version)
                                == x;
                        if k < i {
                            assert(k8s_groups(rv, i as int).contains(x));
                        }
                    }
                    if x == g@ {
                        assert(api_group(rv[i as int].version) == x);
                    }
                }
                assert(k8s_groups(rv, i + 1) =~= k8s_groups(rv, i as int).insert(g@));
            }
        } else {
            proof {
                assert forall|x: Seq<char>| k8s_groups(rv, i + 1).contains(x) <==> k8s_groups(
                    rv,
                    i as int,
                ).contains(x) by {
                    if k8s_groups(rv, i + 1).contains(x) {
                        let k = choose|k: int|
                            0 <= k < i + 1 && is_k8s(rv[k]) && #[trigger] api_group(rv[k].version)
                                == x;
                        assert(k < i);
                    }
                }
                assert(k8s_groups(rv, i + 1) =~= k8s_groups(rv, i as int));
            }
        }
        i = i + 1;
    }
    groups
}

/// The sorted, distinct API versions of the Kubernetes rows of group `group`.
fn collect_versions(rules: &Vec<DeprecationRule>, group: &String) -> (r: Vec<String>)
    ensures
        strictly_sorted(texts(r@)),
        texts(r@).to_set() == k8s_versions(rules_view(rules@), group@, rules@.len() as int),
{
    let ghost rv = rules_view(rules@);
    let k8s = String::from_str(K8S_COMPONENT);
    let mut versions: Vec<String> = Vec::new();
    let mut i: usize = 0;
    proof {
        assert(texts(versions@).to_set() =~= k8s_versions(rv, group@, 0));
    }
    while i < rules.len()
        invariant
            i <= rules@.len(),
            rv == rules_view(rules@),
            k8s@ == K8S_COMPONENT@,
            strictly_sorted(texts(versions@)),
            texts(versions@).to_set() == k8s_versions(rv, group@, i as int),
        decreases rules@.len() - i,
    {
        let rule = &rules[i];
        assert(rv[i as int] == rule@);
        let (g, v) = split_key(rule.version.as_str());
        if rule.component == k8s && g == *group {
            insert_sorted(&mut versions, v.as_str());
            proof {
                assert forall|x: Seq<char>| k8s_versions(rv, group@, i + 1).contains(x)
                    <==> k8s_versions(rv, group@, i as int).insert(v@).contains(x) by {
                    if k8s_versions(rv, group@, i + 1).contains(x) {
                        let k = choose|k: int|
                            0 <= k < i + 1 && is_k8s(rv[k]) && api_group(rv[k].version) == group@
                                && #[trigger] api_version(rv[k].version) == x;
                        if k < i {
                            assert(k8s_versions(rv, group@, i as int).contains(x));
                        }
                    }
                    if x == v@ {
                        assert(api_version(rv[i as int].version) == x);
                    }
                }
                assert(k8s_versions(rv, group@, i + 1) =~= k8s_versions(rv, group@, i as int).insert(
                    v@,
                ));
            }
        } else {
            proof {
                assert forall|x: Seq<char>| k8s_versions(rv, group@, i + 1).contains(x)
                    <==> k8s_versions(rv, group@, i as int).contains(x) by {
                    if k8s_versions(rv, group@, i + 1).contains(x) {
                        let k = choose|k: int|
                            0 <= k < i + 1 && is_k8s(rv[k]) && api_group(rv[k].version) == group@
                                && #[trigger] api_version(rv[k].version) == x;
                        assert(k < i);
                    }
                }
                assert(k8s_versions(rv, group@, i + 1) =~= k8s_versions(rv, group@, i as int));
            }
        }
        i = i + 1;
    }
    versions
}

/// The API group that a generated rule is for.
pub open spec fn rule_group(r: Rule) -> Seq<char> {
    texts(r.api_groups@)[0]
}

/// The matching rules that the table asks for: one per API group of its
/// Kubernetes rows, in the order of the groups' names, each for the `CREATE`
/// of any resource under the group's API versions, listed in order of name.
pub fn generate_metadata_rules(rules: &Vec<DeprecationRule>) -> (r: Vec<Rule>)
    ensures
        strictly_sorted(r@.map_values(|x: Rule| rule_group(x))),
        r@.map_values(|x: Rule| rule_group(x)).to_set() == k8s_groups(
            rules_view(rules@),
            rules@.len() as int,
        ),
        forall|i: int|
            0 <= i < r@.len() ==> {
                let x = #[trigger] r@[i];
                &&& texts(x.api_groups@).len() == 1
                &&& strictly_sorted(texts(x.api_versions@))
                &&& texts(x.api_versions@).to_set() == k8s_versions(
                    rules_view(rules@),
                    rule_group(x),
                    rules@.len() as int,
                )
                &&& texts(x.resources@) == seq![seq!['*']]
                &&& x.operations@ == seq![Operation::Create]
            },
{
    let groups = collect_groups(rules);
    let mut out: Vec<Rule> = Vec::new();
    let mut k: usize = 0;
    while k < groups.len()
        invariant
            k <= groups@.len(),
            out@.len() == k,
            forall|i: int| 0 <= i < k ==> rule_group(#[trigger] out@[i]) == texts(groups@)[i],
            forall|i: int|
                0 <= i < k ==> {
                    let x = #[trigger] out@[i];
                    &&& texts(x.api_groups@).len() == 1
                    &&& strictly_sorted(texts(x.api_versions@))
                    &&& texts(x.api_versions@).to_set() == k8s_versions(
                        rules_view(rules@),
                        rule_group(x),
                        rules@.len() as int,
                    )
                    &&& texts(x.resources@) == seq![seq!['*']]
                    &&& x.operations@ == seq![Operation::Create]
                },
        decreases groups@.len() - k,
    {
        let group = &groups[k];
        let api_versions = collect_versions(rules, group);
        let mut api_groups: Vec<String> = Vec::new();
        api_groups.push(group.clone());
        let mut resources: Vec<String> = Vec::new();
        let star = String::from_str("*");
        proof {
            reveal_strlit("*");
            assert(star@ =~= seq!['*']);
        }
        resources.push(star);
        let mut operations: Vec<Operation> = Vec::new();
        operations.push(Operation::Create);
        let rule = Rule { api_groups, api_versions, resources, operations };
        proof {
            assert(texts(rule.api_groups@) =~= seq![group@]);
            assert(texts(rule.resources@) =~= seq![seq!['*']]);
            assert(rule.operations@ =~= seq![Operation::Create]);
        }
        out.push(rule);
        k = k + 1;
    }
    proof {
        assert(out@.map_values(|x: Rule| rule_group(x)) =~= texts(groups@));
    }
    out
}

} // verus!
