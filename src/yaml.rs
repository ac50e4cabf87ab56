//! A YAML document as plain values: null, text, sequences and mappings, with
//! every other scalar kept as "other". Reading the bytes is `serde_yaml`'s work.
use serde_yaml::Value;
use vstd::prelude::*;

verus! {

broadcast use vstd::std_specs::vec::group_vec_axioms;

/// A node of a YAML document.
pub enum YamlNode {
    Null,
    Text(String),
    Items(Vec<YamlNode>),
    Entries(Vec<(YamlNode, YamlNode)>),
    Other,
}

/// The mathematical value of a [`YamlNode`].
pub enum YamlNodeView {
    Null,
    Text(Seq<char>),
    Items(Seq<YamlNodeView>),
    Entries(Seq<(YamlNodeView, YamlNodeView)>),
    Other,
}

pub open spec fn node_view(n: YamlNode) -> YamlNodeView
    decreases n,
{
    match n {
        YamlNode::Null => YamlNodeView::Null,
        YamlNode::Text(s) => YamlNodeView::Text(s@),
        YamlNode::Items(v) => YamlNodeView::Items(
            Seq::new(v.len() as nat, |i: int| if 0 <= i < v.len() { node_view(v[i]) } else { YamlNodeView::Other }),
        ),
        YamlNode::Entries(v) => YamlNodeView::Entries(
            Seq::new(v.len() as nat, |i: int| if 0 <= i < v.len() { (node_view(v[i].0), node_view(v[i].1)) } else { (YamlNodeView::Other, YamlNodeView::Other) }),
        ),
        YamlNode::Other => YamlNodeView::Other,
    }
}

impl View for YamlNode {
    type V = YamlNodeView;

    open spec fn view(&self) -> YamlNodeView {
        node_view(*self)
    }
}

/// The tree that `serde_yaml::from_slice` reads from a document, or `None`
/// when the bytes are not a YAML document.
pub uninterp spec fn yaml_tree(data: Seq<u8>) -> Option<YamlNodeView>;

#[verifier::external_type_specification]
#[verifier::external_body]
pub struct ExValue(serde_yaml::Value);

/// Relies on the variants of `serde_yaml::Value` to convert a node one for
/// one: a tag is dropped, booleans and numbers become `Other`, and mapping
/// entries keep the order of `serde_yaml::Mapping`, which is the document's.
#[verifier::external_body]
fn yaml_node(v: &Value) -> YamlNode {
    match v {
        Value::Null => YamlNode::Null,
        Value::String(s) => YamlNode::Text(s.clone()),
        Value::Sequence(items) => YamlNode::Items(items.iter().map(yaml_node).collect()),
        Value::Mapping(m) => YamlNode::Entries(
            m.iter().map(|(k, x)| (yaml_node(k), yaml_node(x))).collect(),
        ),
        Value::Tagged(t) => yaml_node(&t.value),
        Value::Bool(_) | Value::Number(_) => YamlNode::Other,
    }
}

/// Relies on `serde_yaml::from_slice` into a `serde_yaml::Value`: the tree
/// depends on the bytes alone.
#[verifier::external_body]
pub fn yaml_load(data: &[u8]) -> (r: Option<YamlNode>)
    ensures
        r is None <==> yaml_tree(data@) is None,
        r matches Some(n) ==> yaml_tree(data@) == Some(n@),
{
    match serde_yaml::from_slice::<Value>(data) {
        Ok(v) => Some(yaml_node(&v)),
        Err(_) => None,
    }
}

/// The value of the first entry whose key is the text `key`.
pub open spec fn lookup(entries: Seq<(YamlNodeView, YamlNodeView)>, key: Seq<char>) -> Option<
    YamlNodeView,
>
    decreases entries.len(),
{
    if entries.len() == 0 {
        None
    } else if entries[0].0 == YamlNodeView::Text(key) {
        Some(entries[0].1)
    } else {
        lookup(entries.drop_first(), key)
    }
}

/// The value under `key` of a mapping node; none for any other node.
pub open spec fn entry(node: YamlNodeView, key: Seq<char>) -> Option<YamlNodeView> {
    match node {
        YamlNodeView::Entries(es) => lookup(es, key),
        _ => None,
    }
}

/// The value under `key` of a mapping node.
pub fn get<'a>(node: &'a YamlNode, key: &str) -> (r: Option<&'a YamlNode>)
    ensures
        r is None <==> entry(node@, key@) is None,
        r matches Some(x) ==> entry(node@, key@) == Some(x@),
{
    match node {
        YamlNode::Entries(es) => {
            let ghost ev = node@->Entries_0;
            let wanted = String::from_str(key);
            let mut i: usize = 0;
            assert(ev.subrange(0, ev.len() as int) =~= ev);
            assert(node@ == YamlNodeView::Entries(ev));
            while i < es.len()
                invariant
                    node@ == YamlNodeView::Entries(ev),
                    wanted@ == key@,
                    i <= es@.len(),
                    ev.len() == es@.len(),
                    forall|k: int| 0 <= k < es@.len() ==> #[trigger] ev[k] == (es@[k].0@, es@[k].1@),
                    lookup(ev, key@) == lookup(ev.subrange(i as int, ev.len() as int), key@),
                decreases es@.len() - i,
            {
                let ghost rest = ev.subrange(i as int, ev.len() as int);
                assert(rest.drop_first() =~= ev.subrange(i + 1, ev.len() as int));
                assert(rest[0] == ev[i as int]);
                let matched = match &es[i].0 {
                    YamlNode::Text(s) => *s == wanted,
                    _ => false,
                };
                proof {
                    if !matched {
                        if es@[i as int].0@ == YamlNodeView::Text(key@) {
                            assert(es@[i as int].0 is Text);
                        }
                    }
                }
                if matched {
                    proof {
                        assert(es@[i as int].0@ == YamlNodeView::Text(key@));
                        assert(rest[0].0 == YamlNodeView::Text(key@));
                        assert(lookup(rest, key@) == Some(es@[i as int].1@));
                        assert(node@ is Entries);
                        assert(entry(node@, key@) == lookup(ev, key@));
                    }
                    return Some(&es[i].1);
                }
                i = i + 1;
            }
            assert(ev.subrange(i as int, ev.len() as int).len() == 0);
            assert(entry(node@, key@) == lookup(ev, key@));
            None
        },
        _ => None,
    }
}

} // verus!
