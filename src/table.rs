//! Reading the table format: a YAML mapping whose `deprecated-versions` key
//! holds the rows, each a mapping with the keys `version`, `kind`,
//! `deprecated-in`, `removed-in` (which may be left out), `replacement-api`
//! and `component`. A bound that is null or empty is absent.
use crate::checker::DeprecationChecker;
use crate::rule::{
    raw_view, row_readable, row_view, DeprecationRule, RawRule, RowText, RuleView,
};
use crate::yaml::{entry, get, yaml_load, yaml_tree, YamlNode, YamlNodeView};
use vstd::prelude::*;

verus! {

/// The text under `key` of a row, if it holds a text there.
pub open spec fn field_text(row: YamlNodeView, key: Seq<char>) -> Option<Seq<char>> {
    match entry(row, key) {
        Some(YamlNodeView::Text(s)) => Some(s),
        _ => None,
    }
}

/// A bound under `key` of a row: null is absent, and so is a missing key
/// unless it is `required`; anything but a text or null does not read.
pub open spec fn field_bound(row: YamlNodeView, key: Seq<char>, required: bool) -> Option<
    Option<Seq<char>>,
> {
    match entry(row, key) {
        Some(YamlNodeView::Null) => Some(None),
        Some(YamlNodeView::Text(s)) => Some(Some(s)),
        Some(_) => None,
        None => if required {
            None
        } else {
            Some(None)
        },
    }
}

/// The textual row that a row node holds, if it has every field.
pub open spec fn row_of(row: YamlNodeView) -> Option<RowText> {
    let version = field_text(row, "version"@);
    let kind = field_text(row, "kind"@);
    let deprecated_in = field_bound(row, "deprecated-in"@, true);
    let removed_in = field_bound(row, "removed-in"@, false);
    let replacement_api = field_text(row, "replacement-api"@);
    let component = field_text(row, "component"@);
    if version is Some && kind is Some && deprecated_in is Some && removed_in is Some
        && replacement_api is Some && component is Some {
        Some(
            RowText {
                version: version.unwrap(),
                kind: kind.unwrap(),
                deprecated_in: deprecated_in.unwrap(),
                removed_in: removed_in.unwrap(),
                replacement_api: replacement_api.unwrap(),
                component: component.unwrap(),
            },
        )
    } else {
        None
    }
}

/// The row nodes of a table document.
pub open spec fn doc_items(doc: YamlNodeView) -> Option<Seq<YamlNodeView>> {
    match entry(doc, "deprecated-versions"@) {
        Some(YamlNodeView::Items(items)) => Some(items),
        _ => None,
    }
}

/// The textual rows of a table document, in order, when every row node has
/// every field.
pub open spec fn doc_rows(doc: YamlNodeView) -> Option<Seq<RowText>> {
    match doc_items(doc) {
        Some(items) => if forall|i: int| 0 <= i < items.len() ==> (#[trigger] row_of(items[i])) is Some {
            Some(items.map_values(|x: YamlNodeView| row_of(x).unwrap()))
        } else {
            None
        },
        None => None,
    }
}

/// The table that readable textual rows stand for.
pub open spec fn table_of(rows: Seq<RowText>) -> Seq<RuleView> {
    rows.map_values(|t: RowText| row_view(t))
}

/// The table that a document of the table format stands for: its rows in
/// order, when it is YAML of that shape and every bound reads.
pub open spec fn doc_table(data: Seq<u8>) -> Option<Seq<RuleView>> {
    match yaml_tree(data) {
        Some(d) => match doc_rows(d) {
            Some(rows) => if forall|i: int| 0 <= i < rows.len() ==> row_readable(#[trigger] rows[i]) {
                Some(table_of(rows))
            } else {
                None
            },
            None => None,
        },
        None => None,
    }
}

/// The rule that a document holding one row stands for.
pub open spec fn doc_rule(data: Seq<u8>) -> Option<RuleView> {
    match yaml_tree(data) {
        Some(d) => match row_of(d) {
            Some(t) => if row_readable(t) {
                Some(row_view(t))
            } else {
                None
            },
            None => None,
        },
        None => None,
    }
}

/// The error for a row that lacks a text field, or holds something else there.
pub open spec fn field_message(key: Seq<char>) -> Seq<char> {
    "expected a text for the key "@ + key
}

fn field_error(key: &str) -> (r: String)
    ensures
        r@ == field_message(key@),
{
    let mut s = String::from_str("expected a text for the key ");
    s.append(key);
    s
}

/// A required text field of a row.
fn text_field(row: &YamlNode, key: &str) -> (r: Result<String, String>)
    ensures
        r is Ok <==> field_text(row@, key@) is Some,
        r matches Ok(s) ==> field_text(row@, key@) == Some(s@),
        r matches Err(e) ==> e@ == field_message(key@),
{
    match get(row, key) {
        Some(YamlNode::Text(s)) => Ok(s.clone()),
        _ => Err(field_error(key)),
    }
}

/// A bound of a row.
fn bound_field(row: &YamlNode, key: &str, required: bool) -> (r: Result<Option<String>, String>)
    ensures
        r is Ok <==> field_bound(row@, key@, required) is Some,
        r matches Ok(b) ==> field_bound(row@, key@, required) == Some(
            crate::rule::text_option(b),
        ),
        r matches Err(e) ==> e@ == field_message(key@),
{
    match get(row, key) {
        Some(YamlNode::Null) => Ok(None),
        Some(YamlNode::Text(s)) => Ok(Some(s.clone())),
        Some(_) => Err(field_error(key)),
        None => {
            if required {
                Err(field_error(key))
            } else {
                Ok(None)
            }
        },
    }
}

/// The textual row that a row node holds.
fn read_row(row: &YamlNode) -> (r: Result<RawRule, String>)
    ensures
        r is Ok <==> row_of(row@) is Some,
        r matches Ok(raw) ==> row_of(row@) == Some(raw@),
{
    let version = text_field(row, "version")?;
    let kind = text_field(row, "kind")?;
    let deprecated_in = bound_field(row, "deprecated-in", true)?;
    let removed_in = bound_field(row, "removed-in", false)?;
    let replacement_api = text_field(row, "replacement-api")?;
    let component = text_field(row, "component")?;
    Ok(RawRule { version, kind, deprecated_in, removed_in, replacement_api, component })
}

pub open spec fn sequence_message() -> Seq<char> {
    "expected a sequence under deprecated-versions"@
}

/// The textual rows of a table document, in order.
fn read_rows(doc: &YamlNode) -> (r: Result<Vec<RawRule>, String>)
    ensures
        r is Ok <==> doc_rows(doc@) is Some,
        r matches Ok(rows) ==> doc_rows(doc@) == Some(rows@.map_values(|x: RawRule| x@)),
{
    let items = match get(doc, "deprecated-versions") {
        Some(YamlNode::Items(items)) => items,
        _ => return Err(String::from_str("expected a sequence under deprecated-versions")),
    };
    let ghost iv = doc_items(doc@).unwrap();
    assert(iv.len() == items@.len());
    let mut rows: Vec<RawRule> = Vec::new();
    let mut i: usize = 0;
    while i < items.len()
        invariant
            i <= items@.len(),
            iv.len() == items@.len(),
            doc_items(doc@) == Some(iv),
            forall|k: int| 0 <= k < items@.len() ==> #[trigger] iv[k] == items@[k]@,
            rows@.len() == i,
            forall|k: int| 0 <= k < i ==> (#[trigger] row_of(iv[k])) == Some(rows@[k]@),
        decreases items@.len() - i,
    {
        match read_row(&items[i]) {
            Ok(raw) => {
                rows.push(raw);
            },
            Err(e) => {
                proof {
                    assert(row_of(iv[i as int]) is None);
                }
                return Err(e);
            },
        }
        i = i + 1;
    }
    proof {
        assert(forall|k: int| 0 <= k < iv.len() ==> (#[trigger] row_of(iv[k])) is Some);
        assert(iv.map_values(|x: YamlNodeView| row_of(x).unwrap()) =~= rows@.map_values(
            |x: RawRule| x@,
        ));
    }
    Ok(rows)
}

impl DeprecationRule {
    /// Reads one row of the table format from a YAML document.
    pub fn from_yaml(data: &[u8]) -> (r: Result<DeprecationRule, String>)
        ensures
            r is Ok <==> doc_rule(data@) is Some,
            r matches Ok(rule) ==> doc_rule(data@) == Some(rule@),
    {
        let doc = match yaml_load(data) {
            Some(doc) => doc,
            None => return Err(String::from_str("the row is not a YAML document")),
        };
        let raw = read_row(&doc)?;
        DeprecationRule::from_raw(&raw)
    }
}

impl DeprecationChecker {
    /// Builds the table from a document of the table format: its rows, in
    /// order, grouped by key. The document must be YAML of that shape and every
    /// bound must parse; otherwise the error says what is wrong, and no table
    /// is built. Rows of other components and rows whose bounds are out of
    /// order are kept as they are.
    pub fn from_yaml(data: &[u8]) -> (r: Result<DeprecationChecker, String>)
        ensures
            r is Ok <==> doc_table(data@) is Some,
            r matches Ok(c) ==> doc_table(data@) == Some(c@),
    {
        let doc = match yaml_load(data) {
            Some(doc) => doc,
            None => return Err(String::from_str("the table is not a YAML document")),
        };
        let rows = read_rows(&doc)?;
        let ghost rv = rows@.map_values(|x: RawRule| x@);
        let r = DeprecationChecker::from_raw_rules(&rows);
        proof {
            assert forall|i: int| 0 <= i < rv.len() implies row_readable(#[trigger] rv[i])
                == crate::rule::raw_readable(rows@[i]) by {}
            assert(doc_rows(doc@) == Some(rv));
            if r is Ok {
                assert forall|i: int| 0 <= i < rv.len() implies row_readable(#[trigger] rv[i]) by {
                    assert(crate::rule::raw_readable(rows@[i]));
                }
                assert(table_of(rv) =~= rows@.map_values(|x: RawRule| raw_view(x)));
            } else {
                let i = choose|i: int| 0 <= i < rows@.len() && !crate::rule::raw_readable(#[trigger] rows@[i]);
                assert(!row_readable(rv[i]));
                assert(!(forall|k: int| 0 <= k < rv.len() ==> row_readable(#[trigger] rv[k])));
            }
            assert(yaml_tree(data@) == Some(doc@));
        }
        r
    }
}

} // verus!
