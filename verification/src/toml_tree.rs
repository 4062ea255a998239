//! TOML documents as trees of plain values, and the calls into the `toml` and
//! `toml_edit` crates that read and write them.
//!
//! The crate's own logic works on [`TomlValue`]. Parsing text is done by
//! `toml`, writing it by `toml_edit`; both are believed, not proved.

use vstd::prelude::*;
use vstd::string::*;
use crate::ordered_map::names_of;

verus! {

/// A TOML value. A float and a date-time are held as the text that stands
/// for them.
#[derive(Debug)]
pub enum TomlValue {
    Str(String),
    Integer(i64),
    Boolean(bool),
    Float(String),
    Datetime(String),
    Array(Vec<TomlValue>),
    /// A table: its keys with their values, in the table's order.
    Table(Vec<(String, TomlValue)>),
}

/// The mathematical value of a [`TomlValue`].
pub enum TomlTree {
    Str(Seq<char>),
    Integer(i64),
    Boolean(bool),
    Float(Seq<char>),
    Datetime(Seq<char>),
    Array(Seq<TomlTree>),
    Table(Seq<(Seq<char>, TomlTree)>),
}

/// The mathematical value of `value`.
pub open spec fn tree_of(value: TomlValue) -> TomlTree
    decreases value,
{
    match value {
        TomlValue::Str(s) => TomlTree::Str(s@),
        TomlValue::Integer(n) => TomlTree::Integer(n),
        TomlValue::Boolean(b) => TomlTree::Boolean(b),
        TomlValue::Float(s) => TomlTree::Float(s@),
        TomlValue::Datetime(s) => TomlTree::Datetime(s@),
        TomlValue::Array(items) => TomlTree::Array(
            Seq::new(
                items@.len(),
                |i: int|
                    if 0 <= i < items@.len() {
                        tree_of(items@[i])
                    } else {
                        TomlTree::Boolean(false)
                    },
            ),
        ),
        TomlValue::Table(entries) => TomlTree::Table(
            Seq::new(
                entries@.len(),
                |i: int|
                    if 0 <= i < entries@.len() {
                        (entries@[i].0@, tree_of(entries@[i].1))
                    } else {
                        (Seq::empty(), TomlTree::Boolean(false))
                    },
            ),
        ),
    }
}

impl View for TomlValue {
    type V = TomlTree;

    open spec fn view(&self) -> TomlTree {
        tree_of(*self)
    }
}

/// The views of the entries of a table.
pub open spec fn entries_view(entries: Seq<(String, TomlValue)>) -> Seq<(Seq<char>, TomlTree)> {
    Seq::new(entries.len(), |i: int| (entries[i].0@, entries[i].1@))
}

/// The views of the items of an array.
pub open spec fn items_view(items: Seq<TomlValue>) -> Seq<TomlTree> {
    Seq::new(items.len(), |i: int| items[i]@)
}

/// The view of an array is the views of its items.
pub proof fn lemma_array_view(items: Vec<TomlValue>)
    ensures
        TomlValue::Array(items)@ == TomlTree::Array(items_view(items@)),
{
    let v = TomlValue::Array(items);
    assert(v@ is Array);
    assert(v@->Array_0.len() == items@.len());
    assert forall|i: int| 0 <= i < items@.len() implies v@->Array_0[i] == items_view(items@)[i] by {}
    assert(v@->Array_0 =~= items_view(items@));
}

/// The view of a table is the views of its entries.
pub proof fn lemma_table_view(entries: Vec<(String, TomlValue)>)
    ensures
        TomlValue::Table(entries)@ == TomlTree::Table(entries_view(entries@)),
{
    let v = TomlValue::Table(entries);
    assert(v@ is Table);
    assert(v@->Table_0.len() == entries@.len());
    assert forall|i: int| 0 <= i < entries@.len() implies v@->Table_0[i] == entries_view(
        entries@,
    )[i] by {}
    assert(v@->Table_0 =~= entries_view(entries@));
}

/// `toml::Value`, as the parser hands it out.
#[verifier::external_type_specification]
#[verifier::external_body]
pub struct ExTomlValue(toml::Value);

/// `toml_edit::Value`, as the writer takes it.
#[verifier::external_type_specification]
#[verifier::external_body]
pub struct ExTomlEditValue(toml_edit::Value);

/// What the text `text` says as a TOML document: the document's root table,
/// or the parser's message where `text` is not TOML.
pub uninterp spec fn toml_document(text: Seq<char>) -> Result<TomlTree, Seq<char>>;

/// What a value of the `toml` crate holds.
pub uninterp spec fn toml_tree_of(value: toml::Value) -> TomlTree;

/// What a value of the `toml_edit` crate holds.
pub uninterp spec fn edit_tree_of(value: toml_edit::Value) -> TomlTree;

/// The text of the document that has the tables `sections`, each under its
/// name and with its entries, in order.
pub uninterp spec fn toml_text(sections: Seq<(Seq<char>, Seq<(Seq<char>, TomlTree)>)>) -> Seq<
    char,
>;

/// `toml::from_str` at the type `toml::Value`: the document that `text`
/// holds, or the text of the parser's error. The outcome depends on `text`
/// alone.
#[verifier::external_body]
pub(crate) fn toml_from_str(text: &str) -> (r: Result<toml::Value, String>)
    ensures
        match r {
            Ok(value) => toml_document(text@) == Ok::<TomlTree, Seq<char>>(toml_tree_of(value)),
            Err(message) => toml_document(text@) == Err::<TomlTree, Seq<char>>(message@),
        },
{
    match toml::from_str::<toml::Value>(text) {
        Ok(value) => Ok(value),
        Err(e) => Err(e.to_string()),
    }
}

/// Copies a `toml::Value` into a [`TomlValue`], variant by variant; a
/// float and a date-time become their text.
#[verifier::external_body]
pub(crate) fn toml_to_tree(value: &toml::Value) -> (tree: TomlValue)
    ensures
        tree@ == toml_tree_of(*value),
{
    match value {
        toml::Value::String(s) => TomlValue::Str(s.clone()),
        toml::Value::Integer(n) => TomlValue::Integer(*n),
        toml::Value::Boolean(b) => TomlValue::Boolean(*b),
        toml::Value::Float(x) => TomlValue::Float(x.to_string()),
        toml::Value::Datetime(d) => TomlValue::Datetime(d.to_string()),
        toml::Value::Array(items) => TomlValue::Array(items.iter().map(toml_to_tree).collect()),
        toml::Value::Table(t) => TomlValue::Table(
            t.iter().map(|(k, v)| (k.clone(), toml_to_tree(v))).collect(),
        ),
    }
}

/// Whether a tree holds strings, integers, truth values, arrays and tables
/// only.
pub open spec fn writable(tree: TomlTree) -> bool
    decreases tree,
{
    match tree {
        TomlTree::Str(_) => true,
        TomlTree::Integer(_) => true,
        TomlTree::Boolean(_) => true,
        TomlTree::Float(_) => false,
        TomlTree::Datetime(_) => false,
        TomlTree::Array(items) => forall|i: int| 0 <= i < items.len() ==> writable(#[trigger] items[i]),
        TomlTree::Table(entries) => forall|i: int|
            0 <= i < entries.len() ==> writable((#[trigger] entries[i]).1),
    }
}

/// Whether no table of a tree has a key twice.
pub open spec fn distinct_keys(tree: TomlTree) -> bool
    decreases tree,
{
    match tree {
        TomlTree::Array(items) => forall|i: int|
            0 <= i < items.len() ==> distinct_keys(#[trigger] items[i]),
        TomlTree::Table(entries) => names_of(entries).no_duplicates() && forall|i: int|
            0 <= i < entries.len() ==> distinct_keys((#[trigger] entries[i]).1),
        _ => true,
    }
}

/// Copies a [`TomlValue`] into a `toml_edit::Value`, variant by variant: an
/// array becomes an array (`Array::from_iter`), a table an inline table
/// (`InlineTable::from_iter`). A tree that holds a float or a date-time has
/// no counterpart. An inline table keeps one value for each key, so the
/// copy holds what the tree holds where no table has a key twice.
#[verifier::external_body]
pub(crate) fn to_edit_value(tree: &TomlValue) -> (r: Option<toml_edit::Value>)
    ensures
        match r {
            Some(value) => writable(tree@) && (distinct_keys(tree@) ==> edit_tree_of(value)
                == tree@),
            None => !writable(tree@),
        },
{
    match tree {
        TomlValue::Str(s) => Some(toml_edit::Value::from(s.as_str())),
        TomlValue::Integer(n) => Some(toml_edit::Value::from(*n)),
        TomlValue::Boolean(b) => Some(toml_edit::Value::from(*b)),
        TomlValue::Float(_) | TomlValue::Datetime(_) => None,
        TomlValue::Array(items) => items.iter().map(to_edit_value).collect::<Option<
            toml_edit::Array,
        >>().map(toml_edit::Value::Array),
        TomlValue::Table(entries) => entries.iter().map(
            |(k, v)| to_edit_value(v).map(|x| (k.as_str(), x)),
        ).collect::<Option<toml_edit::InlineTable>>().map(toml_edit::Value::InlineTable),
    }
}

/// The names and trees of the entries `entries`.
pub open spec fn edit_entries_view(entries: Seq<(String, toml_edit::Value)>) -> Seq<
    (Seq<char>, TomlTree),
> {
    Seq::new(entries.len(), |i: int| (entries[i].0@, edit_tree_of(entries[i].1)))
}

/// The names and entries of the tables `sections`.
pub open spec fn edit_sections_view(
    sections: Seq<(String, Vec<(String, toml_edit::Value)>)>,
) -> Seq<(Seq<char>, Seq<(Seq<char>, TomlTree)>)> {
    Seq::new(sections.len(), |i: int| (sections[i].0@, edit_entries_view(sections[i].1@)))
}

/// Builds a `toml_edit::DocumentMut` that holds one `toml_edit::Table` for
/// each of `sections`, filled with `Table::insert` and put into the document
/// with `Table::insert`, and writes the document out with its `to_string`.
#[verifier::external_body]
pub(crate) fn render_document(sections: &Vec<(String, Vec<(String, toml_edit::Value)>)>) -> (text:
    String)
    ensures
        text@ == toml_text(edit_sections_view(sections@)),
{
    let mut doc = toml_edit::DocumentMut::new();
    for (name, entries) in sections {
        let mut table = toml_edit::Table::new();
        for (key, value) in entries {
            table.insert(key, toml_edit::Item::Value(value.clone()));
        }
        doc.insert(name, toml_edit::Item::Table(table));
    }
    doc.to_string()
}

} // verus!
