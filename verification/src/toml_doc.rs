//! Reading and editing the configuration file's TOML text with `toml_edit`,
//! which keeps its comments and layout.
//!
//! Each operation takes the whole text and gives back the new text; what
//! `toml_edit` computes is named by the functions below.

use toml_edit::{value, ArrayOfTables, DocumentMut, Item, Table, Value};
use vstd::prelude::*;

verus! {

/// What a top-level key of a TOML document holds.
#[derive(Debug, Clone, Copy, PartialEq, Eq, Structural)]
pub enum TomlKind {
    /// The key is not there.
    Absent,
    /// A `[table]`.
    Table,
    /// An inline table `{ ... }`.
    InlineTable,
    /// Any other value.
    OtherValue,
    /// An array of tables `[[array]]`.
    ArrayOfTables,
}

/// Whether `text` parses as a `toml_edit::DocumentMut`.
pub uninterp spec fn toml_parses(text: Seq<char>) -> bool;

/// What the top-level `key` of the document holds.
pub uninterp spec fn toml_kind(text: Seq<char>, key: Seq<char>) -> TomlKind;

/// The number of tables in the array of tables at `key`.
pub uninterp spec fn toml_aot_len(text: Seq<char>, key: Seq<char>) -> nat;

/// The string value of `field` in table `i` of the array of tables at `key`,
/// if that field holds a string.
pub uninterp spec fn toml_aot_str(text: Seq<char>, key: Seq<char>, i: nat, field: Seq<char>) -> Option<Seq<char>>;

/// The document after `doc[table][field] = value(v)`, rendered as text.
pub uninterp spec fn toml_table_set(text: Seq<char>, table: Seq<char>, field: Seq<char>, v: Seq<char>) -> Seq<char>;

/// The document after setting `field` to the string `v` in table `i` of the
/// array of tables at `key`, rendered as text.
pub uninterp spec fn toml_aot_set(text: Seq<char>, key: Seq<char>, i: nat, field: Seq<char>, v: Seq<char>) -> Seq<char>;

/// The document after setting `f1` to `v1` and then `f2` to `v2` in table `i`
/// of the array of tables at `key`, rendered as text.
pub uninterp spec fn toml_aot_set2(
    text: Seq<char>,
    key: Seq<char>,
    i: nat,
    f1: Seq<char>,
    v1: Seq<char>,
    f2: Seq<char>,
    v2: Seq<char>,
) -> Seq<char>;

/// The document after removing `field` from table `i` of the array of tables
/// at `key`, rendered as text.
pub uninterp spec fn toml_aot_unset(text: Seq<char>, key: Seq<char>, i: nat, field: Seq<char>) -> Seq<char>;

/// The document after appending a table `{f1 = v1, f2 = v2, f3 = v3}` (string
/// values, in this order) to the array of tables at `key`, rendered as text.
pub uninterp spec fn toml_aot_push3(
    text: Seq<char>,
    key: Seq<char>,
    fields: (Seq<char>, Seq<char>, Seq<char>),
    values: (Seq<char>, Seq<char>, Seq<char>),
) -> Seq<char>;

/// The document after inserting at `key` an array of tables holding the one
/// table `{f1 = v1, f2 = v2, f3 = v3}`, rendered as text.
pub uninterp spec fn toml_insert_aot3(
    text: Seq<char>,
    key: Seq<char>,
    fields: (Seq<char>, Seq<char>, Seq<char>),
    values: (Seq<char>, Seq<char>, Seq<char>),
) -> Seq<char>;

/// The message of the error `toml_edit` reports for text that does not parse
/// (its `Display`).
pub uninterp spec fn toml_error(text: Seq<char>) -> Seq<char>;

/// Calls `str::parse::<toml_edit::DocumentMut>` and renders a parse error.
/// Claimed: the result is `None` exactly when `toml_parses` holds, and an
/// error's text is `toml_error` of the text.
#[verifier::external_body]
pub(crate) fn document_parse_error(text: &str) -> (r: Option<String>)
    ensures
        r is None <==> toml_parses(text@),
        r matches Some(e) ==> e@ == toml_error(text@),
{
    text.parse::<DocumentMut>().err().map(|e| e.to_string())
}

/// Calls `Table::get` on the parsed document and tells the item's variant
/// apart. Claimed: the result is `toml_kind` of the text and key.
#[verifier::external_body]
pub(crate) fn document_kind(text: &str, key: &str) -> (r: TomlKind)
    requires
        toml_parses(text@),
    ensures
        r == toml_kind(text@, key@),
{
    match text.parse::<DocumentMut>() {
        Ok(doc) => match doc.get(key) {
            None | Some(Item::None) => TomlKind::Absent,
            Some(Item::Table(_)) => TomlKind::Table,
            Some(Item::ArrayOfTables(_)) => TomlKind::ArrayOfTables,
            Some(Item::Value(Value::InlineTable(_))) => TomlKind::InlineTable,
            Some(Item::Value(_)) => TomlKind::OtherValue,
        },
        Err(_) => TomlKind::Absent,
    }
}

/// Calls `ArrayOfTables::len` on the array at `key`. Claimed: the result is
/// `toml_aot_len`.
#[verifier::external_body]
pub(crate) fn document_aot_len(text: &str, key: &str) -> (r: usize)
    requires
        toml_parses(text@),
        toml_kind(text@, key@) == TomlKind::ArrayOfTables,
    ensures
        r == toml_aot_len(text@, key@),
{
    match text.parse::<DocumentMut>() {
        Ok(doc) => match doc.get(key) {
            Some(Item::ArrayOfTables(a)) => a.len(),
            _ => 0,
        },
        Err(_) => 0,
    }
}

/// Calls `Table::get` and `Item::as_str` on table `i` of the array at `key`.
/// Claimed: the result is `toml_aot_str`.
#[verifier::external_body]
pub(crate) fn document_aot_str(text: &str, key: &str, i: usize, field: &str) -> (r: Option<String>)
    requires
        toml_parses(text@),
        toml_kind(text@, key@) == TomlKind::ArrayOfTables,
        i < toml_aot_len(text@, key@),
    ensures
        match r {
            Some(s) => toml_aot_str(text@, key@, i as nat, field@) == Some(s@),
            None => toml_aot_str(text@, key@, i as nat, field@) is None,
        },
{
    let doc = text.parse::<DocumentMut>().ok()?;
    let table = doc.get(key)?.as_array_of_tables()?.get(i)?;
    table.get(field)?.as_str().map(|s| s.to_string())
}

/// Performs `doc[table][field] = value(v)` and renders the document.
/// Claimed: the result is `toml_table_set`. The indexing panics when `table`
/// holds a value other than an inline table, or an array of tables; the
/// `requires` leaves those documents out.
#[verifier::external_body]
pub(crate) fn document_table_set(text: &str, table: &str, field: &str, v: &str) -> (r: String)
    requires
        toml_parses(text@),
        toml_kind(text@, table@) == TomlKind::Absent || toml_kind(text@, table@)
            == TomlKind::Table || toml_kind(text@, table@) == TomlKind::InlineTable,
    ensures
        r@ == toml_table_set(text@, table@, field@, v@),
{
    match text.parse::<DocumentMut>() {
        Ok(mut doc) => {
            doc[table][field] = value(v);
            doc.to_string()
        },
        Err(_) => String::new(),
    }
}

/// Sets `field` to the string `v` in table `i` of the array at `key` (through
/// `ArrayOfTables::get_mut` and `Table`'s `IndexMut`) and renders the
/// document. Claimed: the result is `toml_aot_set`.
#[verifier::external_body]
pub(crate) fn document_aot_set(text: &str, key: &str, i: usize, field: &str, v: &str) -> (r: String)
    requires
        toml_parses(text@),
        toml_kind(text@, key@) == TomlKind::ArrayOfTables,
        i < toml_aot_len(text@, key@),
    ensures
        r@ == toml_aot_set(text@, key@, i as nat, field@, v@),
{
    match text.parse::<DocumentMut>() {
        Ok(mut doc) => {
            if let Some(a) = doc[key].as_array_of_tables_mut() {
                if let Some(t) = a.get_mut(i) {
                    t[field] = value(v);
                }
            }
            doc.to_string()
        },
        Err(_) => String::new(),
    }
}

/// Sets `f1` to `v1` and then `f2` to `v2` in table `i` of the array at `key`
/// and renders the document. Claimed: the result is `toml_aot_set2`.
#[verifier::external_body]
pub(crate) fn document_aot_set2(
    text: &str,
    key: &str,
    i: usize,
    f1: &str,
    v1: &str,
    f2: &str,
    v2: &str,
) -> (r: String)
    requires
        toml_parses(text@),
        toml_kind(text@, key@) == TomlKind::ArrayOfTables,
        i < toml_aot_len(text@, key@),
    ensures
        r@ == toml_aot_set2(text@, key@, i as nat, f1@, v1@, f2@, v2@),
{
    match text.parse::<DocumentMut>() {
        Ok(mut doc) => {
            if let Some(a) = doc[key].as_array_of_tables_mut() {
                if let Some(t) = a.get_mut(i) {
                    t[f1] = value(v1);
                    t[f2] = value(v2);
                }
            }
            doc.to_string()
        },
        Err(_) => String::new(),
    }
}

/// Calls `Table::remove(field)` on table `i` of the array at `key` and
/// renders the document. Claimed: the result is `toml_aot_unset`.
#[verifier::external_body]
pub(crate) fn document_aot_unset(text: &str, key: &str, i: usize, field: &str) -> (r: String)
    requires
        toml_parses(text@),
        toml_kind(text@, key@) == TomlKind::ArrayOfTables,
        i < toml_aot_len(text@, key@),
    ensures
        r@ == toml_aot_unset(text@, key@, i as nat, field@),
{
    match text.parse::<DocumentMut>() {
        Ok(mut doc) => {
            if let Some(a) = doc[key].as_array_of_tables_mut() {
                if let Some(t) = a.get_mut(i) {
                    t.remove(field);
                }
            }
            doc.to_string()
        },
        Err(_) => String::new(),
    }
}

/// Builds a `Table` with the three string fields, calls `ArrayOfTables::push`
/// on the array at `key` and renders the document. Claimed: the result is
/// `toml_aot_push3`.
#[verifier::external_body]
pub(crate) fn document_aot_push3(
    text: &str,
    key: &str,
    fields: (&str, &str, &str),
    values: (&str, &str, &str),
) -> (r: String)
    requires
        toml_parses(text@),
        toml_kind(text@, key@) == TomlKind::ArrayOfTables,
    ensures
        r@ == toml_aot_push3(
            text@,
            key@,
            (fields.0@, fields.1@, fields.2@),
            (values.0@, values.1@, values.2@),
        ),
{
    match text.parse::<DocumentMut>() {
        Ok(mut doc) => {
            let mut t = Table::new();
            t[fields.0] = value(values.0);
            t[fields.1] = value(values.1);
            t[fields.2] = value(values.2);
            if let Some(a) = doc[key].as_array_of_tables_mut() {
                a.push(t);
            }
            doc.to_string()
        },
        Err(_) => String::new(),
    }
}

/// Builds an `ArrayOfTables` holding one table with the three string fields,
/// calls `DocumentMut::insert` at `key` and renders the document. Claimed:
/// the result is `toml_insert_aot3`.
#[verifier::external_body]
pub(crate) fn document_insert_aot3(
    text: &str,
    key: &str,
    fields: (&str, &str, &str),
    values: (&str, &str, &str),
) -> (r: String)
    requires
        toml_parses(text@),
        toml_kind(text@, key@) == TomlKind::Absent,
    ensures
        r@ == toml_insert_aot3(
            text@,
            key@,
            (fields.0@, fields.1@, fields.2@),
            (values.0@, values.1@, values.2@),
        ),
{
    match text.parse::<DocumentMut>() {
        Ok(mut doc) => {
            let mut t = Table::new();
            t[fields.0] = value(values.0);
            t[fields.1] = value(values.1);
            t[fields.2] = value(values.2);
            let mut aot = ArrayOfTables::new();
            aot.push(t);
            doc.insert(key, Item::ArrayOfTables(aot));
            doc.to_string()
        },
        Err(_) => String::new(),
    }
}

} // verus!
