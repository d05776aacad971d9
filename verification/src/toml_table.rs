//! The settings file's TOML layer, backed by the `toml` crate.
//!
//! The library reads and writes settings as a flat TOML table of integers,
//! booleans and strings. Parsing and printing TOML is the `toml` crate's work;
//! these items call it and state what the library relies on. A table's contents
//! are seen as a map from key to [`TomlEntry`], in which every value that is not
//! an integer, boolean or string (floats, datetimes, arrays, nested tables) is
//! [`TomlEntry::Other`].

use vstd::prelude::*;

verus! {

#[verifier::external_type_specification]
#[verifier::external_body]
#[verifier::reject_recursive_types(K)]
#[verifier::reject_recursive_types(V)]
pub struct ExTomlMap<K, V>(toml::map::Map<K, V>);

#[verifier::external_type_specification]
#[verifier::external_body]
pub struct ExTomlValue(toml::Value);

/// One value of a TOML table, as far as the settings care.
pub enum TomlEntry {
    Integer(i64),
    Boolean(bool),
    Text(Seq<char>),
    /// A float, datetime, array or nested table.
    Other,
}

/// A value the library writes into a table.
#[derive(Debug)]
pub enum TomlScalar {
    Integer(i64),
    Boolean(bool),
    Text(String),
}

impl TomlScalar {
    pub open spec fn entry(self) -> TomlEntry {
        match self {
            TomlScalar::Integer(i) => TomlEntry::Integer(i),
            TomlScalar::Boolean(b) => TomlEntry::Boolean(b),
            TomlScalar::Text(s) => TomlEntry::Text(s@),
        }
    }
}

/// What a table holds under one key.
#[derive(Debug)]
pub enum TomlField {
    Absent,
    Integer(i64),
    Boolean(bool),
    Text(String),
    /// A float, datetime, array or nested table.
    Other,
}

impl TomlField {
    /// This field is what `entry` (the table's value under the key, if any) shows.
    pub open spec fn shows(self, entry: Option<TomlEntry>) -> bool {
        match (self, entry) {
            (TomlField::Absent, None) => true,
            (TomlField::Integer(i), Some(TomlEntry::Integer(j))) => i == j,
            (TomlField::Boolean(b), Some(TomlEntry::Boolean(c))) => b == c,
            (TomlField::Text(s), Some(TomlEntry::Text(t))) => s@ == t,
            (TomlField::Other, Some(TomlEntry::Other)) => true,
            _ => false,
        }
    }
}

/// The value under `key`, if the entries hold one.
pub open spec fn entry_at(entries: Map<Seq<char>, TomlEntry>, key: Seq<char>) -> Option<TomlEntry> {
    if entries.contains_key(key) {
        Some(entries[key])
    } else {
        None
    }
}

/// The contents of an empty table.
pub open spec fn no_entries() -> Map<Seq<char>, TomlEntry> {
    Map::empty()
}

/// Every value is an integer, boolean or string.
pub open spec fn all_scalar(entries: Map<Seq<char>, TomlEntry>) -> bool {
    forall|k: Seq<char>| #[trigger] entries.contains_key(k) ==> !(entries[k] is Other)
}

/// The contents of a TOML table: its top-level keys and their values.
pub uninterp spec fn table_entries(t: toml::Table) -> Map<Seq<char>, TomlEntry>;

/// The top-level keys of a table in the order they were first inserted (the
/// `preserve_order` feature keeps the map's insertion order).
pub uninterp spec fn table_keys(t: toml::Table) -> Seq<Seq<char>>;

/// A table's entries in its key order.
pub open spec fn ordered_entries(t: toml::Table) -> Seq<(Seq<char>, TomlEntry)> {
    table_keys(t).map_values(|k: Seq<char>| (k, table_entries(t)[k]))
}

/// The text `toml::to_string` writes for a table of integers, booleans and strings
/// that holds these keys, with these values, in this order.
pub uninterp spec fn toml_text(entries: Seq<(Seq<char>, TomlEntry)>) -> Seq<char>;

/// No keys yet.
pub open spec fn no_keys() -> Seq<Seq<char>> {
    Seq::empty()
}

/// The top-level table a TOML document parses to, or `None` when the text is not
/// valid TOML (a syntax error, a duplicate key, ...).
pub uninterp spec fn toml_document(text: Seq<char>) -> Option<Map<Seq<char>, TomlEntry>>;

/// Parse a TOML document with `toml::from_str::<toml::Table>`. `None` when the
/// `toml` crate reports an error. The result's entries are what the document
/// holds; both are named, not spelled out.
#[verifier::external_body]
pub(crate) fn parse_table(text: &str) -> (r: Option<toml::Table>)
    ensures
        match r {
            Some(t) => toml_document(text@) == Some(table_entries(t)),
            None => toml_document(text@) is None,
        },
{
    toml::from_str::<toml::Table>(text).ok()
}

/// An empty table, from `toml::map::Map::new`.
#[verifier::external_body]
pub(crate) fn new_table() -> (t: toml::Table)
    ensures
        table_entries(t) == no_entries(),
        table_keys(t) == no_keys(),
{
    toml::map::Map::new()
}

/// Set `key` to `value` with `toml::map::Map::insert`, replacing any earlier value.
/// A new key goes after the others; a key already there keeps its place.
#[verifier::external_body]
pub(crate) fn table_insert(t: &mut toml::Table, key: &str, value: TomlScalar)
    ensures
        table_entries(*final(t)) == table_entries(*old(t)).insert(key@, value.entry()),
        table_keys(*final(t)) == (if table_entries(*old(t)).contains_key(key@) {
            table_keys(*old(t))
        } else {
            table_keys(*old(t)).push(key@)
        }),
{
    let v = match value {
        TomlScalar::Integer(i) => toml::Value::Integer(i),
        TomlScalar::Boolean(b) => toml::Value::Boolean(b),
        TomlScalar::Text(s) => toml::Value::String(s),
    };
    t.insert(key.to_string(), v);
}

/// The value under `key`, from `toml::map::Map::get`, told apart by
/// `toml::Value`'s variant.
#[verifier::external_body]
pub(crate) fn table_get(t: &toml::Table, key: &str) -> (r: TomlField)
    ensures
        r.shows(entry_at(table_entries(*t), key@)),
{
    match t.get(key).cloned() {
        None => TomlField::Absent,
        Some(toml::Value::Integer(i)) => TomlField::Integer(i),
        Some(toml::Value::Boolean(b)) => TomlField::Boolean(b),
        Some(toml::Value::String(s)) => TomlField::Text(s),
        Some(toml::Value::Float(_)) => TomlField::Other,
        Some(toml::Value::Datetime(_)) => TomlField::Other,
        Some(toml::Value::Array(_)) => TomlField::Other,
        Some(toml::Value::Table(_)) => TomlField::Other,
    }
}

/// Print a table of integers, booleans and strings as a TOML document with
/// `toml::to_string`: the text written for its entries in key order, which parses
/// back to the same entries. How a key or a string is quoted is the writer's, and
/// is named rather than spelled out.
#[verifier::external_body]
pub(crate) fn table_to_string(t: &toml::Table) -> (s: String)
    requires
        all_scalar(table_entries(*t)),
    ensures
        toml_document(s@) == Some(table_entries(*t)),
        s@ == toml_text(ordered_entries(*t)),
{
    toml::to_string(t).unwrap_or_default()
}

} // verus!
