//! Inline TOML blocks.
//!
//! A `toml = { ... }` argument carries structured data for the template
//! context. The block's body is wrapped into a document with a single
//! top-level key, handed to the `toml` crate's parser, and the table stored
//! under that key is the block's value. The parsed table itself is opaque
//! here; its contents are modelled as a map from each key to the canonical
//! text form of the value stored under it.

use vstd::prelude::*;
use vstd::string::StringExecFns;
use crate::errors::ArgsError;

verus! {

#[verifier::external_type_specification]
#[verifier::external_body]
#[verifier::reject_recursive_types(K)]
#[verifier::reject_recursive_types(V)]
pub struct ExTomlMap<K, V>(toml::map::Map<K, V>);

#[verifier::external_type_specification]
#[verifier::external_body]
pub struct ExTomlValue(toml::Value);

#[verifier::external_type_specification]
#[verifier::external_body]
pub struct ExTomlDeError(toml::de::Error);

/// The contents of a parsed TOML table: the map from each of its keys to the
/// canonical text form of the value stored under that key.
pub uninterp spec fn table_contents(t: toml::Table) -> Map<Seq<char>, Seq<char>>;

/// What parsing a TOML document yields: `None` on invalid documents, and the
/// contents of the resulting table otherwise.
pub uninterp spec fn toml_parse(s: Seq<char>) -> Option<Map<Seq<char>, Seq<char>>>;

/// The table contents behind a value's canonical text form, when the value
/// is itself a table.
pub uninterp spec fn table_value_model(v: Seq<char>) -> Option<Map<Seq<char>, Seq<char>>>;

/// Relies on `<toml::Table as core::str::FromStr>::from_str`: parsing a TOML
/// document is a deterministic function of the source text, and returns
/// `Ok` exactly on valid documents.
#[verifier::external_body]
fn parse_table(s: &str) -> (r: Result<toml::Table, toml::de::Error>)
    ensures
        r matches Ok(t) ==> toml_parse(s@) == Some(table_contents(t)),
        (r is Err) == (toml_parse(s@) is None),
{
    s.parse::<toml::Table>()
}

/// Relies on `toml::map::Map::remove`: it returns the value stored under the
/// key when there is one; the match keeps it only when it is a
/// `toml::Value::Table`.
#[verifier::external_body]
fn extract_table(t: toml::Table, key: &str) -> (r: Option<toml::Table>)
    ensures
        r matches Some(m) ==> table_contents(t).contains_key(key@)
            && table_value_model(table_contents(t)[key@]) == Some(table_contents(m)),
        r is None ==> !table_contents(t).contains_key(key@)
            || table_value_model(table_contents(t)[key@]) is None,
{
    let mut t = t;
    match t.remove(key) {
        Some(toml::Value::Table(m)) => Some(m),
        _ => None,
    }
}

/// The contents of a table that holds nothing.
pub open spec fn sp_empty_contents() -> Map<Seq<char>, Seq<char>> {
    Map::empty()
}

/// Relies on `toml::map::Map::new`: the new map is empty.
#[verifier::external_body]
pub fn new_table() -> (r: toml::Table)
    ensures
        table_contents(r) == sp_empty_contents(),
{
    toml::map::Map::new()
}

/// The document that a block body is wrapped into before parsing.
pub open spec fn sp_wrapped(src: Seq<char>) -> Seq<char> {
    "table = {"@ + src + "}"@
}

/// The contents that a block body stands for: the body is wrapped into a
/// document with the single key `table`, and the table stored under that key
/// is the result; `None` when the wrapped document does not parse or does
/// not hold a table under that key.
pub open spec fn sp_toml_of(src: Seq<char>) -> Option<Map<Seq<char>, Seq<char>>> {
    match toml_parse(sp_wrapped(src)) {
        Option::None => Option::None,
        Option::Some(c) => {
            if c.contains_key("table"@) {
                table_value_model(c["table"@])
            } else {
                Option::None
            }
        },
    }
}

/// Parses the body of an inline data block into a table.
pub fn to_toml_table(input: &str) -> (r: Result<toml::Table, ArgsError>)
    ensures
        r matches Ok(m) ==> sp_toml_of(input@) == Some(table_contents(m)),
        (r is Err) == (sp_toml_of(input@) is None),
        r matches Err(e) ==> e == ArgsError::InvalidToml,
{
    let mut w = String::from_str("table = {");
    w.append(input);
    w.append("}");
    proof {
        assert(w@ =~= sp_wrapped(input@));
    }
    match parse_table(w.as_str()) {
        Err(_) => Err(ArgsError::InvalidToml),
        Ok(t) => {
            match extract_table(t, "table") {
                Some(m) => Ok(m),
                None => Err(ArgsError::InvalidToml),
            }
        },
    }
}

} // verus!
