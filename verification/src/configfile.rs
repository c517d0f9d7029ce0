//! The user layer of the config file as text: reading its root table from
//! the file's contents, and rendering a root table back to TOML text.
//!
//! Parsing and printing are the `toml` crate's; the library decides what a
//! parse outcome means for the root table.

use vstd::prelude::*;
use crate::configmerge::{
    ConfigTable, ConfigValue, RootRead, RootReadError, user_root_from_read, wf_entries, wf_value,
};

verus! {

#[verifier::external_type_specification]
#[verifier::external_body]
pub struct ExTomlValue(toml::Value);

/// Whether `toml::from_str::<toml::Value>` accepts `text` as a document.
pub uninterp spec fn toml_parses(text: Seq<char>) -> bool;

/// The document `toml::from_str::<toml::Value>` reads from `text`, as a
/// configuration value.
pub uninterp spec fn toml_document(text: Seq<char>) -> ConfigValue<toml::Value>;

/// What `toml::to_string_pretty` gives for `root` as a TOML table: the
/// text it prints, or `None` when it refuses the table.
pub uninterp spec fn toml_rendering(root: ConfigTable<toml::Value>) -> Option<Seq<char>>;

/// Converts a TOML value into the configuration model, one for one: a table
/// entry by entry in the map's own order, a boolean as a boolean, any other
/// value carried as it is. Part of the conversion of [`parse_toml`]; nothing
/// is stated of it on its own.
#[verifier::external_body]
fn config_value_of(v: toml::Value) -> ConfigValue<toml::Value> {
    match v {
        toml::Value::Table(t) => ConfigValue::Table(
            ConfigTable { entries: t.into_iter().map(|(k, x)| (k, config_value_of(x))).collect() },
        ),
        toml::Value::Boolean(b) => ConfigValue::Boolean(b),
        other => ConfigValue::Other(other),
    }
}

/// Converts a configuration table back into a TOML table, one for one.
/// Part of the conversion of [`render_toml`]; nothing is stated of it on its
/// own.
#[verifier::external_body]
fn toml_table_of(t: &ConfigTable<toml::Value>) -> toml::Value {
    let mut map = toml::map::Map::new();
    for (k, v) in t.entries.iter() {
        let tv = match v {
            ConfigValue::Table(inner) => toml_table_of(inner),
            ConfigValue::Boolean(b) => toml::Value::Boolean(*b),
            ConfigValue::Other(o) => o.clone(),
        };
        map.insert(k.clone(), tv);
    }
    toml::Value::Table(map)
}

/// Calls `toml::from_str::<toml::Value>` on `text` and converts the value.
/// Claims: it succeeds exactly when the crate accepts the text, and then the
/// value is a function of the text alone whose tables, at every depth, have
/// unique keys (they come from `toml::map::Map`, a map). The parse error is
/// passed on as its message.
#[verifier::external_body]
fn parse_toml(text: &str) -> (r: Result<ConfigValue<toml::Value>, String>)
    ensures
        r is Ok <==> toml_parses(text@),
        r matches Ok(v) ==> v == toml_document(text@) && wf_value(v),
{
    match toml::from_str::<toml::Value>(text) {
        Ok(v) => Ok(config_value_of(v)),
        Err(e) => Err(e.to_string()),
    }
}

/// Calls `toml::to_string_pretty` on `root` as a TOML table. Claims: both
/// whether it succeeds and the text it prints are functions of the root
/// alone; which tables it refuses is left unsaid. Its error is passed on as
/// its message.
#[verifier::external_body]
fn render_toml(root: &ConfigTable<toml::Value>) -> (r: Result<String, String>)
    ensures
        match toml_rendering(*root) {
            Some(text) => r matches Ok(s) && s@ == text,
            None => r is Err,
        },
{
    toml::to_string_pretty(&toml_table_of(root)).map_err(|e| e.to_string())
}

/// The root table of the user layer read from the file's text: the parsed
/// document when it is a table, an empty table when it is not, and a refusal
/// (carrying the parser's message) when the text is not TOML, so that an
/// unparseable file is never overwritten.
pub fn user_root_from_text(text: &str) -> (r: Result<ConfigTable<toml::Value>, RootReadError>)
    ensures
        toml_parses(text@) ==> match toml_document(text@) {
            ConfigValue::Table(t) => r matches Ok(root) && root == t,
            _ => r matches Ok(root) && root.entries@.len() == 0,
        },
        !toml_parses(text@) <==> r matches Err(RootReadError::Unparseable(_)),
        r is Ok || r matches Err(RootReadError::Unparseable(_)),
        r matches Ok(root) ==> wf_entries(root.entries@),
{
    match parse_toml(text) {
        Ok(v) => user_root_from_read(RootRead::Parsed(v)),
        Err(m) => Err(RootReadError::Unparseable(m)),
    }
}

/// The TOML text of the user layer's root table.
pub fn render_user_root(root: &ConfigTable<toml::Value>) -> (r: Result<String, String>)
    ensures
        match toml_rendering(*root) {
            Some(text) => r matches Ok(s) && s@ == text,
            None => r is Err,
        },
{
    render_toml(root)
}

} // verus!
