//! A generic document tree for TOML manifests and its typed accessors.
use vstd::prelude::*;
use vstd::string::*;
use crate::errors::MaggError;

verus! {

/// A value of a parsed TOML document.
#[derive(Debug)]
pub enum TomlNode {
    Str(String),
    Int(i64),
    Bool(bool),
    Array(Vec<TomlNode>),
    Table(Vec<TomlEntry>),
    /// A floating-point number or a date-time: read by none of the rules here.
    Other,
}

/// One `key = value` pair of a table, in the order the parser hands them out.
#[derive(Debug)]
pub struct TomlEntry {
    pub key: String,
    pub value: TomlNode,
}

/// The value under the first entry named `key`.
pub open spec fn lookup(entries: Seq<TomlEntry>, key: Seq<char>) -> Option<TomlNode>
    decreases entries.len(),
{
    if entries.len() == 0 {
        None
    } else if entries[0].key@ == key {
        Some(entries[0].value)
    } else {
        lookup(entries.drop_first(), key)
    }
}

/// A parse result with its diagnostic as characters.
pub open spec fn parse_view(r: Result<TomlNode, String>) -> Result<TomlNode, Seq<char>> {
    match r {
        Ok(n) => Ok(n),
        Err(e) => Err(e@),
    }
}

/// The parsed document of a TOML text, or the parser's diagnostic.
pub uninterp spec fn toml_parse_of(text: Seq<char>) -> Result<TomlNode, Seq<char>>;

impl TomlNode {
    /// The value of `key` when this node is a table holding it.
    pub open spec fn field(self, key: Seq<char>) -> Option<TomlNode> {
        match self {
            TomlNode::Table(entries) => lookup(entries@, key),
            _ => None,
        }
    }

    pub open spec fn has_field(self, key: Seq<char>) -> bool {
        self.field(key) is Some
    }

    /// Looks up `key` in a table; `None` for a missing key or a node that is no table.
    pub fn get(&self, key: &str) -> (r: Option<&TomlNode>)
        ensures
            r matches Some(n) ==> self.field(key@) == Some(*n),
            r is None ==> self.field(key@) is None,
    {
        match self {
            TomlNode::Table(entries) => table_get(entries, key),
            _ => None,
        }
    }

    pub fn as_str(&self) -> (r: Option<&str>)
        ensures
            r matches Some(s) ==> self matches TomlNode::Str(t) && s@ == t@,
            r is None ==> !(self is Str),
    {
        match self {
            TomlNode::Str(s) => Some(s.as_str()),
            _ => None,
        }
    }

    pub fn as_bool(&self) -> (r: Option<bool>)
        ensures
            r matches Some(b) ==> self == TomlNode::Bool(b),
            r is None ==> !(self is Bool),
    {
        match self {
            TomlNode::Bool(b) => Some(*b),
            _ => None,
        }
    }

    pub fn as_table(&self) -> (r: Option<&Vec<TomlEntry>>)
        ensures
            r matches Some(es) ==> self == TomlNode::Table(*es),
            r is None ==> !(self is Table),
    {
        match self {
            TomlNode::Table(entries) => Some(entries),
            _ => None,
        }
    }
}

/// Looks up `key` among the entries of a table.
pub fn table_get<'a>(entries: &'a Vec<TomlEntry>, key: &str) -> (r: Option<&'a TomlNode>)
    ensures
        r matches Some(n) ==> lookup(entries@, key@) == Some(*n),
        r is None ==> lookup(entries@, key@) is None,
{
    let k = String::from_str(key);
    let mut i: usize = 0;
    assert(entries@.subrange(0, entries@.len() as int) =~= entries@);
    while i < entries.len()
        invariant
            i <= entries@.len(),
            k@ == key@,
            lookup(entries@, key@) == lookup(entries@.subrange(i as int, entries@.len() as int), key@),
        decreases entries@.len() - i,
    {
        let ghost rest = entries@.subrange(i as int, entries@.len() as int);
        assert(rest.drop_first() =~= entries@.subrange(i + 1, entries@.len() as int));
        if entries[i].key == k {
            return Some(&entries[i].value);
        }
        i = i + 1;
    }
    None
}

#[verifier::external_type_specification]
#[verifier::external_body]
pub struct ExTomlValue(toml::Value);

/// Relies on the variants of toml::Value: carries a parsed value over into
/// the library's tree, one node for one value and tables in their map order.
#[verifier::external_body]
fn node_from_value(v: &toml::Value) -> TomlNode {
    match v {
        toml::Value::String(s) => TomlNode::Str(s.clone()),
        toml::Value::Integer(i) => TomlNode::Int(*i),
        toml::Value::Boolean(b) => TomlNode::Bool(*b),
        toml::Value::Array(a) => TomlNode::Array(a.iter().map(node_from_value).collect()),
        toml::Value::Table(t) => TomlNode::Table(
            t.iter().map(|(k, x)| TomlEntry { key: k.clone(), value: node_from_value(x) }).collect(),
        ),
        _ => TomlNode::Other,
    }
}

/// Relies on toml::from_str: the parsed document of `text`, or the parser's
/// diagnostic (with line and column) when `text` is no valid TOML.
#[verifier::external_body]
fn parse_toml_text(text: &str) -> (r: Result<TomlNode, String>)
    ensures
        parse_view(r) == toml_parse_of(text@),
{
    match toml::from_str::<toml::Value>(text) {
        Ok(v) => Ok(node_from_value(&v)),
        Err(e) => Err(e.to_string()),
    }
}

/// Parses the text of a manifest; the error carries the parser's diagnostic.
pub fn parse_toml(text: &str) -> (r: Result<TomlNode, MaggError>)
    ensures
        r matches Ok(n) ==> toml_parse_of(text@) == Ok::<TomlNode, Seq<char>>(n),
        r matches Err(e) ==> toml_parse_of(text@) == Err::<TomlNode, Seq<char>>(e@),
{
    match parse_toml_text(text) {
        Ok(n) => Ok(n),
        Err(e) => Err(MaggError::from_message(e)),
    }
}

} // verus!
