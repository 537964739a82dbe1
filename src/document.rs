use vstd::prelude::*;

use crate::coerce::{representable, scalar_text, scalar_text_spec, FieldValue};
use crate::env_map::EnvMap;
use crate::nesting::{measure_nesting, nesting};
use toml::value::{Table, Value};
use vstd::string::StringSliceAdditionalSpecFns;

verus! {

/// Why a file contributes nothing to the environment.
pub enum LoadError {
    /// The file could not be read; the reason given by the system.
    Unreadable(String),
    /// The text is not TOML; the parser's diagnostic.
    InvalidToml(String),
    /// The document is not a table of fields; the reason.
    UnexpectedFormat(String),
    /// A field holds an array or a table: its name and its debug rendering.
    Unconvertible { key: String, value: String },
    /// The text is nested deeper than a document may be.
    TooNested,
}

impl LoadError {
    /// The description of the failure.
    pub open spec fn message_spec(&self) -> Seq<char> {
        match self {
            LoadError::Unreadable(d) => "Could not read contents: "@ + d@,
            LoadError::InvalidToml(d) => "Invalid TOML: "@ + d@,
            LoadError::UnexpectedFormat(d) => "Unexpected format: "@ + d@,
            LoadError::Unconvertible { key, value } => "value for "@ + key@ + " ("@ + value@
                + ") can't be converted into a string"@,
            LoadError::TooNested => "Nested too deeply to parse safely"@,
        }
    }

    /// The description of the failure, as shown in a warning.
    pub fn message(&self) -> (r: String)
        ensures
            r@ == self.message_spec(),
    {
        match self {
            LoadError::Unreadable(d) => {
                let mut s = "Could not read contents: ".to_owned();
                s.append(d.as_str());
                s
            },
            LoadError::InvalidToml(d) => {
                let mut s = "Invalid TOML: ".to_owned();
                s.append(d.as_str());
                s
            },
            LoadError::UnexpectedFormat(d) => {
                let mut s = "Unexpected format: ".to_owned();
                s.append(d.as_str());
                s
            },
            LoadError::Unconvertible { key, value } => {
                let mut s = "value for ".to_owned();
                s.append(key.as_str());
                s.append(" (");
                s.append(value.as_str());
                s.append(") can't be converted into a string");
                s
            },
            LoadError::TooNested => "Nested too deeply to parse safely".to_owned(),
        }
    }
}

/// The environment that a list of fields gives when every field is a
/// scalar: each field in order, a later field over an earlier one.
pub open spec fn fields_env(fields: Seq<(String, FieldValue)>) -> Map<Seq<char>, Seq<char>>
    decreases fields.len(),
{
    if fields.len() == 0 {
        Map::empty()
    } else {
        let prev = fields_env(fields.drop_last());
        match scalar_text_spec(fields.last().1) {
            Some(s) => prev.insert(fields.last().0@, s),
            None => prev,
        }
    }
}

/// Every field is a scalar.
pub open spec fn all_representable(fields: Seq<(String, FieldValue)>) -> bool {
    forall|i: int| 0 <= i < fields.len() ==> representable(#[trigger] fields[i].1)
}

/// `i` is the first field that is not a scalar.
pub open spec fn first_refused(fields: Seq<(String, FieldValue)>, i: int) -> bool {
    &&& 0 <= i < fields.len()
    &&& !representable(fields[i].1)
    &&& forall|j: int| 0 <= j < i ==> representable(#[trigger] fields[j].1)
}

/// The error for a field that is not a scalar: its name and its rendering.
pub open spec fn refusal_of(field: (String, FieldValue), e: LoadError) -> bool {
    match (field.1, e) {
        (FieldValue::Composite(d), LoadError::Unconvertible { key, value }) => key@ == field.0@
            && value@ == d@,
        _ => false,
    }
}

/// Turns the fields of one document into an environment, all or nothing:
/// the first field that is not a scalar rejects the whole document.
pub fn table_into_env_map(fields: &Vec<(String, FieldValue)>) -> (r: Result<EnvMap, LoadError>)
    ensures
        match r {
            Ok(m) => m.wf() && all_representable(fields@) && m@ == fields_env(fields@),
            Err(e) => exists|i: int| first_refused(fields@, i) && refusal_of(#[trigger] fields@[i], e),
        },
        r is Ok <==> all_representable(fields@),
{
    let mut map = EnvMap::new();
    let n = fields.len();
    let mut i: usize = 0;
    while i < n
        invariant
            n == fields@.len(),
            0 <= i <= n,
            map.wf(),
            map@ == fields_env(fields@.take(i as int)),
            forall|j: int| 0 <= j < i ==> representable(#[trigger] fields@[j].1),
        decreases n - i,
    {
        let (key, value) = (&fields[i].0, &fields[i].1);
        match scalar_text(value) {
            Some(s) => {
                map.insert(key.clone(), s);
                proof {
                    let t = fields@.take(i as int + 1);
                    assert(t.drop_last() =~= fields@.take(i as int));
                    assert(t.last() == fields@[i as int]);
                }
            },
            None => {
                let d = match value {
                    FieldValue::Composite(d) => d.clone(),
                    _ => String::new(),
                };
                let e = LoadError::Unconvertible { key: key.clone(), value: d };
                assert(first_refused(fields@, i as int) && refusal_of(fields@[i as int], e));
                return Err(e);
            },
        }
        i = i + 1;
    }
    assert(fields@.take(n as int) =~= fields@);
    Ok(map)
}

/// The deepest nesting that a document may have to be parsed. The TOML
/// parser, and the walks over the values it builds, recurse once per part of
/// a dotted key or table header and once per nested array or inline table,
/// with no limit of their own.
pub const MAX_NESTING: usize = 64;

/// What the TOML parser makes of a document's text: its top-level fields in
/// the table's order (by name), each in the form that coercion reads; or the
/// error for a text that is not TOML or not a table.
pub uninterp spec fn toml_document(text: Seq<char>) -> Result<Seq<(String, FieldValue)>, LoadError>;

/// Relies on `toml::Value`'s `FromStr` (parsing, with its diagnostic kept
/// as text), on `toml::Value::try_into` (the top level as a table) and on
/// `toml::map::Map::iter`, which walks a `BTreeMap` and so gives each name
/// once. Each value is converted by its variant: floats by their `Display`,
/// arrays and tables by their `Debug`. The conversion to a table already
/// turns date-times into their text, so they come out as strings.
#[verifier::external_body]
fn document_fields(text: &str) -> (r: Result<Vec<(String, FieldValue)>, LoadError>)
    requires
        nesting(text.spec_bytes()) <= MAX_NESTING,
    ensures
        match r {
            Ok(fs) => toml_document(text@) == Ok::<Seq<(String, FieldValue)>, LoadError>(fs@)
                && forall|i: int, j: int|
                0 <= i < j < fs@.len() ==> (#[trigger] fs@[i]).0@ != (#[trigger] fs@[j]).0@,
            Err(e) => toml_document(text@) == Err::<Seq<(String, FieldValue)>, LoadError>(e)
                && (e is InvalidToml || e is UnexpectedFormat),
        },
{
    let doc = text.parse::<Value>().map_err(|e| LoadError::InvalidToml(e.to_string()))?;
    let table = doc.try_into::<Table>().map_err(|e| LoadError::UnexpectedFormat(e.to_string()))?;
    Ok(table.iter().map(|(k, v)| (k.clone(), match v {
        Value::String(s) => FieldValue::Text(s.clone()),
        Value::Integer(i) => FieldValue::Integer(*i),
        Value::Float(x) => FieldValue::Float(x.to_string()),
        Value::Boolean(b) => FieldValue::Boolean(*b),
        Value::Datetime(d) => FieldValue::Datetime(d.to_string()),
        _ => FieldValue::Composite(format!("{:?}", v)),
    })).collect())
}

/// Loads the text of one file: parse it, take its top-level table, and
/// convert every field, all or nothing. A text nested deeper than
/// `MAX_NESTING` is refused before parsing.
pub fn load_document(text: &str) -> (r: Result<EnvMap, LoadError>)
    ensures
        nesting(text.spec_bytes()) > MAX_NESTING <==> r matches Err(LoadError::TooNested),
        nesting(text.spec_bytes()) <= MAX_NESTING ==> match toml_document(text@) {
            Err(d) => r matches Err(e) && e == d,
            Ok(fs) => {
                &&& r is Ok <==> all_representable(fs)
                &&& r matches Ok(m) ==> m.wf() && m@ == fields_env(fs)
                &&& r matches Err(e) ==> exists|i: int|
                    first_refused(fs, i) && refusal_of(#[trigger] fs[i], e)
            },
        },
{
    if measure_nesting(text.as_bytes()) > MAX_NESTING {
        return Err(LoadError::TooNested);
    }
    match document_fields(text) {
        Ok(fields) => table_into_env_map(&fields),
        Err(e) => Err(e),
    }
}

} // verus!
