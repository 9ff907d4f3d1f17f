//! The YAML documents that configure the tool, as plain values.
use vstd::prelude::*;
use serde_yaml::{Number, Value};

verus! {

/// A YAML number as the parser read it.
#[derive(Clone, Copy, Debug, PartialEq, Eq)]
pub enum YamlNumber {
    /// A non-negative integer.
    PosInt(u64),
    /// A negative integer.
    NegInt(i64),
    /// A floating point number, held as the bits of an `f64`.
    Float(u64),
}

/// A YAML value.
#[derive(Debug)]
pub enum Yaml {
    Null,
    Bool(bool),
    Number(YamlNumber),
    String(String),
    Sequence(Vec<Yaml>),
    Mapping(Vec<(Yaml, Yaml)>),
    Tagged(String, Box<Yaml>),
}

impl Yaml {
    /// The value with its tags removed.
    pub open spec fn untagged(self) -> Yaml
        decreases self,
    {
        match self {
            Yaml::Tagged(_, inner) => inner.untagged(),
            _ => self,
        }
    }

    /// The value held under the key `key` in the mapping, if any.
    pub open spec fn lookup(self, key: Seq<char>) -> Option<Yaml> {
        match self.untagged() {
            Yaml::Mapping(m) => entry_for(m@, key, 0),
            _ => None,
        }
    }

    /// The value as a string, if it is one.
    pub open spec fn string_of(self) -> Option<Seq<char>> {
        match self.untagged() {
            Yaml::String(s) => Some(s@),
            _ => None,
        }
    }

    /// The value as a boolean, if it is one.
    pub open spec fn bool_of(self) -> Option<bool> {
        match self.untagged() {
            Yaml::Bool(b) => Some(b),
            _ => None,
        }
    }

    /// The value as an unsigned integer, if it is one.
    pub open spec fn u64_of(self) -> Option<u64> {
        match self.untagged() {
            Yaml::Number(YamlNumber::PosInt(n)) => Some(n),
            _ => None,
        }
    }

    /// The value as a signed integer, if it is one that fits.
    pub open spec fn i64_of(self) -> Option<i64> {
        match self.untagged() {
            Yaml::Number(YamlNumber::PosInt(n)) => if n <= i64::MAX {
                Some(n as i64)
            } else {
                None
            },
            Yaml::Number(YamlNumber::NegInt(n)) => Some(n),
            _ => None,
        }
    }
}

/// The value of the first entry at or after `i` whose key is the string `key`.
pub open spec fn entry_for(m: Seq<(Yaml, Yaml)>, key: Seq<char>, i: int) -> Option<Yaml>
    decreases m.len() - i,
{
    if i < 0 || i >= m.len() {
        None
    } else if m[i].0 matches Yaml::String(s) && s@ == key {
        Some(m[i].1)
    } else {
        entry_for(m, key, i + 1)
    }
}

} // verus!

verus! {

impl Yaml {
    /// The value with its tags removed.
    pub fn untag(&self) -> (r: &Yaml)
        ensures
            *r == self.untagged(),
            !(r is Tagged),
        decreases self,
    {
        match self {
            Yaml::Tagged(_, inner) => inner.untag(),
            _ => self,
        }
    }

    /// The value held under the key `key`, if this is a mapping that has it.
    pub fn get(&self, key: &str) -> (r: Option<&Yaml>)
        ensures
            r matches Some(v) ==> self.lookup(key@) == Some(*v),
            r is None ==> self.lookup(key@) is None,
    {
        match self.untag() {
            Yaml::Mapping(m) => {
                let mut i: usize = 0;
                while i < m.len()
                    invariant
                        i <= m@.len(),
                        self.lookup(key@) == entry_for(m@, key@, i as int),
                    decreases m@.len() - i,
                {
                    match &m[i].0 {
                        Yaml::String(s) => {
                            if crate::text::str_eq(s.as_str(), key) {
                                return Some(&m[i].1);
                            }
                        },
                        _ => {},
                    }
                    i = i + 1;
                }
                None
            },
            _ => None,
        }
    }

    /// The value as a string, if it is one.
    pub fn as_str(&self) -> (r: Option<&str>)
        ensures
            r matches Some(s) ==> self.string_of() == Some(s@),
            r is None ==> self.string_of() is None,
    {
        match self.untag() {
            Yaml::String(s) => Some(s.as_str()),
            _ => None,
        }
    }

    /// The value as a boolean, if it is one.
    pub fn as_bool(&self) -> (r: Option<bool>)
        ensures
            r == self.bool_of(),
    {
        match self.untag() {
            Yaml::Bool(b) => Some(*b),
            _ => None,
        }
    }

    /// The value as an unsigned integer, if it is one.
    pub fn as_u64(&self) -> (r: Option<u64>)
        ensures
            r == self.u64_of(),
    {
        match self.untag() {
            Yaml::Number(YamlNumber::PosInt(n)) => Some(*n),
            _ => None,
        }
    }

    /// The value as a signed integer, if it is one that fits.
    pub fn as_i64(&self) -> (r: Option<i64>)
        ensures
            r == self.i64_of(),
    {
        match self.untag() {
            Yaml::Number(YamlNumber::PosInt(n)) => if *n <= i64::MAX as u64 {
                Some(*n as i64)
            } else {
                None
            },
            Yaml::Number(YamlNumber::NegInt(n)) => Some(*n),
            _ => None,
        }
    }
}

} // verus!

verus! {

#[verifier::external_type_specification]
#[verifier::external_body]
pub struct ExYamlValue(Value);

#[verifier::external_type_specification]
#[verifier::external_body]
pub struct ExYamlNumber(Number);

/// The document that the YAML text `text` holds, or the parser's message
/// when the text holds none.
pub uninterp spec fn yaml_document(text: Seq<char>) -> Result<Yaml, Seq<char>>;

/// `serde_yaml::from_str` into a `serde_yaml::Value`, taken over as a
/// [`Yaml`]; a refused text gives the parser's message (`Display` of
/// `serde_yaml::Error`). The contract claims that the result is a function
/// of the text alone.
#[verifier::external_body]
fn parse_yaml(text: &str) -> (r: Result<Yaml, String>)
    ensures
        match r {
            Ok(y) => yaml_document(text@) == Ok::<Yaml, Seq<char>>(y),
            Err(m) => yaml_document(text@) == Err::<Yaml, Seq<char>>(m@),
        },
{
    match serde_yaml::from_str::<Value>(text) {
        Ok(v) => Ok(yaml_of_value(&v)),
        Err(e) => Err(e.to_string()),
    }
}

/// A `serde_yaml::Value` taken over variant for variant (a tag by its
/// `Display`). Nothing is claimed here: what [`parse_yaml`] returns is
/// claimed there.
#[verifier::external_body]
fn yaml_of_value(v: &Value) -> Yaml {
    match v {
        Value::Null => Yaml::Null,
        Value::Bool(b) => Yaml::Bool(*b),
        Value::Number(n) => Yaml::Number(yaml_number(n)),
        Value::String(s) => Yaml::String(s.clone()),
        Value::Sequence(l) => Yaml::Sequence(l.iter().map(yaml_of_value).collect()),
        Value::Mapping(m) => Yaml::Mapping(m.iter().map(|(k, x)| (yaml_of_value(k), yaml_of_value(x))).collect()),
        Value::Tagged(t) => Yaml::Tagged(t.tag.to_string(), Box::new(yaml_of_value(&t.value))),
    }
}

/// A `serde_yaml::Number` taken over by the kind it holds: a non-negative
/// integer (`as_u64`), a negative one (`as_i64`), or else the bits of the
/// float (`as_f64`). Nothing is claimed here: what [`parse_yaml`] returns is
/// claimed there.
#[verifier::external_body]
fn yaml_number(n: &Number) -> YamlNumber {
    match (n.as_u64(), n.as_i64()) {
        (Some(u), _) => YamlNumber::PosInt(u),
        (None, Some(i)) => YamlNumber::NegInt(i),
        _ => YamlNumber::Float(n.as_f64().map_or(0, |x| x.to_bits())),
    }
}

/// Why a document was not read: its text is no YAML (with the parser's
/// message), or its content was refused.
#[derive(Debug, Clone, PartialEq, Eq)]
pub enum LoadError<E> {
    Syntax(String),
    Invalid(E),
}

impl Yaml {
    /// The document that the YAML text `text` holds, or the parser's
    /// message.
    pub fn parse(text: &str) -> (r: Result<Yaml, String>)
        ensures
            match yaml_document(text@) {
                Ok(y) => r matches Ok(y2) && y2 == y,
                Err(m) => r matches Err(s) && s@ == m,
            },
    {
        parse_yaml(text)
    }
}

} // verus!
