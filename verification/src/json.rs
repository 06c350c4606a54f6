//! JSON values as the codec reads them, and the calls into `serde_json`
//! that turn bytes into such values and text into JSON strings.

use vstd::prelude::*;

verus! {

/// A JSON value. Numbers carry no payload: the wire format has none.
#[derive(Debug)]
pub enum Json {
    Null,
    Bool(bool),
    Number,
    Text(String),
    List(Vec<Json>),
    /// The members of an object, in order; of two with one name a lookup
    /// finds the first.
    Object(Vec<(String, Json)>),
}

/// `serde_json::Value`, carried from the parser to the conversion.
#[verifier::external_type_specification]
#[verifier::external_body]
pub struct ExValue(serde_json::Value);

/// `serde_json::Error`, the reason why a text is no JSON.
#[verifier::external_type_specification]
#[verifier::external_body]
pub struct ExJsonError(serde_json::Error);

/// What `serde_json::from_slice` makes of `bytes` as a `serde_json::Value`,
/// converted member by member: `None` where it reports an error.
pub uninterp spec fn json_parsed(bytes: Seq<u8>) -> Option<Json>;

/// The JSON value that a `serde_json::Value` holds: variant for variant,
/// the elements of an array in their order, the members of an object in
/// the order in which its map hands them out.
pub uninterp spec fn value_tree(v: serde_json::Value) -> Json;

/// The JSON string literal that `serde_json::to_string` writes for `text`,
/// quotes and escapes included: `None` where it reports an error.
pub uninterp spec fn json_quoted(text: Seq<char>) -> Option<Seq<char>>;

/// Calls `serde_json::from_slice` for a `serde_json::Value`. The contract
/// only names the result: the same bytes give the same value or the same
/// failure.
#[verifier::external_body]
fn parse_value(bytes: &[u8]) -> (r: Result<serde_json::Value, serde_json::Error>)
    ensures
        match r {
            Ok(v) => json_parsed(bytes@) == Some(value_tree(v)),
            Err(_) => json_parsed(bytes@) is None,
        },
{
    serde_json::from_slice::<serde_json::Value>(bytes)
}

/// Takes a `serde_json::Value` apart into a `Json`, one arm for each
/// variant; a number leaves its payload behind. The contract only names the
/// result.
#[verifier::external_body]
fn json_of_value(v: serde_json::Value) -> (j: Json)
    ensures
        j == value_tree(v),
{
    match v {
        serde_json::Value::Null => Json::Null,
        serde_json::Value::Bool(b) => Json::Bool(b),
        serde_json::Value::Number(_) => Json::Number,
        serde_json::Value::String(s) => Json::Text(s),
        serde_json::Value::Array(a) => Json::List(a.into_iter().map(json_of_value).collect()),
        serde_json::Value::Object(m) => Json::Object(
            m.into_iter().map(|(k, x)| (k, json_of_value(x))).collect(),
        ),
    }
}

/// Calls `serde_json::to_string` on a string slice, which writes it as a
/// JSON string literal. The contract only names the result.
#[verifier::external_body]
fn quote_text(text: &str) -> (r: Option<String>)
    ensures
        match r {
            Some(q) => json_quoted(text@) == Some(q@),
            None => json_quoted(text@) is None,
        },
{
    serde_json::to_string(text).ok()
}

impl Json {
    /// The value of the first member named `key` among `pairs`.
    pub open spec fn lookup(pairs: Seq<(String, Json)>, key: Seq<char>) -> Option<Json>
        decreases pairs.len(),
    {
        if pairs.len() == 0 {
            None
        } else if pairs[0].0@ == key {
            Some(pairs[0].1)
        } else {
            Self::lookup(pairs.drop_first(), key)
        }
    }

    /// The member named `key`, where this is an object that has one.
    pub open spec fn field(self, key: Seq<char>) -> Option<Json> {
        match self {
            Json::Object(pairs) => Self::lookup(pairs@, key),
            _ => None,
        }
    }

    /// The text, where this is a string.
    pub open spec fn text(self) -> Option<Seq<char>> {
        match self {
            Json::Text(s) => Some(s@),
            _ => None,
        }
    }

    /// The truth value, where this is one.
    pub open spec fn flag(self) -> Option<bool> {
        match self {
            Json::Bool(b) => Some(b),
            _ => None,
        }
    }

    /// The name and the value of the member, where this is an object with
    /// exactly one.
    pub open spec fn sole_member(self) -> Option<(Seq<char>, Json)> {
        match self {
            Json::Object(pairs) => if pairs@.len() == 1 {
                Some((pairs@[0].0@, pairs@[0].1))
            } else {
                None
            },
            _ => None,
        }
    }

    /// Reads `bytes` as one JSON text.
    pub fn parse(bytes: &[u8]) -> (r: Option<Json>)
        ensures
            r == json_parsed(bytes@),
    {
        match parse_value(bytes) {
            Ok(v) => Some(json_of_value(v)),
            Err(_) => None,
        }
    }

    /// Writes `text` as a JSON string literal.
    pub fn quote(text: &str) -> (r: Option<String>)
        ensures
            match r {
                Some(q) => json_quoted(text@) == Some(q@),
                None => json_quoted(text@) is None,
            },
    {
        quote_text(text)
    }

    /// The member named `key`, where this is an object that has one.
    pub fn get(&self, key: &str) -> (r: Option<&Json>)
        ensures
            match r {
                Some(j) => self.field(key@) == Some(*j),
                None => self.field(key@) is None,
            },
    {
        match self {
            Json::Object(pairs) => {
                let wanted = String::from_str(key);
                let mut i: usize = 0;
                assert(pairs@.skip(0) =~= pairs@);
                while i < pairs.len()
                    invariant
                        i <= pairs.len(),
                        wanted@ == key@,
                        self.field(key@) == Self::lookup(pairs@, key@),
                        Self::lookup(pairs@, key@) == Self::lookup(pairs@.skip(i as int), key@),
                    decreases pairs.len() - i,
                {
                    proof {
                        assert(pairs@.skip(i as int).len() > 0);
                        assert(pairs@.skip(i as int).drop_first() =~= pairs@.skip(i + 1));
                        assert(pairs@.skip(i as int)[0] == pairs@[i as int]);
                    }
                    if pairs[i].0 == wanted {
                        return Some(&pairs[i].1);
                    }
                    i += 1;
                }
                None
            },
            _ => None,
        }
    }

    /// The text, where this is a string.
    pub fn as_text(&self) -> (r: Option<&str>)
        ensures
            match r {
                Some(s) => self.text() == Some(s@),
                None => self.text() is None,
            },
    {
        match self {
            Json::Text(s) => Some(s.as_str()),
            _ => None,
        }
    }

    /// The truth value, where this is one.
    pub fn as_flag(&self) -> (r: Option<bool>)
        ensures
            r == self.flag(),
    {
        match self {
            Json::Bool(b) => Some(*b),
            _ => None,
        }
    }

    /// The name and the value of the member, where this is an object with
    /// exactly one.
    pub fn as_sole_member(&self) -> (r: Option<(&str, &Json)>)
        ensures
            match r {
                Some((name, value)) => self.sole_member() == Some((name@, *value)),
                None => self.sole_member() is None,
            },
    {
        match self {
            Json::Object(pairs) => {
                if pairs.len() == 1 {
                    Some((pairs[0].0.as_str(), &pairs[0].1))
                } else {
                    None
                }
            },
            _ => None,
        }
    }
}

} // verus!
