//! JSON values as the library reads them, and the parse that yields them.
use vstd::prelude::*;

verus! {

broadcast use vstd::string::group_string_axioms;

#[verifier::external_type_specification]
#[verifier::external_body]
pub struct ExJsonValue(serde_json::Value);

#[verifier::external_type_specification]
#[verifier::external_body]
pub struct ExJsonError(serde_json::Error);

/// A JSON value as the library reads it.
#[derive(Debug)]
pub enum Json {
    Null,
    Bool(bool),
    Number(String),
    Str(String),
    Array(Vec<Json>),
    Object(Vec<(String, Json)>),
}

impl Json {
    pub open spec fn spec_get(self, key: Seq<char>) -> Option<Json>
        decreases self,
    {
        match self {
            Json::Object(fields) => Json::lookup(fields@, key),
            _ => None,
        }
    }

    pub open spec fn lookup(fields: Seq<(String, Json)>, key: Seq<char>) -> Option<Json>
        decreases fields.len(),
    {
        if fields.len() == 0 {
            None
        } else if fields[0].0@ == key {
            Some(fields[0].1)
        } else {
            Json::lookup(fields.drop_first(), key)
        }
    }

    /// `self.get(key).and_then(|v| v.as_str())`.
    pub open spec fn str_field(self, key: Seq<char>) -> Option<Seq<char>> {
        match self.spec_get(key) {
            Some(Json::Str(s)) => Some(s@),
            _ => None,
        }
    }

    /// `self.as_str()`.
    pub open spec fn as_text(self) -> Option<Seq<char>> {
        match self {
            Json::Str(s) => Some(s@),
            _ => None,
        }
    }

    /// `self.as_array()`.
    pub open spec fn spec_array(self) -> Option<Seq<Json>> {
        match self {
            Json::Array(a) => Some(a@),
            _ => None,
        }
    }

    /// `self.get(key).and_then(|v| v.as_array())`.
    pub open spec fn array_field(self, key: Seq<char>) -> Option<Seq<Json>> {
        match self.spec_get(key) {
            Some(Json::Array(a)) => Some(a@),
            _ => None,
        }
    }

    /// The elements of an array.
    pub fn as_array(&self) -> (r: Option<&Vec<Json>>)
        ensures
            match r {
                Some(a) => self.spec_array() == Some(a@),
                None => self.spec_array() is None,
            },
    {
        match self {
            Json::Array(a) => Some(a),
            _ => None,
        }
    }

    /// The array member `key` of an object.
    pub fn get_array(&self, key: &str) -> (r: Option<&Vec<Json>>)
        ensures
            match r {
                Some(a) => self.array_field(key@) == Some(a@),
                None => self.array_field(key@) is None,
            },
    {
        match self.get(key) {
            Some(Json::Array(a)) => Some(a),
            _ => None,
        }
    }

    /// Whether `self` is an object.
    pub open spec fn is_object(self) -> bool {
        self is Object
    }

    /// An object with one member.
    pub fn single(key: &str, value: String) -> (r: Json)
        ensures
            is_single(r, key@, value@),
            r.str_field(key@) == Some(value@),
    {
        let mut fields: Vec<(String, Json)> = Vec::new();
        fields.push((key.to_string(), Json::Str(value)));
        let r = Json::Object(fields);
        assert(fields@[0].0@ == key@);
        r
    }

    /// The string member `key` of an object.
    pub fn get_str(&self, key: &str) -> (r: Option<&str>)
        ensures
            match r {
                Some(v) => self.str_field(key@) == Some(v@),
                None => self.str_field(key@) is None,
            },
    {
        match self.get(key) {
            Some(Json::Str(s)) => Some(s.as_str()),
            _ => None,
        }
    }

    /// `serde_json::Value::get`: the member `key` of an object.
    pub fn get(&self, key: &str) -> (r: Option<&Json>)
        ensures
            match r {
                Some(v) => self.spec_get(key@) == Some(*v),
                None => self.spec_get(key@) is None,
            },
    {
        match self {
            Json::Object(fields) => {
                let mut i: usize = 0;
                assert(fields@.skip(0) =~= fields@);
                while i < fields.len()
                    invariant
                        0 <= i <= fields.len(),
                        self.spec_get(key@) == Json::lookup(fields@, key@),
                        Json::lookup(fields@, key@) == Json::lookup(fields@.skip(i as int), key@),
                    decreases fields.len() - i,
                {
                    assert(fields@.skip(i as int).drop_first() =~= fields@.skip(i + 1));
                    assert(fields@.skip(i as int)[0] == fields@[i as int]);
                    if str_eq(fields[i].0.as_str(), key) {
                        return Some(&fields[i].1);
                    }
                    i += 1;
                }
                None
            },
            _ => None,
        }
    }
}

/// A reply that is an object with the one text member `key`.
pub open spec fn is_single(r: Json, key: Seq<char>, text: Seq<char>) -> bool {
    &&& r matches Json::Object(f)
    &&& f@.len() == 1
    &&& f@[0].0@ == key
    &&& f@[0].1 matches Json::Str(s)
    &&& s@ == text
}

/// A name for what `serde_json::from_str::<serde_json::Value>(text)` gives:
/// the value as a `Json`, or the text of the parse error.
pub uninterp spec fn json_parse(text: Seq<char>) -> Result<Json, Seq<char>>;

/// The library's `Json` for a `serde_json::Value`, member for member (a
/// number by its decimal text).
#[verifier::external_body]
fn json_from_value(v: serde_json::Value) -> Json {
    match v {
        serde_json::Value::Null => Json::Null,
        serde_json::Value::Bool(b) => Json::Bool(b),
        serde_json::Value::Number(n) => Json::Number(n.to_string()),
        serde_json::Value::String(s) => Json::Str(s),
        serde_json::Value::Array(a) => Json::Array(a.into_iter().map(json_from_value).collect()),
        serde_json::Value::Object(o) => Json::Object(o.into_iter().map(|(k, x)| (k, json_from_value(x))).collect()),
    }
}

/// `serde_json::from_str::<serde_json::Value>(text)`, as a `Json`, or the
/// error's text.
#[verifier::external_body]
pub(crate) fn parse_json(text: &str) -> (r: Result<Json, String>)
    ensures
        match r {
            Ok(v) => json_parse(text@) == Ok::<Json, Seq<char>>(v),
            Err(e) => json_parse(text@) == Err::<Json, Seq<char>>(e@),
        },
{
    match serde_json::from_str::<serde_json::Value>(text) {
        Ok(v) => Ok(json_from_value(v)),
        Err(e) => Err(e.to_string()),
    }
}

/// A name for the JSON text that `serde_json::to_string` writes for the
/// value once it is made a `serde_json::Value`: compact, the members of an
/// object sorted by name (a later member replacing an earlier one of the
/// same name, as in serde_json's map); the empty text when a number's text
/// is not a JSON number.
pub uninterp spec fn json_text(v: Json) -> Seq<char>;

/// The `serde_json::Value` for a `Json`, member for member; the parse error
/// of a number whose text is not a JSON number.
#[verifier::external_body]
fn json_to_value(v: &Json) -> Result<serde_json::Value, serde_json::Error> {
    Ok(match v {
        Json::Null => serde_json::Value::Null,
        Json::Bool(b) => serde_json::Value::Bool(*b),
        Json::Number(n) => serde_json::Value::Number(n.parse::<serde_json::Number>()?),
        Json::Str(s) => serde_json::Value::String(s.clone()),
        Json::Array(a) => serde_json::Value::Array(a.iter().map(json_to_value).collect::<Result<_, _>>()?),
        Json::Object(f) => serde_json::Value::Object(f.iter().map(|(k, x)| Ok((k.clone(), json_to_value(x)?))).collect::<Result<_, serde_json::Error>>()?),
    })
}

/// `serde_json::to_string` of the value, or the empty text on an error.
#[verifier::external_body]
pub(crate) fn json_to_string(v: &Json) -> (r: String)
    ensures
        r@ == json_text(*v),
{
    match json_to_value(v) {
        Ok(x) => serde_json::to_string(&x).unwrap_or_default(),
        Err(_) => String::new(),
    }
}

/// Whether two texts are equal.
pub fn str_eq(a: &str, b: &str) -> (r: bool)
    ensures r == (a@ == b@),
{
    let n = a.unicode_len();
    if n != b.unicode_len() {
        return false;
    }
    let mut i: usize = 0;
    while i < n
        invariant
            n == a@.len() == b@.len(),
            i <= n,
            forall|j: int| 0 <= j < i ==> a@[j] == b@[j],
        decreases n - i,
    {
        if a.get_char(i) != b.get_char(i) {
            return false;
        }
        i += 1;
    }
    assert(a@ =~= b@);
    true
}

} // verus!
