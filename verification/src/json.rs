use crate::text::same_text;
use serde_json::Value;
use vstd::prelude::*;
use vstd::string::*;

verus! {

/// A JSON number.
#[derive(Debug, PartialEq, Eq)]
pub enum JsonNumber {
    /// An integer.
    Integer(i128),
    /// Any other number, held as its JSON text.
    Real(String),
}

/// The mathematical content of a [`JsonNumber`].
pub enum NumberValue {
    Integer(int),
    Real(Seq<char>),
}

impl View for JsonNumber {
    type V = NumberValue;

    open spec fn view(&self) -> NumberValue {
        match self {
            JsonNumber::Integer(i) => NumberValue::Integer(*i as int),
            JsonNumber::Real(text) => NumberValue::Real(text@),
        }
    }
}

/// A JSON document.
#[derive(Debug, PartialEq, Eq)]
pub enum Json {
    Null,
    Bool(bool),
    Number(JsonNumber),
    String(String),
    Array(Vec<Json>),
    /// The members, one after the other. Where a name occurs more than
    /// once, the last occurrence counts. [`Json::parse`] gives each name once,
    /// in the order of the names, whatever the order in the text.
    Object(Vec<Member>),
}

/// One member of a JSON object.
#[derive(Debug, PartialEq, Eq)]
pub struct Member {
    pub name: String,
    pub value: Json,
}

/// The mathematical content of a [`Json`] document.
pub enum JsonValue {
    Null,
    Bool(bool),
    Number(NumberValue),
    String(Seq<char>),
    Array(Seq<JsonValue>),
    Object(Seq<MemberValue>),
}

/// The mathematical content of a [`Member`].
pub struct MemberValue {
    pub name: Seq<char>,
    pub value: JsonValue,
}

impl View for Json {
    type V = JsonValue;

    open spec fn view(&self) -> JsonValue
        decreases self,
    {
        match self {
            Json::Null => JsonValue::Null,
            Json::Bool(b) => JsonValue::Bool(*b),
            Json::Number(n) => JsonValue::Number(n@),
            Json::String(s) => JsonValue::String(s@),
            Json::Array(items) => JsonValue::Array(
                Seq::new(
                    items@.len(),
                    |i: int|
                        if 0 <= i < items@.len() {
                            items@[i].view()
                        } else {
                            JsonValue::Null
                        },
                ),
            ),
            Json::Object(members) => JsonValue::Object(
                Seq::new(
                    members@.len(),
                    |i: int|
                        if 0 <= i < members@.len() {
                            MemberValue {
                                name: members@[i].name@,
                                value: members@[i].value.view(),
                            }
                        } else {
                            MemberValue { name: Seq::empty(), value: JsonValue::Null }
                        },
                ),
            ),
        }
    }
}

/// The contents of `items`, one by one.
pub open spec fn contents(items: Seq<Json>) -> Seq<JsonValue> {
    items.map_values(|item: Json| item@)
}

/// The contents of `members`, one by one.
pub open spec fn member_contents(members: Seq<Member>) -> Seq<MemberValue> {
    members.map_values(|m: Member| MemberValue { name: m.name@, value: m.value@ })
}

/// The value of the last of `members` that is named `key`.
pub open spec fn find_member(members: Seq<MemberValue>, key: Seq<char>) -> Option<JsonValue>
    decreases members.len(),
{
    if members.len() == 0 {
        None
    } else if members.last().name == key {
        Some(members.last().value)
    } else {
        find_member(members.drop_last(), key)
    }
}

impl JsonValue {
    /// The member named `key` of an object; where the name occurs more than
    /// once, the last occurrence counts.
    pub open spec fn member(self, key: Seq<char>) -> Option<JsonValue> {
        match self {
            JsonValue::Object(members) => find_member(members, key),
            _ => None,
        }
    }

    /// The characters of the string member named `key`.
    pub open spec fn member_text(self, key: Seq<char>) -> Option<Seq<char>> {
        match self.member(key) {
            Some(JsonValue::String(text)) => Some(text),
            _ => None,
        }
    }

    /// The elements of an array.
    pub open spec fn elements(self) -> Option<Seq<JsonValue>> {
        match self {
            JsonValue::Array(items) => Some(items),
            _ => None,
        }
    }

    /// The characters of a string.
    pub open spec fn text(self) -> Option<Seq<char>> {
        match self {
            JsonValue::String(s) => Some(s),
            _ => None,
        }
    }

    /// The truth value of a boolean.
    pub open spec fn truth(self) -> Option<bool> {
        match self {
            JsonValue::Bool(b) => Some(b),
            _ => None,
        }
    }

    /// The value of an integer.
    pub open spec fn integer(self) -> Option<int> {
        match self {
            JsonValue::Number(NumberValue::Integer(i)) => Some(i),
            _ => None,
        }
    }
}

/// Members of other names at the end do not change what is found.
proof fn lemma_find_member_take(members: Seq<MemberValue>, key: Seq<char>, n: int)
    requires
        0 <= n <= members.len(),
        forall|k: int| n <= k < members.len() ==> (#[trigger] members[k]).name != key,
    ensures
        find_member(members, key) == find_member(members.take(n), key),
    decreases members.len() - n,
{
    if n < members.len() {
        lemma_find_member_take(members.drop_last(), key, n);
        assert(members.drop_last().take(n) =~= members.take(n));
    } else {
        assert(members.take(n) =~= members);
    }
}

impl Json {
    /// The array of `items`.
    pub fn array(items: Vec<Json>) -> (r: Json)
        ensures
            r@ == JsonValue::Array(contents(items@)),
    {
        let r = Json::Array(items);
        assert(r@->Array_0 =~= contents(items@));
        r
    }

    /// The object of `members`.
    pub fn object(members: Vec<Member>) -> (r: Json)
        ensures
            r@ == JsonValue::Object(member_contents(members@)),
    {
        let r = Json::Object(members);
        assert(r@->Object_0 =~= member_contents(members@));
        r
    }

    /// The string that holds `text`.
    pub fn string(text: &str) -> (r: Json)
        ensures
            r@ == JsonValue::String(text@),
    {
        Json::String(text.to_owned())
    }

    /// The member named `key`, where this is an object that has one.
    pub fn get(&self, key: &str) -> (r: Option<&Json>)
        ensures
            match r {
                Some(found) => self@.member(key@) == Some(found@),
                None => self@.member(key@) is None,
            },
    {
        match self {
            Json::Object(members) => {
                let ghost all = self@->Object_0;
                let mut i: usize = members.len();
                while i > 0
                    invariant
                        i <= members.len(),
                        all.len() == members.len(),
                        self@ == JsonValue::Object(all),
                        forall|k: int|
                            0 <= k < all.len() ==> #[trigger] all[k] == (MemberValue {
                                name: members@[k].name@,
                                value: members@[k].value@,
                            }),
                        forall|k: int| i <= k < all.len() ==> (#[trigger] all[k]).name != key@,
                    decreases i,
                {
                    i -= 1;
                    if same_text(members[i].name.as_str(), key) {
                        proof {
                            lemma_find_member_take(all, key@, i + 1);
                            assert(all.take(i + 1).last() == all[i as int]);
                        }
                        return Some(&members[i].value);
                    }
                }
                proof {
                    lemma_find_member_take(all, key@, 0);
                }
                None
            },
            _ => None,
        }
    }

    /// The characters of the member named `key`, where this is an object
    /// that has one and it is a string.
    pub fn get_str(&self, key: &str) -> (r: Option<&str>)
        ensures
            match r {
                Some(text) => self@.member_text(key@) == Some(text@),
                None => self@.member_text(key@) is None,
            },
    {
        match self.get(key) {
            Some(member) => member.as_str(),
            None => None,
        }
    }

    /// The elements, where this is an array.
    pub fn as_array(&self) -> (r: Option<&Vec<Json>>)
        ensures
            match r {
                Some(items) => self@.elements() == Some(contents(items@)),
                None => self@.elements() is None,
            },
    {
        match self {
            Json::Array(items) => {
                assert(self@->Array_0 =~= contents(items@));
                Some(items)
            },
            _ => None,
        }
    }

    /// The truth value, where this is a boolean.
    pub fn as_bool(&self) -> (r: Option<bool>)
        ensures
            r == self@.truth(),
    {
        match self {
            Json::Bool(b) => Some(*b),
            _ => None,
        }
    }

    /// The value, where this is an integer from `i64::MIN` to `i64::MAX`.
    pub fn as_i64(&self) -> (r: Option<i64>)
        ensures
            match r {
                Some(i) => self@.integer() == Some(i as int),
                None => self@.integer() matches Some(i) ==> !(i64::MIN <= i <= i64::MAX),
            },
    {
        match self {
            Json::Number(JsonNumber::Integer(i)) => {
                if -0x8000_0000_0000_0000 <= *i && *i <= 0x7fff_ffff_ffff_ffff {
                    Some(*i as i64)
                } else {
                    None
                }
            },
            _ => None,
        }
    }

    /// The value, where this is an integer from 0 to `u64::MAX`.
    pub fn as_u64(&self) -> (r: Option<u64>)
        ensures
            match r {
                Some(i) => self@.integer() == Some(i as int),
                None => self@.integer() matches Some(i) ==> !(0 <= i <= u64::MAX),
            },
    {
        match self {
            Json::Number(JsonNumber::Integer(i)) => {
                if 0 <= *i && *i <= 0xffff_ffff_ffff_ffff {
                    Some(*i as u64)
                } else {
                    None
                }
            },
            _ => None,
        }
    }

    /// Whether this is `null`.
    pub fn is_null(&self) -> (r: bool)
        ensures
            r == (self@ == JsonValue::Null),
    {
        match self {
            Json::Null => true,
            _ => false,
        }
    }

    /// Whether this is an object.
    pub fn is_object(&self) -> (r: bool)
        ensures
            r == (self@ is Object),
    {
        match self {
            Json::Object(_) => true,
            _ => false,
        }
    }

    /// The characters, where this is a string.
    pub fn as_str(&self) -> (r: Option<&str>)
        ensures
            match r {
                Some(s) => self@.text() == Some(s@),
                None => self@.text() is None,
            },
    {
        match self {
            Json::String(s) => Some(s.as_str()),
            _ => None,
        }
    }
}

impl Clone for JsonNumber {
    fn clone(&self) -> (r: Self)
        ensures
            r@ == self@,
    {
        match self {
            JsonNumber::Integer(i) => JsonNumber::Integer(*i),
            JsonNumber::Real(text) => JsonNumber::Real(text.clone()),
        }
    }
}

impl Clone for Json {
    fn clone(&self) -> (r: Self)
        ensures
            r@ == self@,
        decreases self,
    {
        match self {
            Json::Null => Json::Null,
            Json::Bool(b) => Json::Bool(*b),
            Json::Number(n) => Json::Number(n.clone()),
            Json::String(s) => Json::String(s.clone()),
            Json::Array(items) => {
                let mut copy: Vec<Json> = Vec::new();
                let mut i: usize = 0;
                while i < items.len()
                    invariant
                        i <= items.len(),
                        *self == Json::Array(*items),
                        copy@.len() == i,
                        forall|k: int| 0 <= k < i ==> (#[trigger] copy@[k])@ == items@[k]@,
                    decreases items.len() - i,
                {
                    proof {
                        vstd::std_specs::vec::axiom_vec_index_decreases(*items, i as int);
                        assert(self->Array_0 == *items);
                    }
                    copy.push(items[i].clone());
                    i += 1;
                }
                let r = Json::Array(copy);
                assert(r@->Array_0 =~= self@->Array_0);
                r
            },
            Json::Object(members) => {
                let mut copy: Vec<Member> = Vec::new();
                let mut i: usize = 0;
                while i < members.len()
                    invariant
                        i <= members.len(),
                        *self == Json::Object(*members),
                        copy@.len() == i,
                        forall|k: int|
                            0 <= k < i ==> (#[trigger] copy@[k]).name@ == members@[k].name@
                                && copy@[k].value@ == members@[k].value@,
                    decreases members.len() - i,
                {
                    proof {
                        vstd::std_specs::vec::axiom_vec_index_decreases(*members, i as int);
                        assert(self->Object_0 == *members);
                    }
                    copy.push(Member { name: members[i].name.clone(), value: members[i].value.clone() });
                    i += 1;
                }
                let r = Json::Object(copy);
                assert(r@->Object_0 =~= self@->Object_0);
                r
            },
        }
    }
}

/// What `serde_json` makes of `text` when it reads it as one JSON document:
/// the document, or the message of its error. Both depend on the text alone.
pub uninterp spec fn json_parse(text: Seq<char>) -> Result<JsonValue, Seq<char>>;

#[verifier::external_type_specification]
#[verifier::external_body]
pub struct ExValue(serde_json::Value);

/// Turns a `serde_json::Value` into a [`Json`], variant by variant. A number
/// that `serde_json::Number::as_i128` gives as an integer stays one; any
/// other number is kept as the text that `Number` prints. The members of
/// an object come in the order in which the `Map` of `serde_json` hands them
/// out. Nothing is claimed of the result here: [`parse_document`] names it.
#[verifier::external_body]
fn json_from_value(value: Value) -> Json {
    match value {
        Value::Null => Json::Null,
        Value::Bool(b) => Json::Bool(b),
        Value::Number(n) => match n.as_i128() {
            Some(i) => Json::Number(JsonNumber::Integer(i)),
            None => Json::Number(JsonNumber::Real(n.to_string())),
        },
        Value::String(s) => Json::String(s),
        Value::Array(a) => Json::Array(a.into_iter().map(json_from_value).collect()),
        Value::Object(m) => Json::Object(
            m.into_iter().map(|(k, v)| Member { name: k, value: json_from_value(v) }).collect(),
        ),
    }
}

/// `serde_json::from_str::<serde_json::Value>`, with the value turned into
/// a [`Json`] and the error into the text that it prints. The call accepts
/// a text that holds exactly one JSON document, nested at most 128 deep, and
/// returns an error for any other; it reads nothing but the text, so the
/// outcome is the same whenever the text is. The contract claims no more
/// than that: it gives the outcome the name [`json_parse`].
#[verifier::external_body]
fn parse_document(text: &str) -> (r: Result<Json, String>)
    ensures
        match r {
            Ok(document) => json_parse(text@) == Ok::<JsonValue, Seq<char>>(document@),
            Err(message) => json_parse(text@) == Err::<JsonValue, Seq<char>>(message@),
        },
{
    match serde_json::from_str::<Value>(text) {
        Ok(value) => Ok(json_from_value(value)),
        Err(e) => Err(e.to_string()),
    }
}

impl Json {
    /// Parses `text` as one JSON document. The members of an object come
    /// out ordered by name; of members with one name the last is kept. The
    /// error is the message of the parser, with the line and column where it
    /// stopped.
    pub fn parse(text: &str) -> (r: Result<Json, String>)
        ensures
            match r {
                Ok(document) => json_parse(text@) == Ok::<JsonValue, Seq<char>>(document@),
                Err(message) => json_parse(text@) == Err::<JsonValue, Seq<char>>(message@),
            },
    {
        parse_document(text)
    }
}

} // verus!
