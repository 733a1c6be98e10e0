//! JSON documents as plain values.
use vstd::prelude::*;

use crate::text;

verus! {

/// A JSON document. The members of an object stand in the order in which they are walked.
#[derive(Debug)]
pub enum Json {
    Null,
    Bool(bool),
    /// A number; its value if it is written as an integer from 0 to `u64::MAX`.
    Number(Option<u64>),
    Str(String),
    Array(Vec<Json>),
    Object(Vec<(String, Json)>),
}

/// What a JSON document says.
pub enum JsonView {
    Null,
    Bool(bool),
    Number(Option<u64>),
    Str(Seq<char>),
    Array(Seq<JsonView>),
    Object(Seq<(Seq<char>, JsonView)>),
}

impl Json {
    /// What this document says.
    pub open spec fn model(self) -> JsonView
        decreases self,
    {
        match self {
            Json::Null => JsonView::Null,
            Json::Bool(b) => JsonView::Bool(b),
            Json::Number(n) => JsonView::Number(n),
            Json::Str(s) => JsonView::Str(s@),
            Json::Array(items) => JsonView::Array(
                Seq::new(
                    items@.len(),
                    |i: int|
                        if 0 <= i < items@.len() {
                            items@[i].model()
                        } else {
                            JsonView::Null
                        },
                ),
            ),
            Json::Object(members) => JsonView::Object(
                Seq::new(
                    members@.len(),
                    |i: int|
                        if 0 <= i < members@.len() {
                            (members@[i].0@, members@[i].1.model())
                        } else {
                            (Seq::empty(), JsonView::Null)
                        },
                ),
            ),
        }
    }
}

impl View for Json {
    type V = JsonView;

    open spec fn view(&self) -> JsonView {
        self.model()
    }
}

/// The member of an object with the name `key`: the first, if there are several.
pub open spec fn member_of(members: Seq<(Seq<char>, JsonView)>, key: Seq<char>) -> Option<JsonView>
    decreases members.len(),
{
    if members.len() == 0 {
        None
    } else {
        match member_of(members.drop_last(), key) {
            Some(v) => Some(v),
            None => if members.last().0 == key {
                Some(members.last().1)
            } else {
                None
            },
        }
    }
}

impl JsonView {
    /// The member `key`, if this is an object that has it.
    pub open spec fn member(self, key: Seq<char>) -> Option<JsonView> {
        match self {
            JsonView::Object(members) => member_of(members, key),
            _ => None,
        }
    }

    /// The first item, if this is an array that has one.
    pub open spec fn first(self) -> Option<JsonView> {
        match self {
            JsonView::Array(items) => if items.len() > 0 {
                Some(items[0])
            } else {
                None
            },
            _ => None,
        }
    }

    /// The text, if this is one.
    pub open spec fn as_text(self) -> Option<Seq<char>> {
        match self {
            JsonView::Str(s) => Some(s),
            _ => None,
        }
    }

    /// The truth value, if this is one.
    pub open spec fn as_truth(self) -> Option<bool> {
        match self {
            JsonView::Bool(b) => Some(b),
            _ => None,
        }
    }

    /// The number, if this is an integer from 0 to `u64::MAX`.
    pub open spec fn as_count(self) -> Option<u64> {
        match self {
            JsonView::Number(n) => n,
            _ => None,
        }
    }

    /// The text of the member `key`, if this is an object that has it and it is a text.
    pub open spec fn member_text(self, key: Seq<char>) -> Option<Seq<char>> {
        match self.member(key) {
            Some(v) => v.as_text(),
            None => None,
        }
    }

    /// The truth value of the member `key`.
    pub open spec fn member_truth(self, key: Seq<char>) -> Option<bool> {
        match self.member(key) {
            Some(v) => v.as_truth(),
            None => None,
        }
    }
}

/// The text of an optional string.
pub open spec fn text_view(s: Option<String>) -> Option<Seq<char>> {
    match s {
        Some(t) => Some(t@),
        None => None,
    }
}

/// The text of an optional string slice.
pub open spec fn str_view(s: Option<&str>) -> Option<Seq<char>> {
    match s {
        Some(t) => Some(t@),
        None => None,
    }
}

/// What an optional document says.
pub open spec fn json_view(j: Option<&Json>) -> Option<JsonView> {
    match j {
        Some(v) => Some(v@),
        None => None,
    }
}

/// What the members of an object say.
pub open spec fn members_view(members: Seq<(String, Json)>) -> Seq<(Seq<char>, JsonView)> {
    members.map_values(|m: (String, Json)| (m.0@, m.1@))
}

/// What an object says is what its members say.
pub proof fn object_model(members: Vec<(String, Json)>)
    ensures
        Json::Object(members)@ == JsonView::Object(members_view(members@)),
{
    let m = Json::Object(members)@->Object_0;
    assert(m =~= members_view(members@));
}

/// What an array says is what its items say.
pub proof fn array_model(items: Vec<Json>)
    ensures
        Json::Array(items)@ == JsonView::Array(items@.map_values(|j: Json| j@)),
{
    let m = Json::Array(items)@->Array_0;
    assert(m =~= items@.map_values(|j: Json| j@));
}

impl Json {
    /// The member `key`, if this is an object that has it.
    pub fn get(&self, key: &str) -> (r: Option<&Json>)
        ensures
            json_view(r) == self@.member(key@),
    {
        match self {
            Json::Object(members) => {
                proof {
                    object_model(*members);
                }
                let ghost all = members_view(members@);
                let mut i: usize = 0;
                assert(all.take(0) =~= Seq::<(Seq<char>, JsonView)>::empty());
                while i < members.len()
                    invariant
                        i <= members@.len(),
                        all == members_view(members@),
                        self@ == JsonView::Object(all),
                        member_of(all.take(i as int), key@) is None,
                    decreases members@.len() - i,
                {
                    proof {
                        assert(all.take(i + 1).drop_last() =~= all.take(i as int));
                        assert(all[i as int] == (members@[i as int].0@, members@[i as int].1@));
                        assert(all.take(i + 1).last() == all[i as int]);
                    }
                    if text::same(members[i].0.as_str(), key) {
                        proof {
                            member_of_prefix(all, i + 1, key@);
                        }
                        return Some(&members[i].1);
                    }
                    i = i + 1;
                }
                assert(all.take(all.len() as int) =~= all);
                None
            },
            _ => None,
        }
    }

    /// The first item, if this is an array that has one.
    pub fn first(&self) -> (r: Option<&Json>)
        ensures
            json_view(r) == self@.first(),
    {
        match self {
            Json::Array(items) => {
                if items.len() > 0 {
                    Some(&items[0])
                } else {
                    None
                }
            },
            _ => None,
        }
    }

    /// The text, if this is one.
    pub fn as_str(&self) -> (r: Option<&str>)
        ensures
            str_view(r) == self@.as_text(),
    {
        match self {
            Json::Str(s) => Some(s.as_str()),
            _ => None,
        }
    }

    /// The truth value, if this is one.
    pub fn as_bool(&self) -> (r: Option<bool>)
        ensures
            r == self@.as_truth(),
    {
        match self {
            Json::Bool(b) => Some(*b),
            _ => None,
        }
    }

    /// The number, if this is an integer from 0 to `u64::MAX`.
    pub fn as_u64(&self) -> (r: Option<u64>)
        ensures
            r == self@.as_count(),
    {
        match self {
            Json::Number(n) => *n,
            _ => None,
        }
    }

    /// The text of the member `key`.
    pub fn get_str(&self, key: &str) -> (r: Option<&str>)
        ensures
            str_view(r) == self@.member_text(key@),
    {
        match self.get(key) {
            Some(v) => v.as_str(),
            None => None,
        }
    }

    /// The truth value of the member `key`.
    pub fn get_bool(&self, key: &str) -> (r: Option<bool>)
        ensures
            r == self@.member_truth(key@),
    {
        match self.get(key) {
            Some(v) => v.as_bool(),
            None => None,
        }
    }
}

/// A member that a beginning of the list has is the one that the whole list has.
pub proof fn member_of_prefix(members: Seq<(Seq<char>, JsonView)>, n: int, key: Seq<char>)
    requires
        0 <= n <= members.len(),
        member_of(members.take(n), key) is Some,
    ensures
        member_of(members, key) == member_of(members.take(n), key),
    decreases members.len(),
{
    if n == members.len() {
        assert(members.take(n) =~= members);
    } else {
        assert(members.drop_last().take(n) =~= members.take(n));
        member_of_prefix(members.drop_last(), n, key);
    }
}

impl Clone for Json {
    fn clone(&self) -> (r: Json)
        ensures
            r@ == self@,
        decreases self,
    {
        match self {
            Json::Null => Json::Null,
            Json::Bool(b) => Json::Bool(*b),
            Json::Number(n) => Json::Number(*n),
            Json::Str(s) => Json::Str(s.clone()),
            Json::Array(items) => {
                let mut copy: Vec<Json> = Vec::new();
                let mut i: usize = 0;
                while i < items.len()
                    invariant
                        i <= items@.len(),
                        copy@.len() == i,
                        *self == Json::Array(*items),
                        forall|j: int| 0 <= j < i ==> (#[trigger] copy@[j])@ == items@[j]@,
                    decreases items@.len() - i,
                {
                    let item = &items[i];
                    assert(decreases_to!(*self => self->Array_0));
                    assert(decreases_to!(*items => items@));
                    assert(decreases_to!(items@ => items@[i as int]));
                    copy.push(item.clone());
                    i = i + 1;
                }
                proof {
                    array_model(*items);
                    array_model(copy);
                    assert(copy@.map_values(|j: Json| j@) =~= items@.map_values(|j: Json| j@));
                }
                Json::Array(copy)
            },
            Json::Object(members) => {
                let mut copy: Vec<(String, Json)> = Vec::new();
                let mut i: usize = 0;
                while i < members.len()
                    invariant
                        i <= members@.len(),
                        copy@.len() == i,
                        *self == Json::Object(*members),
                        forall|j: int|
                            0 <= j < i ==> (#[trigger] copy@[j]).0@ == members@[j].0@ && copy@[j].1@
                                == members@[j].1@,
                    decreases members@.len() - i,
                {
                    let value = &members[i].1;
                    assert(decreases_to!(*self => self->Object_0));
                    assert(decreases_to!(*members => members@));
                    assert(decreases_to!(members@ => members@[i as int]));
                    assert(decreases_to!(members@[i as int] => members@[i as int].1));
                    copy.push((members[i].0.clone(), value.clone()));
                    i = i + 1;
                }
                proof {
                    object_model(*members);
                    object_model(copy);
                    assert(members_view(copy@) =~= members_view(members@));
                }
                Json::Object(copy)
            },
        }
    }
}

/// A document as `serde_json` holds it.
#[verifier::external_type_specification]
#[verifier::external_body]
pub struct ExJsonValue(serde_json::Value);

/// Why `serde_json` could not read a text.
#[verifier::external_type_specification]
#[verifier::external_body]
pub struct ExJsonError(serde_json::Error);

/// Why `serde_yaml` could not read a text.
#[verifier::external_type_specification]
#[verifier::external_body]
pub struct ExYamlError(serde_yaml::Error);

/// The document that `serde_json` reads from a text, if it can.
pub uninterp spec fn json_value(t: Seq<char>) -> Option<serde_json::Value>;

/// The document that `serde_yaml` reads from a text, if it can.
pub uninterp spec fn yaml_value(t: Seq<char>) -> Option<serde_json::Value>;

/// What a document of `serde_json` holds.
pub uninterp spec fn value_contents(v: serde_json::Value) -> JsonView;

/// A hexadecimal digit.
pub open spec fn hex_digit(n: int) -> char {
    if n < 10 {
        ('0' as int + n) as char
    } else {
        ('a' as int + n - 10) as char
    }
}

/// A character in a JSON string: quotes, backslashes and control characters are escaped, the latter
/// by a letter where they have one, else by their number.
pub open spec fn escaped_char(c: char) -> Seq<char> {
    if c == '"' || c == '\\' {
        seq!['\\', c]
    } else if c == '\u{8}' {
        seq!['\\', 'b']
    } else if c == '\t' {
        seq!['\\', 't']
    } else if c == '\n' {
        seq!['\\', 'n']
    } else if c == '\u{c}' {
        seq!['\\', 'f']
    } else if c == '\r' {
        seq!['\\', 'r']
    } else if (c as int) < 32 {
        seq!['\\', 'u', '0', '0', hex_digit(c as int / 16), hex_digit(c as int % 16)]
    } else {
        seq![c]
    }
}

/// The characters of a JSON string.
pub open spec fn escaped_chars(s: Seq<char>) -> Seq<char>
    decreases s.len(),
{
    if s.len() == 0 {
        s
    } else {
        escaped_chars(s.drop_last()) + escaped_char(s.last())
    }
}

/// A string as a JSON text.
pub open spec fn json_literal(s: Seq<char>) -> Seq<char> {
    seq!['"'] + escaped_chars(s) + seq!['"']
}

/// Reads a text with `serde_json::from_str`; what comes out depends on the text alone.
#[verifier::external_body]
fn read_json_value(t: &str) -> (r: Result<serde_json::Value, serde_json::Error>)
    ensures
        match r {
            Ok(v) => json_value(t@) == Some(v),
            Err(_) => json_value(t@) is None,
        },
{
    serde_json::from_str::<serde_json::Value>(t)
}

/// Reads a text with `serde_yaml::from_str` into a document of `serde_json`; what comes out depends
/// on the text alone.
#[verifier::external_body]
fn read_yaml_value(t: &str) -> (r: Result<serde_json::Value, serde_yaml::Error>)
    ensures
        match r {
            Ok(v) => yaml_value(t@) == Some(v),
            Err(_) => yaml_value(t@) is None,
        },
{
    serde_yaml::from_str::<serde_json::Value>(t)
}

/// Takes a document of `serde_json` apart: every value becomes the plain value of the same kind, a
/// number becomes what `serde_json::Number::as_u64` gives of it, and the members of an object keep
/// the order in which `serde_json::Map` walks them.
#[verifier::external_body]
fn plain(v: serde_json::Value) -> (r: Json)
    ensures
        r@ == value_contents(v),
{
    match v {
        serde_json::Value::Null => Json::Null,
        serde_json::Value::Bool(b) => Json::Bool(b),
        serde_json::Value::Number(n) => Json::Number(n.as_u64()),
        serde_json::Value::String(s) => Json::Str(s),
        serde_json::Value::Array(a) => Json::Array(a.into_iter().map(plain).collect()),
        serde_json::Value::Object(m) => {
            Json::Object(m.into_iter().map(|(k, x)| (k, plain(x))).collect())
        },
    }
}

/// Writes a string as a JSON text with the `Display` of `serde_json::Value`: it stands between
/// quotes, with the characters escaped that JSON does not take as they are, and no others.
#[verifier::external_body]
pub(crate) fn quote(s: &str) -> (r: String)
    ensures
        r@ == json_literal(s@),
{
    serde_json::Value::String(s.to_string()).to_string()
}

/// What the document says that `serde_json` reads from a text, if it can.
pub open spec fn json_document(t: Seq<char>) -> Option<JsonView> {
    match json_value(t) {
        Some(v) => Some(value_contents(v)),
        None => None,
    }
}

/// What the document says that `serde_yaml` reads from a text, if it can.
pub open spec fn yaml_document(t: Seq<char>) -> Option<JsonView> {
    match yaml_value(t) {
        Some(v) => Some(value_contents(v)),
        None => None,
    }
}

/// Reads a JSON text.
pub fn parse_json(t: &str) -> (r: Option<Json>)
    ensures
        match r {
            Some(j) => json_document(t@) == Some(j@),
            None => json_document(t@) is None,
        },
{
    match read_json_value(t) {
        Ok(v) => Some(plain(v)),
        Err(_) => None,
    }
}

/// Reads a YAML text.
pub fn parse_yaml(t: &str) -> (r: Option<Json>)
    ensures
        match r {
            Some(j) => yaml_document(t@) == Some(j@),
            None => yaml_document(t@) is None,
        },
{
    match read_yaml_value(t) {
        Ok(v) => Some(plain(v)),
        Err(_) => None,
    }
}

/// Where a key stands in an object, the first member with it is the one that counts; where it does
/// not, there is none.
pub proof fn the_first_member_counts(members: Seq<(Seq<char>, JsonView)>, key: Seq<char>, k: int)
    requires
        0 <= k < members.len() && members[k].0 == key && (forall|j: int|
            0 <= j < k ==> (#[trigger] members[j]).0 != key) || (forall|j: int|
            0 <= j < members.len() ==> (#[trigger] members[j]).0 != key),
    ensures
        JsonView::Object(members).member(key) == (if 0 <= k < members.len() && members[k].0 == key {
            Some(members[k].1)
        } else {
            None
        }),
    decreases members.len(),
{
    if members.len() > 0 {
        let front = members.drop_last();
        assert(forall|j: int| 0 <= j < front.len() ==> front[j] == #[trigger] members[j]);
        if 0 <= k < front.len() && members[k].0 == key {
            the_first_member_counts(front, key, k);
        } else {
            the_first_member_counts(front, key, -1);
        }
    }
}

/// A value is taken for nothing but what it is, and only an object has members.
pub proof fn a_value_is_what_it_is(v: JsonView, key: Seq<char>)
    ensures
        v.as_text() == (match v {
            JsonView::Str(t) => Some(t),
            _ => None,
        }),
        v.as_truth() == (match v {
            JsonView::Bool(b) => Some(b),
            _ => None,
        }),
        v.as_count() == (match v {
            JsonView::Number(n) => n,
            _ => None,
        }),
        v.member(key) is Some ==> v is Object,
        v.member_text(key) is Some <==> v.member(key) is Some && v.member(key)->0 is Str,
        v.member_text(key) is Some ==> v.member(key)->0 == JsonView::Str(v.member_text(key)->0),
        v.member_truth(key) is Some <==> v.member(key) is Some && v.member(key)->0 is Bool,
        v.member_truth(key) is Some ==> v.member(key)->0 == JsonView::Bool(v.member_truth(key)->0),
{
}

/// A string is written character by character between quotes: each part of it as it is alone; quotes,
/// backslashes and control characters begin with a backslash, and every other character stands for
/// itself.
pub proof fn how_a_string_is_written(a: Seq<char>, b: Seq<char>, c: char)
    ensures
        json_literal(a) == seq!['"'] + escaped_chars(a) + seq!['"'],
        escaped_chars(a + b) == escaped_chars(a) + escaped_chars(b),
        c != '"' && c != '\\' && (c as int) >= 32 ==> escaped_chars(seq![c]) == seq![c],
        c == '"' || c == '\\' ==> escaped_chars(seq![c]) == seq!['\\', c],
        (c as int) < 32 ==> escaped_chars(seq![c]).len() >= 2 && escaped_chars(seq![c])[0] == '\\',
{
    parts_are_written(a, b);
    assert(seq![c].drop_last() =~= Seq::<char>::empty());
    assert(escaped_chars(Seq::<char>::empty()) =~= Seq::<char>::empty());
    assert(escaped_chars(seq![c]) =~= escaped_char(c));
}

proof fn parts_are_written(a: Seq<char>, b: Seq<char>)
    ensures
        escaped_chars(a + b) == escaped_chars(a) + escaped_chars(b),
    decreases b.len(),
{
    if b.len() == 0 {
        assert(a + b =~= a);
        assert(escaped_chars(a) + escaped_chars(b) =~= escaped_chars(a));
    } else {
        parts_are_written(a, b.drop_last());
        assert((a + b).drop_last() =~= a + b.drop_last());
        assert((a + b).last() == b.last());
        assert(escaped_chars(a) + escaped_chars(b.drop_last()) + escaped_char(b.last())
            =~= escaped_chars(a) + (escaped_chars(b.drop_last()) + escaped_char(b.last())));
    }
}

} // verus!
