//! JSON values, as far as the extensions read and write them.
use vstd::prelude::*;

use crate::text::same;

verus! {

/// A JSON value. A number is known where it is an unsigned 64-bit integer.
#[derive(Debug, PartialEq, Eq)]
pub enum Json {
    Null,
    Bool(bool),
    Number(Option<u64>),
    Text(String),
    Array(Vec<Json>),
    Object(Vec<(String, Json)>),
}

/// The first member called `key` among `members`.
pub open spec fn member(members: Seq<(String, Json)>, key: Seq<char>) -> Option<Json>
    decreases members.len(),
{
    if members.len() == 0 {
        None
    } else if members[0].0@ == key {
        Some(members[0].1)
    } else {
        member(members.skip(1), key)
    }
}

/// The member of `j` called `key`, if `j` is an object that has it.
pub open spec fn field(j: Json, key: Seq<char>) -> Option<Json> {
    match j {
        Json::Object(members) => member(members@, key),
        _ => None,
    }
}

/// The text of the member of `j` called `key`, if it is one.
pub open spec fn text_field(j: Json, key: Seq<char>) -> Option<Seq<char>> {
    match field(j, key) {
        Some(Json::Text(t)) => Some(t@),
        _ => None,
    }
}

/// The text of a member, or the empty text.
pub open spec fn text_field_or_empty(j: Json, key: Seq<char>) -> Seq<char> {
    match text_field(j, key) {
        Some(t) => t,
        None => seq![],
    }
}

/// The text of a member, if it is not empty.
pub open spec fn nonempty_text_field(j: Json, key: Seq<char>) -> Option<Seq<char>> {
    match text_field(j, key) {
        Some(t) => if t.len() > 0 {
            Some(t)
        } else {
            None
        },
        None => None,
    }
}

/// Whether the member of `j` called `key` is `true`.
pub open spec fn true_field(j: Json, key: Seq<char>) -> bool {
    field(j, key) == Some(Json::Bool(true))
}

/// The integer value of the member of `j` called `key`, if it has one.
pub open spec fn number_field(j: Json, key: Seq<char>) -> Option<u64> {
    match field(j, key) {
        Some(Json::Number(n)) => n,
        _ => None,
    }
}

/// The elements of the member of `j` called `key`; none if it is no array.
pub open spec fn array_field(j: Json, key: Seq<char>) -> Seq<Json> {
    match field(j, key) {
        Some(Json::Array(items)) => items@,
        _ => seq![],
    }
}

impl Json {
    /// The member called `key`, if this is an object that has it.
    pub fn get(&self, key: &str) -> (r: Option<&Json>)
        ensures
            match r {
                Some(v) => field(*self, key@) == Some(*v),
                None => field(*self, key@) is None,
            },
    {
        match self {
            Json::Object(members) => {
                let mut i: usize = 0;
                assert(members@.skip(0) =~= members@);
                while i < members.len()
                    invariant
                        i <= members@.len(),
                        field(*self, key@) == member(members@, key@),
                        member(members@, key@) == member(members@.skip(i as int), key@),
                    decreases members.len() - i,
                {
                    assert(members@.skip(i as int).skip(1) =~= members@.skip(i + 1));
                    if same(members[i].0.as_str(), key) {
                        return Some(&members[i].1);
                    }
                    i = i + 1;
                }
                None
            },
            _ => None,
        }
    }

    /// The text of the member called `key`, if it is one.
    pub fn get_text(&self, key: &str) -> (r: Option<String>)
        ensures
            r.deep_view() == text_field(*self, key@),
    {
        match self.get(key) {
            Some(Json::Text(t)) => Some(t.clone()),
            _ => None,
        }
    }

    /// The text of the member called `key`, or the empty text.
    pub fn get_text_or_empty(&self, key: &str) -> (r: String)
        ensures
            r@ == text_field_or_empty(*self, key@),
    {
        match self.get_text(key) {
            Some(t) => t,
            None => String::new(),
        }
    }

    /// The text of the member called `key`, if it is not empty.
    pub fn get_nonempty_text(&self, key: &str) -> (r: Option<String>)
        ensures
            r.deep_view() == nonempty_text_field(*self, key@),
    {
        match self.get_text(key) {
            Some(t) => if t.as_str().is_empty() {
                None
            } else {
                Some(t)
            },
            None => None,
        }
    }

    /// Whether the member called `key` is `true`.
    pub fn get_true(&self, key: &str) -> (r: bool)
        ensures
            r == true_field(*self, key@),
    {
        match self.get(key) {
            Some(Json::Bool(b)) => *b,
            _ => false,
        }
    }

    /// The integer value of the member called `key`, if it has one.
    pub fn get_number(&self, key: &str) -> (r: Option<u64>)
        ensures
            r == number_field(*self, key@),
    {
        match self.get(key) {
            Some(Json::Number(n)) => *n,
            _ => None,
        }
    }

    /// The elements of the member called `key`, if it is an array.
    pub fn get_array(&self, key: &str) -> (r: Option<&Vec<Json>>)
        ensures
            array_field(*self, key@) == (match r {
                Some(items) => items@,
                None => seq![],
            }),
    {
        match self.get(key) {
            Some(Json::Array(items)) => Some(items),
            _ => None,
        }
    }
}

// ---------------------------------------------------------------------------
// JSON text
// ---------------------------------------------------------------------------

/// The compact JSON text of the object with these members, inserted in order.
pub uninterp spec fn object_text(members: Seq<(Seq<char>, Seq<char>)>) -> Seq<char>;

/// The text of the member `key` of the object that a JSON text holds, if it is
/// a string.
pub uninterp spec fn member_text(json: Seq<char>, key: Seq<char>) -> Option<Seq<char>>;

/// `serde_json::Value::to_string` on an object whose members, all strings, were
/// put in one after the other with `serde_json::Map::insert`. The text is a
/// function of the members alone, and reading a member back gives what was put
/// in last under its key. How the members are ordered and escaped in the text is
/// not spelled out.
#[verifier::external_body]
pub(crate) fn write_object(members: Vec<(String, String)>) -> (r: String)
    ensures
        r@ == object_text(members.deep_view()),
        forall|i: int|
            0 <= i < members@.len() && (forall|j: int|
                i < j < members@.len() ==> #[trigger] members@[j].0@ != members@[i].0@)
                ==> member_text(r@, (#[trigger] members@[i]).0@) == Some(members@[i].1@),
{
    let mut map = serde_json::Map::new();
    for (key, value) in members {
        map.insert(key, serde_json::Value::String(value));
    }
    serde_json::Value::Object(map).to_string()
}

/// `serde_json::from_str` into a `serde_json::Value`, then its member `key` as
/// a string. There is none where the text is no JSON, the value is no object or
/// the member is absent or no string. What it is depends on the text and the
/// key alone; the grammar of JSON is not spelled out.
#[verifier::external_body]
pub(crate) fn read_member(json: &str, key: &str) -> (r: Option<String>)
    ensures
        r.deep_view() == member_text(json@, key@),
{
    let value = serde_json::from_str::<serde_json::Value>(json).ok()?;
    value.get(key)?.as_str().map(str::to_string)
}

/// A member of an object is found under its key, the first of several; what is no
/// object has none.
pub proof fn law_member_is_found(
    before: Seq<(String, Json)>,
    key: String,
    value: Json,
    after: Seq<(String, Json)>,
    members: Vec<(String, Json)>,
)
    requires
        forall|i: int| 0 <= i < before.len() ==> (#[trigger] before[i]).0@ != key@,
        members@ == before + seq![(key, value)] + after,
    ensures
        field(Json::Object(members), key@) == Some(value),
        field(value, key@) is Some ==> value is Object,
{
    lemma_member(before, key, value, after);
}

proof fn lemma_member(
    before: Seq<(String, Json)>,
    key: String,
    value: Json,
    after: Seq<(String, Json)>,
)
    requires
        forall|i: int| 0 <= i < before.len() ==> (#[trigger] before[i]).0@ != key@,
    ensures
        member(before + seq![(key, value)] + after, key@) == Some(value),
        member(before, key@) is None,
    decreases before.len(),
{
    let all = before + seq![(key, value)] + after;
    if before.len() > 0 {
        let less = before.skip(1);
        assert(before[0].0@ != key@);
        assert forall|i: int| 0 <= i < less.len() implies (#[trigger] less[i]).0@ != key@ by {
            assert(less[i] == before[i + 1]);
        }
        lemma_member(less, key, value, after);
        assert(all.skip(1) =~= less + seq![(key, value)] + after);
        assert(all[0] == before[0]);
    } else {
        assert(all[0] == (key, value));
    }
}

/// A member is read as what it is: a text as a text, true as true, a number as a
/// number, a list as a list; anything else is not there.
pub proof fn law_members_are_read_by_type(j: Json, key: Seq<char>)
    ensures
        field(j, key) matches Some(Json::Text(t)) ==> text_field(j, key) == Some(t@)
            && text_field_or_empty(j, key) == t@ && (t@.len() > 0 ==> nonempty_text_field(j, key)
            == Some(t@)) && (t@.len() == 0 ==> nonempty_text_field(j, key) is None),
        !(field(j, key) matches Some(Json::Text(_))) ==> text_field(j, key) is None
            && text_field_or_empty(j, key).len() == 0 && nonempty_text_field(j, key) is None,
        true_field(j, key) <==> field(j, key) == Some(Json::Bool(true)),
        field(j, key) matches Some(Json::Number(n)) ==> number_field(j, key) == n,
        !(field(j, key) matches Some(Json::Number(_))) ==> number_field(j, key) is None,
        field(j, key) matches Some(Json::Array(items)) ==> array_field(j, key) == items@,
        !(field(j, key) matches Some(Json::Array(_))) ==> array_field(j, key).len() == 0,
{
}

} // verus!
