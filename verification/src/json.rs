//! JSON values as plain data. Reading and writing JSON text is the work of
//! `serde_json`; everything that is decided on a value is decided here.
use serde_json::Value;
use vstd::prelude::*;

use crate::text::{concat2, copy_text, decimal_text, same_text};
use crate::text::{decimal, texts};

verus! {

/// A JSON value. A number is a whole number, or a fraction by its text. The
/// members of an object stand in the order of their keys.
#[derive(Debug, PartialEq)]
pub enum Json {
    Null,
    Bool(bool),
    Unsigned(u64),
    Negative(i64),
    Float(String),
    Str(String),
    Array(Vec<Json>),
    Object(Vec<Member>),
}

/// A member of an object.
#[derive(Debug, PartialEq)]
pub struct Member {
    pub key: String,
    pub value: Json,
}

/// A JSON value with its texts as characters.
pub enum JsonView {
    Null,
    Bool(bool),
    Unsigned(u64),
    Negative(i64),
    Float(Seq<char>),
    Str(Seq<char>),
    Array(Seq<JsonView>),
    Object(Seq<(Seq<char>, JsonView)>),
}

impl Json {
    /// The value, with the values in it.
    pub open spec fn tree(&self) -> JsonView
        decreases self,
    {
        match *self {
            Json::Null => JsonView::Null,
            Json::Bool(b) => JsonView::Bool(b),
            Json::Unsigned(n) => JsonView::Unsigned(n),
            Json::Negative(n) => JsonView::Negative(n),
            Json::Float(t) => JsonView::Float(t@),
            Json::Str(s) => JsonView::Str(s@),
            Json::Array(items) => JsonView::Array(
                Seq::new(
                    items@.len(),
                    |i: int|
                        if 0 <= i < items@.len() {
                            items@[i].tree()
                        } else {
                            JsonView::Null
                        },
                ),
            ),
            Json::Object(members) => JsonView::Object(
                Seq::new(
                    members@.len(),
                    |i: int|
                        if 0 <= i < members@.len() {
                            (members@[i].key@, members@[i].value.tree())
                        } else {
                            (Seq::empty(), JsonView::Null)
                        },
                ),
            ),
        }
    }
}

impl View for Json {
    type V = JsonView;

    open spec fn view(&self) -> JsonView {
        self.tree()
    }
}

/// The values of a list.
pub open spec fn json_items(v: Seq<Json>) -> Seq<JsonView> {
    Seq::new(v.len(), |i: int| v[i]@)
}

/// The members of an object.
pub open spec fn json_members(v: Seq<Member>) -> Seq<(Seq<char>, JsonView)> {
    Seq::new(v.len(), |i: int| (v[i].key@, v[i].value@))
}

pub proof fn lemma_json_view(j: Json)
    ensures
        match j {
            Json::Array(items) => j@ == JsonView::Array(json_items(items@)),
            Json::Object(members) => j@ == JsonView::Object(json_members(members@)),
            _ => true,
        },
{
    match j {
        Json::Array(items) => {
            assert(j@->Array_0 =~= json_items(items@));
        },
        Json::Object(members) => {
            assert(j@->Object_0 =~= json_members(members@));
        },
        _ => {},
    }
}

// ---------------------------------------------------------------------------
// Reading and writing text
// ---------------------------------------------------------------------------

/// Why a text is not JSON, and at which column of its line (counted in bytes)
/// that shows.
#[derive(Debug)]
pub struct JsonError {
    pub message: String,
    pub column: usize,
}

pub open spec fn parse_result(r: Result<Json, JsonError>) -> Result<JsonView, (Seq<char>, nat)> {
    match r {
        Ok(j) => Ok(j@),
        Err(e) => Err((e.message@, e.column as nat)),
    }
}

/// The JSON values of `serde_json`.
#[verifier::external_type_specification]
#[verifier::external_body]
pub struct ExValue(serde_json::Value);

/// What `serde_json::from_str` makes of a text: the value, or the words of its
/// error and the error's column.
pub uninterp spec fn json_parsed(text: Seq<char>) -> Result<JsonView, (Seq<char>, nat)>;

/// The compact text that `serde_json::Value::to_string` gives a value.
pub uninterp spec fn json_text(value: JsonView) -> Seq<char>;

/// The indented text that `serde_json::to_string_pretty` gives a value.
pub uninterp spec fn json_pretty(value: JsonView) -> Seq<char>;

/// Changes a value of `serde_json` to a value of this library, variant by
/// variant.
#[verifier::external_body]
fn from_value(value: &Value) -> Json {
    match value {
        Value::Null => Json::Null,
        Value::Bool(b) => Json::Bool(*b),
        Value::Number(n) => match (n.as_u64(), n.as_i64()) {
            (Some(u), _) => Json::Unsigned(u),
            (None, Some(i)) => Json::Negative(i),
            (None, None) => Json::Float(n.to_string()),
        },
        Value::String(s) => Json::Str(s.clone()),
        Value::Array(items) => Json::Array(items.iter().map(from_value).collect()),
        Value::Object(map) => Json::Object(
            map.iter().map(|(k, v)| Member { key: k.clone(), value: from_value(v) }).collect(),
        ),
    }
}

/// Changes a value of this library to a value of `serde_json`, variant by
/// variant.
#[verifier::external_body]
fn to_value(value: &Json) -> Value {
    match value {
        Json::Null => Value::Null,
        Json::Bool(b) => Value::from(*b),
        Json::Unsigned(n) => Value::from(*n),
        Json::Negative(n) => Value::from(*n),
        Json::Float(t) => t.parse().map_or(Value::Null, Value::Number),
        Json::Str(s) => Value::from(s.as_str()),
        Json::Array(items) => Value::Array(items.iter().map(to_value).collect()),
        Json::Object(members) => Value::Object(
            members.iter().map(|m| (m.key.clone(), to_value(&m.value))).collect(),
        ),
    }
}

/// `serde_json::from_str`: the result is a function of the text alone, and a
/// text that starts with a brace is an object where it is JSON at all.
#[verifier::external_body]
pub(crate) fn parse_json(text: &str) -> (r: Result<Json, JsonError>)
    ensures
        parse_result(r) == json_parsed(text@),
        text@.len() > 0 && text@[0] == '{' && r is Ok ==> r->Ok_0@ is Object,
{
    match serde_json::from_str::<serde_json::Value>(text) {
        Ok(value) => Ok(from_value(&value)),
        Err(err) => Err(JsonError { message: err.to_string(), column: err.column() }),
    }
}

/// `serde_json::Value::to_string`: the result is a function of the value alone.
#[verifier::external_body]
pub(crate) fn render_json(value: &Json) -> (r: String)
    ensures
        r@ == json_text(value@),
{
    to_value(value).to_string()
}

/// `serde_json::to_string_pretty`: the result is a function of the value alone.
/// It cannot fail on a JSON value.
#[verifier::external_body]
pub(crate) fn render_json_pretty(value: &Json) -> (r: String)
    ensures
        r@ == json_pretty(value@),
{
    serde_json::to_string_pretty(&to_value(value)).unwrap_or_default()
}

/// The text of a negative number.
pub open spec fn signed_text(n: int) -> Seq<char> {
    if n < 0 {
        "-"@ + decimal((-n) as nat)
    } else {
        decimal(n as nat)
    }
}

/// The decimal text of a signed number.
pub fn signed_to_text(n: i64) -> (r: String)
    ensures
        r@ == signed_text(n as int),
{
    if n < 0 {
        let size: u64 = (-(n + 1)) as u64 + 1;
        concat2("-", decimal_text(size).as_str())
    } else {
        decimal_text(n as u64)
    }
}

// ---------------------------------------------------------------------------
// Looking into a value
// ---------------------------------------------------------------------------

/// The value of a key, from member `k` on.
pub open spec fn member_from(members: Seq<(Seq<char>, JsonView)>, key: Seq<char>, k: int) -> Option<
    JsonView,
>
    decreases members.len() - k,
{
    if k < 0 || k >= members.len() {
        None
    } else if members[k].0 == key {
        Some(members[k].1)
    } else {
        member_from(members, key, k + 1)
    }
}

/// The value of a key of an object.
pub open spec fn member(value: JsonView, key: Seq<char>) -> Option<JsonView> {
    match value {
        JsonView::Object(members) => member_from(members, key, 0),
        _ => None,
    }
}

/// The item at an index of an array.
pub open spec fn item(value: JsonView, i: int) -> Option<JsonView> {
    match value {
        JsonView::Array(items) => if 0 <= i < items.len() {
            Some(items[i])
        } else {
            None
        },
        _ => None,
    }
}

/// The text of a string.
pub open spec fn string_of(value: JsonView) -> Option<Seq<char>> {
    match value {
        JsonView::Str(s) => Some(s),
        _ => None,
    }
}

/// The whole number that a value is.
pub open spec fn unsigned_of(value: JsonView) -> Option<u64> {
    match value {
        JsonView::Unsigned(n) => Some(n),
        _ => None,
    }
}

/// The text of a member that is a string.
pub open spec fn string_member(value: JsonView, key: Seq<char>) -> Option<Seq<char>> {
    match member(value, key) {
        Some(v) => string_of(v),
        None => None,
    }
}

pub open spec fn opt_ref(o: Option<&Json>) -> Option<JsonView> {
    match o {
        Some(j) => Some(j@),
        None => None,
    }
}

pub open spec fn opt_ref_str(o: Option<&String>) -> Option<Seq<char>> {
    match o {
        Some(s) => Some(s@),
        None => None,
    }
}

impl Json {
    /// The value of a key, where this is an object that has it.
    pub fn get(&self, key: &str) -> (r: Option<&Json>)
        ensures
            opt_ref(r) == member(self@, key@),
    {
        proof {
            lemma_json_view(*self);
        }
        match self {
            Json::Object(members) => {
                let ghost list = json_members(members@);
                let mut k: usize = 0;
                while k < members.len()
                    invariant
                        list == json_members(members@),
                        self@ == JsonView::Object(list),
                        member_from(list, key@, 0) == member_from(list, key@, k as int),
                    decreases members.len() - k,
                {
                    assert(list[k as int] == (members@[k as int].key@, members@[k as int].value@));
                    if same_text(members[k].key.as_str(), key) {
                        return Some(&members[k].value);
                    }
                    k += 1;
                }
                None
            },
            _ => None,
        }
    }

    /// The item at an index, where this is an array that has it.
    pub fn at(&self, i: usize) -> (r: Option<&Json>)
        ensures
            opt_ref(r) == item(self@, i as int),
    {
        proof {
            lemma_json_view(*self);
        }
        match self {
            Json::Array(items) => {
                if i < items.len() {
                    assert(json_items(items@)[i as int] == items@[i as int]@);
                    Some(&items[i])
                } else {
                    None
                }
            },
            _ => None,
        }
    }

    pub fn as_str(&self) -> (r: Option<&String>)
        ensures
            opt_ref_str(r) == string_of(self@),
    {
        match self {
            Json::Str(s) => Some(s),
            _ => None,
        }
    }

    pub fn as_u64(&self) -> (r: Option<u64>)
        ensures
            r == unsigned_of(self@),
    {
        match self {
            Json::Unsigned(n) => Some(*n),
            _ => None,
        }
    }

    /// The text of a member that is a string.
    pub fn get_str(&self, key: &str) -> (r: Option<&String>)
        ensures
            opt_ref_str(r) == string_member(self@, key@),
    {
        match self.get(key) {
            Some(v) => v.as_str(),
            None => None,
        }
    }

    pub fn is_null(&self) -> (r: bool)
        ensures
            r == (self@ is Null),
    {
        match self {
            Json::Null => true,
            _ => false,
        }
    }

    pub fn is_array(&self) -> (r: bool)
        ensures
            r == (self@ is Array),
    {
        match self {
            Json::Array(_) => true,
            _ => false,
        }
    }

    /// A copy of the value.
    pub fn copy(&self) -> (r: Json)
        ensures
            r@ == self@,
        decreases self,
    {
        proof {
            lemma_json_view(*self);
        }
        match self {
            Json::Null => Json::Null,
            Json::Bool(b) => Json::Bool(*b),
            Json::Unsigned(n) => Json::Unsigned(*n),
            Json::Negative(n) => Json::Negative(*n),
            Json::Float(t) => Json::Float(copy_text(t.as_str())),
            Json::Str(s) => Json::Str(copy_text(s.as_str())),
            Json::Array(items) => {
                let mut out: Vec<Json> = Vec::new();
                let mut i: usize = 0;
                while i < items.len()
                    invariant
                        i <= items.len(),
                        decreases_to!(self => items@),
                        json_items(out@) == json_items(items@).take(i as int),
                    decreases items.len() - i,
                {
                    assert(decreases_to!(items@ => items@[i as int]));
                    let one = items[i].copy();
                    let ghost before = json_items(out@);
                    out.push(one);
                    assert(json_items(out@) =~= before.push(one@));
                    i += 1;
                    assert(json_items(out@) =~= json_items(items@).take(i as int));
                }
                assert(json_items(out@) =~= json_items(items@));
                let r = Json::Array(out);
                proof {
                    lemma_json_view(r);
                }
                r
            },
            Json::Object(members) => {
                let mut out: Vec<Member> = Vec::new();
                let mut i: usize = 0;
                while i < members.len()
                    invariant
                        i <= members.len(),
                        decreases_to!(self => members@),
                        json_members(out@) == json_members(members@).take(i as int),
                    decreases members.len() - i,
                {
                    assert(decreases_to!(members@ => members@[i as int]));
                    assert(decreases_to!(members@[i as int] => members@[i as int].value));
                    let one = Member {
                        key: copy_text(members[i].key.as_str()),
                        value: members[i].value.copy(),
                    };
                    let ghost before = json_members(out@);
                    out.push(one);
                    assert(json_members(out@) =~= before.push((one.key@, one.value@)));
                    i += 1;
                    assert(json_members(out@) =~= json_members(members@).take(i as int));
                }
                assert(json_members(out@) =~= json_members(members@));
                let r = Json::Object(out);
                proof {
                    lemma_json_view(r);
                }
                r
            },
        }
    }
}

// ---------------------------------------------------------------------------
// Laws
// ---------------------------------------------------------------------------

/// An object in which one member, and no other, is named `key`, and has the
/// value `v`.
pub open spec fn holds(value: JsonView, key: Seq<char>, v: JsonView) -> bool {
    &&& value is Object
    &&& exists|i: int| #![trigger value->Object_0[i]]
        0 <= i < value->Object_0.len() && value->Object_0[i] == (key, v)
    &&& forall|i: int, j: int|
        0 <= i < value->Object_0.len() && 0 <= j < value->Object_0.len() && (
        #[trigger] value->Object_0[i]).0 == key && (#[trigger] value->Object_0[j]).0 == key ==> i
            == j
}

/// No member is named `key`.
pub open spec fn lacks(value: JsonView, key: Seq<char>) -> bool {
    value is Object ==> forall|i: int|
        0 <= i < value->Object_0.len() ==> (#[trigger] value->Object_0[i]).0 != key
}

proof fn lemma_member_from(members: Seq<(Seq<char>, JsonView)>, key: Seq<char>, k: int, i: int)
    requires
        0 <= k <= i < members.len(),
        members[i].0 == key,
        forall|j: int| 0 <= j < members.len() && (#[trigger] members[j]).0 == key ==> j == i,
    ensures
        member_from(members, key, k) == Some(members[i].1),
    decreases i - k,
{
    if k < i {
        assert(members[k].0 != key);
        lemma_member_from(members, key, k + 1, i);
    }
}

proof fn lemma_no_member_from(members: Seq<(Seq<char>, JsonView)>, key: Seq<char>, k: int)
    requires
        0 <= k <= members.len(),
        forall|j: int| 0 <= j < members.len() ==> (#[trigger] members[j]).0 != key,
    ensures
        member_from(members, key, k) is None,
    decreases members.len() - k,
{
    if k < members.len() {
        assert(members[k].0 != key);
        lemma_no_member_from(members, key, k + 1);
    }
}

/// A member is found by its name, wherever it stands, and with the value that it
/// has; a name that no member has is not found.
pub proof fn law_members_are_found_by_name(value: JsonView, key: Seq<char>, v: JsonView)
    ensures
        holds(value, key, v) ==> member(value, key) == Some(v),
        lacks(value, key) ==> member(value, key) is None,
{
    if holds(value, key, v) {
        let members = value->Object_0;
        let i = choose|i: int| #![trigger value->Object_0[i]]
            0 <= i < value->Object_0.len() && value->Object_0[i] == (key, v);
        assert forall|j: int|
            0 <= j < members.len() && (#[trigger] members[j]).0 == key implies j == i by {
            assert(members[i].0 == key);
        }
        lemma_member_from(members, key, 0, i);
    }
    if lacks(value, key) && value is Object {
        lemma_no_member_from(value->Object_0, key, 0);
    }
}

/// A text is read as the text that it is, and only a text is.
pub proof fn law_text_members_are_read_as_they_are(value: JsonView, key: Seq<char>, text: Seq<char>)
    ensures
        holds(value, key, JsonView::Str(text)) ==> string_member(value, key) == Some(text),
        lacks(value, key) ==> string_member(value, key) is None,
        holds(value, key, JsonView::Null) ==> string_member(value, key) is None,
{
    law_members_are_found_by_name(value, key, JsonView::Str(text));
    law_members_are_found_by_name(value, key, JsonView::Null);
}

} // verus!
