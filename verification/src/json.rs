//! JSON values, and their reading and printing by `serde_json`.

use vstd::prelude::*;

use crate::error::{Error, Fault};
use crate::table::{
    ascending, entry_is_found, key_is_first, lookup, on_values, on_values_commutes, place_from,
    place_is_first, put, Table,
};

verus! {

/// A number of `serde_json`, held where it is no integer.
#[verifier::external_type_specification]
#[verifier::external_body]
pub struct ExNumber(serde_json::Number);

/// A value of `serde_json`, from reading to conversion and from conversion to
/// printing.
#[verifier::external_type_specification]
#[verifier::external_body]
pub struct ExValue(serde_json::Value);

// ---------------------------------------------------------------------------
// The model
// ---------------------------------------------------------------------------

/// A JSON number that is no integer of 64 bits. Only reading JSON and reading a
/// number make one, so that it always holds a finite floating point number.
#[derive(Debug, PartialEq)]
pub struct Float {
    number: serde_json::Number,
}

/// A JSON number.
#[derive(Debug, PartialEq)]
pub enum JsonNumber {
    /// An integer from zero on.
    PosInt(u64),
    /// An integer below zero.
    NegInt(i64),
    /// Any other number.
    Float(Float),
}

/// What a JSON value is: the mathematical model of [`Json`].
pub enum JsonV {
    Null,
    Bool(bool),
    Number(JsonNumber),
    Text(Seq<char>),
    Array(Seq<JsonV>),
    /// The members in the order of their names.
    Object(Seq<(Seq<char>, JsonV)>),
}

impl JsonV {
    /// Whether the members of every object stand in the order of their names,
    /// each name once, and integers are told apart by their sign.
    pub open spec fn wf(self) -> bool
        decreases self,
    {
        match self {
            JsonV::Number(JsonNumber::NegInt(i)) => i < 0,
            JsonV::Array(items) => forall|i: int| 0 <= i < items.len() ==> (#[trigger] items[i]).wf(),
            JsonV::Object(members) => ascending(members) && forall|i: int|
                0 <= i < members.len() ==> (#[trigger] members[i]).1.wf(),
            _ => true,
        }
    }

    /// The member of an object that has the given name.
    pub open spec fn get(self, key: Seq<char>) -> Option<JsonV> {
        match self {
            JsonV::Object(members) => lookup(members, key),
            _ => None,
        }
    }

    /// The text of a string.
    pub open spec fn as_text(self) -> Option<Seq<char>> {
        match self {
            JsonV::Text(s) => Some(s),
            _ => None,
        }
    }

    /// The items of an array.
    pub open spec fn as_array(self) -> Option<Seq<JsonV>> {
        match self {
            JsonV::Array(items) => Some(items),
            _ => None,
        }
    }

    /// The members of an object.
    pub open spec fn as_object(self) -> Option<Seq<(Seq<char>, JsonV)>> {
        match self {
            JsonV::Object(members) => Some(members),
            _ => None,
        }
    }

    /// The value of an integer from zero on.
    pub open spec fn as_u64(self) -> Option<u64> {
        match self {
            JsonV::Number(JsonNumber::PosInt(n)) => Some(n),
            _ => None,
        }
    }

    /// The value of an integer in the signed range of 64 bits.
    pub open spec fn as_i64(self) -> Option<i64> {
        match self {
            JsonV::Number(JsonNumber::PosInt(n)) => if n <= i64::MAX {
                Some(n as i64)
            } else {
                None
            },
            JsonV::Number(JsonNumber::NegInt(i)) => Some(i),
            _ => None,
        }
    }

    /// The text of the member that has the given name.
    pub open spec fn text_at(self, key: Seq<char>) -> Option<Seq<char>> {
        match self.get(key) {
            Some(v) => v.as_text(),
            None => None,
        }
    }

    /// The items of the array that is the member with the given name.
    pub open spec fn array_at(self, key: Seq<char>) -> Option<Seq<JsonV>> {
        match self.get(key) {
            Some(v) => v.as_array(),
            None => None,
        }
    }

    /// The member `b` of the member `a`.
    pub open spec fn get2(self, a: Seq<char>, b: Seq<char>) -> Option<JsonV> {
        match self.get(a) {
            Some(v) => v.get(b),
            None => None,
        }
    }

    /// Whether the member that has the given name is `true`.
    pub open spec fn true_at(self, key: Seq<char>) -> bool {
        self.get(key) == Some(JsonV::Bool(true))
    }
}

/// A JSON value. The members of an object stand in the order of their names.
#[derive(Debug, PartialEq)]
pub enum Json {
    Null,
    Bool(bool),
    Number(JsonNumber),
    Text(String),
    Array(Vec<Json>),
    Object(Table<Json>),
}

impl View for Json {
    type V = JsonV;

    open spec fn view(&self) -> JsonV
        decreases self,
    {
        match self {
            Json::Null => JsonV::Null,
            Json::Bool(b) => JsonV::Bool(*b),
            Json::Number(n) => JsonV::Number(*n),
            Json::Text(s) => JsonV::Text(s@),
            Json::Array(items) => JsonV::Array(
                Seq::new(
                    items@.len(),
                    |i: int|
                        if 0 <= i < items@.len() {
                            items@[i].view()
                        } else {
                            JsonV::Null
                        },
                ),
            ),
            Json::Object(table) => JsonV::Object(
                Seq::new(
                    table.entries@.len(),
                    |i: int|
                        if 0 <= i < table.entries@.len() {
                            (table.entries@[i].0@, table.entries@[i].1.view())
                        } else {
                            (Seq::empty(), JsonV::Null)
                        },
                ),
            ),
        }
    }
}

/// The views of the values of a vector.
pub open spec fn json_views(items: Seq<Json>) -> Seq<JsonV> {
    items.map_values(|j: Json| j@)
}

/// The members of an object, by their views.
pub open spec fn members_view(table: Seq<(Seq<char>, Json)>) -> Seq<(Seq<char>, JsonV)> {
    on_values(table, |j: Json| j@)
}

/// The view of an optional value.
pub open spec fn opt_json(value: Option<Json>) -> Option<JsonV> {
    match value {
        Some(v) => Some(v@),
        None => None,
    }
}

/// The view of an optional reference to a value.
pub open spec fn opt_ref(value: Option<&Json>) -> Option<JsonV> {
    match value {
        Some(v) => Some(v@),
        None => None,
    }
}

/// An array is viewed item by item.
pub proof fn array_view(items: Vec<Json>)
    ensures
        Json::Array(items)@ == JsonV::Array(json_views(items@)),
{
    reveal_with_fuel(<Json as View>::view, 2);
    let v = Json::Array(items)@;
    assert(v is Array);
    assert(v->Array_0 =~= json_views(items@));
}

/// An object is viewed member by member.
pub proof fn object_view(table: Table<Json>)
    ensures
        Json::Object(table)@ == JsonV::Object(members_view(table@)),
{
    reveal_with_fuel(<Json as View>::view, 2);
    let v = Json::Object(table)@;
    assert(v is Object);
    assert(v->Object_0 =~= members_view(table@));
}

// ---------------------------------------------------------------------------
// Reading a value
// ---------------------------------------------------------------------------

impl Json {
    /// The member of an object that has the given name.
    pub fn get(&self, key: &str) -> (r: Option<&Json>)
        ensures
            opt_ref(r) == self@.get(key@),
    {
        match self {
            Json::Object(table) => {
                proof {
                    object_view(*table);
                    on_values_commutes(table@, |j: Json| j@, key@, Json::Null);
                }
                table.get(key)
            },
            _ => None,
        }
    }

    /// The text of a string.
    pub fn as_text(&self) -> (r: Option<&str>)
        ensures
            crate::text::opt_str(r) == self@.as_text(),
    {
        match self {
            Json::Text(s) => Some(s.as_str()),
            _ => None,
        }
    }

    /// The items of an array.
    pub fn as_array(&self) -> (r: Option<&Vec<Json>>)
        ensures
            match r {
                Some(items) => self@.as_array() == Some(json_views(items@)),
                None => self@.as_array() is None,
            },
    {
        match self {
            Json::Array(items) => {
                proof {
                    array_view(*items);
                }
                Some(items)
            },
            _ => None,
        }
    }

    /// The members of an object.
    pub fn as_object(&self) -> (r: Option<&Table<Json>>)
        ensures
            match r {
                Some(table) => self@.as_object() == Some(members_view(table@)) && *self == Json::Object(
                    *table,
                ),
                None => self@.as_object() is None,
            },
    {
        match self {
            Json::Object(table) => {
                proof {
                    object_view(*table);
                }
                Some(table)
            },
            _ => None,
        }
    }

    /// The value of an integer from zero on.
    pub fn as_u64(&self) -> (r: Option<u64>)
        ensures
            r == self@.as_u64(),
    {
        match self {
            Json::Number(JsonNumber::PosInt(n)) => Some(*n),
            _ => None,
        }
    }

    /// The value of an integer in the signed range of 64 bits.
    pub fn as_i64(&self) -> (r: Option<i64>)
        ensures
            r == self@.as_i64(),
    {
        match self {
            Json::Number(JsonNumber::PosInt(n)) => if *n <= 0x7fff_ffff_ffff_ffff {
                Some(*n as i64)
            } else {
                None
            },
            Json::Number(JsonNumber::NegInt(i)) => Some(*i),
            _ => None,
        }
    }

    /// Whether the value is `null`.
    pub fn is_null(&self) -> (r: bool)
        ensures
            r == (self@ is Null),
    {
        match self {
            Json::Null => true,
            _ => false,
        }
    }

    /// Whether the value is an object.
    pub fn is_object(&self) -> (r: bool)
        ensures
            r == (self@ is Object),
    {
        match self {
            Json::Object(_) => true,
            _ => false,
        }
    }

    /// The text of the member that has the given name.
    pub fn text_at(&self, key: &str) -> (r: Option<&str>)
        ensures
            crate::text::opt_str(r) == self@.text_at(key@),
    {
        match self.get(key) {
            Some(v) => v.as_text(),
            None => None,
        }
    }

    /// The items of the array that is the member with the given name.
    pub fn array_at(&self, key: &str) -> (r: Option<&Vec<Json>>)
        ensures
            match r {
                Some(items) => self@.array_at(key@) == Some(json_views(items@)),
                None => self@.array_at(key@) is None,
            },
    {
        match self.get(key) {
            Some(v) => v.as_array(),
            None => None,
        }
    }

    /// The member `b` of the member `a`.
    pub fn get2(&self, a: &str, b: &str) -> (r: Option<&Json>)
        ensures
            opt_ref(r) == self@.get2(a@, b@),
    {
        match self.get(a) {
            Some(v) => v.get(b),
            None => None,
        }
    }

    /// Whether the member that has the given name is `true`.
    pub fn true_at(&self, key: &str) -> (r: bool)
        ensures
            r == self@.true_at(key@),
    {
        match self.get(key) {
            Some(Json::Bool(b)) => *b,
            _ => false,
        }
    }
}

/// An array is in good order when its items are.
pub proof fn array_wf(items: Seq<JsonV>)
    ensures
        JsonV::Array(items).wf() <==> (forall|i: int|
            0 <= i < items.len() ==> (#[trigger] items[i]).wf()),
{
    reveal_with_fuel(JsonV::wf, 2);
    let v = JsonV::Array(items);
    assert(v->Array_0 == items);
    if v.wf() {
        assert forall|i: int| 0 <= i < items.len() implies (#[trigger] items[i]).wf() by {
            assert(v->Array_0[i].wf());
        }
    }
}

/// An object is in good order when its members are, by name and value.
pub proof fn object_wf(members: Seq<(Seq<char>, JsonV)>)
    ensures
        JsonV::Object(members).wf() <==> ascending(members) && (forall|i: int|
            0 <= i < members.len() ==> (#[trigger] members[i]).1.wf()),
{
    reveal_with_fuel(JsonV::wf, 2);
    let v = JsonV::Object(members);
    assert(v->Object_0 == members);
    if v.wf() {
        assert forall|i: int| 0 <= i < members.len() implies (#[trigger] members[i]).1.wf() by {
            assert(v->Object_0[i].1.wf());
        }
    }
}

/// A member of a value in good order is in good order itself.
pub proof fn member_wf(value: JsonV, key: Seq<char>)
    requires
        value.wf(),
    ensures
        value.get(key) matches Some(v) ==> v.wf(),
{
    match value {
        JsonV::Object(members) => {
            key_is_first(members, key, 0);
            object_wf(members);
        },
        _ => {},
    }
}

/// Putting a value in good order among members in good order leaves them so.
pub proof fn members_stay_wf(members: Seq<(Seq<char>, JsonV)>, key: Seq<char>, value: JsonV)
    requires
        value.wf(),
        forall|i: int| 0 <= i < members.len() ==> (#[trigger] members[i]).1.wf(),
    ensures
        forall|i: int|
            0 <= i < put(members, key, value).len() ==> (#[trigger] put(
                members,
                key,
                value,
            )[i]).1.wf(),
{
    place_is_first(members, key, 0);
    let i = place_from(members, key, 0);
    let t = put(members, key, value);
    assert forall|k: int| 0 <= k < t.len() implies (#[trigger] t[k]).1.wf() by {
        if i < members.len() && members[i].0 == key {
            if k != i {
                assert(t[k] == members[k]);
            }
        } else if k < i {
            assert(t[k] == members[k]);
        } else if k > i {
            assert(t[k] == members[k - 1]);
        }
    }
}

/// The items and members of a value are smaller than the value.
proof fn parts_are_smaller(value: Json, i: int)
    ensures
        value matches Json::Array(items) ==> 0 <= i < items@.len() ==> decreases_to!(value => items@[i]),
        value matches Json::Object(table) ==> 0 <= i < table.entries@.len() ==> decreases_to!(value => table.entries@[i].1),
{
    match value {
        Json::Array(items) => {
            if 0 <= i < items@.len() {
                assert(decreases_to!(value => value->Array_0));
                assert(decreases_to!(value->Array_0 => value->Array_0@));
                assert(decreases_to!(value->Array_0@ => value->Array_0@[i]));
            }
        },
        Json::Object(table) => {
            if 0 <= i < table.entries@.len() {
                assert(decreases_to!(value => value->Object_0));
                assert(decreases_to!(value->Object_0 => value->Object_0.entries));
                assert(decreases_to!(value->Object_0.entries => value->Object_0.entries@));
                assert(decreases_to!(value->Object_0.entries@ => value->Object_0.entries@[i]));
                assert(decreases_to!(value->Object_0.entries@[i] => value->Object_0.entries@[i].1));
            }
        },
        _ => {},
    }
}

/// The items and members of what a value is are smaller than the whole.
proof fn parts_of_view_are_smaller(value: JsonV, i: int)
    ensures
        value matches JsonV::Array(items) ==> 0 <= i < items.len() ==> decreases_to!(value => items[i]),
        value matches JsonV::Object(members) ==> 0 <= i < members.len() ==> decreases_to!(value => members[i].1),
{
    match value {
        JsonV::Array(items) => {
            if 0 <= i < items.len() {
                assert(decreases_to!(value => value->Array_0));
                assert(decreases_to!(value->Array_0 => value->Array_0[i]));
            }
        },
        JsonV::Object(members) => {
            if 0 <= i < members.len() {
                assert(decreases_to!(value => value->Object_0));
                assert(decreases_to!(value->Object_0 => value->Object_0[i]));
                assert(decreases_to!(value->Object_0[i] => value->Object_0[i].1));
            }
        },
        _ => {},
    }
}

// ---------------------------------------------------------------------------
// Copying
// ---------------------------------------------------------------------------

/// `Clone` of `serde_json::Number`: a derived copy of a plain number.
pub assume_specification[ <serde_json::Number as Clone>::clone ](n: &serde_json::Number) -> (r:
    serde_json::Number)
    ensures
        r == *n,
;

impl Clone for JsonNumber {
    fn clone(&self) -> (r: Self)
        ensures
            r == *self,
    {
        match self {
            JsonNumber::PosInt(n) => JsonNumber::PosInt(*n),
            JsonNumber::NegInt(i) => JsonNumber::NegInt(*i),
            JsonNumber::Float(f) => JsonNumber::Float(Float { number: f.number.clone() }),
        }
    }
}

impl Clone for Json {
    fn clone(&self) -> (r: Self)
        ensures
            r@ == self@,
        decreases self,
    {
        match self {
            Json::Null => Json::Null,
            Json::Bool(b) => Json::Bool(*b),
            Json::Number(n) => Json::Number(n.clone()),
            Json::Text(s) => Json::Text(s.clone()),
            Json::Array(items) => {
                let mut out: Vec<Json> = Vec::new();
                let mut i: usize = 0;
                while i < items.len()
                    invariant
                        *self == Json::Array(*items),
                        i <= items@.len(),
                        json_views(out@) =~= json_views(items@).take(i as int),
                    decreases items@.len() - i,
                {
                    let ghost before = json_views(out@);
                    proof {
                        parts_are_smaller(*self, i as int);
                    }
                    out.push(items[i].clone());
                    assert(json_views(out@) =~= before.push(items@[i as int]@));
                    assert(json_views(items@).take(i + 1) =~= json_views(items@).take(
                        i as int,
                    ).push(items@[i as int]@));
                    i += 1;
                }
                proof {
                    assert(json_views(items@).take(i as int) =~= json_views(items@));
                    array_view(out);
                    array_view(*items);
                }
                Json::Array(out)
            },
            Json::Object(table) => {
                let mut out: Table<Json> = Table::new();
                let mut i: usize = 0;
                let ghost all = members_view(table@);
                while i < table.entries.len()
                    invariant
                        *self == Json::Object(*table),
                        all == members_view(table@),
                        i <= table.entries@.len(),
                        members_view(out@) =~= all.take(i as int),
                    decreases table.entries@.len() - i,
                {
                    let ghost before = members_view(out@);
                    proof {
                        parts_are_smaller(*self, i as int);
                    }
                    let key = table.entries[i].0.clone();
                    let value = table.entries[i].1.clone();
                    out.entries.push((key, value));
                    assert(members_view(out@) =~= before.push(all[i as int]));
                    assert(all.take(i + 1) =~= all.take(i as int).push(all[i as int]));
                    i += 1;
                }
                proof {
                    assert(all.take(i as int) =~= all);
                    object_view(out);
                    object_view(*table);
                }
                Json::Object(out)
            },
        }
    }
}

/// Whether the values of a list are in good order.
pub open spec fn all_wf(items: Seq<Json>) -> bool {
    forall|i: int| 0 <= i < items.len() ==> (#[trigger] items[i])@.wf()
}

/// Copies a list.
pub fn copy_list(items: &Vec<Json>) -> (r: Vec<Json>)
    ensures
        json_views(r@) == json_views(items@),
        all_wf(items@) ==> all_wf(r@),
{
    let mut out: Vec<Json> = Vec::new();
    let mut i: usize = 0;
    while i < items.len()
        invariant
            i <= items@.len(),
            out@.len() == i,
            forall|k: int| 0 <= k < i ==> (#[trigger] out@[k])@ == items@[k]@,
        decreases items@.len() - i,
    {
        out.push(items[i].clone());
        i += 1;
    }
    assert(json_views(out@) =~= json_views(items@));
    assert forall|k: int| all_wf(items@) && 0 <= k < out@.len() implies (#[trigger] out@[k])@.wf() by {
        assert(items@[k]@.wf());
    }
    out
}

// ---------------------------------------------------------------------------
// Reading and printing text
// ---------------------------------------------------------------------------

/// What a value of `serde_json` holds.
pub uninterp spec fn json_of(value: serde_json::Value) -> JsonV;

/// What a text reads as: the value that it denotes, or the complaint of the
/// reader.
pub uninterp spec fn parsed_json(text: Seq<char>) -> Result<JsonV, Seq<char>>;

/// How a value is printed over several lines, with an indent of two spaces, or
/// the complaint of the printer.
pub uninterp spec fn pretty_text(value: JsonV) -> Result<Seq<char>, Seq<char>>;

/// How a value is printed on one line, without spaces.
pub uninterp spec fn compact_text(value: JsonV) -> Seq<char>;

/// What a text reads as where a floating point number is expected: the number,
/// nothing if it is not finite, or the complaint of the reader.
pub uninterp spec fn read_float(text: Seq<char>) -> Result<Option<Float>, Seq<char>>;

/// A value of `serde_json` with its outermost layer laid open.
pub(crate) enum Opened {
    Null,
    Bool(bool),
    Number(JsonNumber),
    Text(String),
    Array(Vec<serde_json::Value>),
    Object(Vec<(String, serde_json::Value)>),
}

impl Opened {
    /// What the layer and all below it holds.
    pub(crate) open spec fn json(self) -> JsonV {
        match self {
            Opened::Null => JsonV::Null,
            Opened::Bool(b) => JsonV::Bool(b),
            Opened::Number(n) => JsonV::Number(n),
            Opened::Text(s) => JsonV::Text(s@),
            Opened::Array(items) => JsonV::Array(
                items@.map_values(|v: serde_json::Value| json_of(v)),
            ),
            Opened::Object(members) => JsonV::Object(opened_members(members@)),
        }
    }

    /// Whether the layer itself is in good order.
    pub(crate) open spec fn orderly(self) -> bool {
        match self {
            Opened::Number(JsonNumber::NegInt(i)) => i < 0,
            Opened::Object(members) => ascending(opened_members(members@)),
            _ => true,
        }
    }
}

/// The members of an object, by what they hold.
pub(crate) open spec fn opened_members(members: Seq<(String, serde_json::Value)>) -> Seq<
    (Seq<char>, JsonV),
> {
    members.map_values(|m: (String, serde_json::Value)| (m.0@, json_of(m.1)))
}

/// `serde_json::from_str`: the value that a text denotes, or the text of the
/// error.
#[verifier::external_body]
fn parse_value(text: &str) -> (r: Result<serde_json::Value, String>)
    ensures
        match r {
            Ok(v) => parsed_json(text@) == Ok::<JsonV, Seq<char>>(json_of(v)),
            Err(e) => parsed_json(text@) == Err::<JsonV, Seq<char>>(e@),
        },
{
    serde_json::from_str(text).map_err(|e: serde_json::Error| e.to_string())
}

/// The variants of `serde_json::Value`, one by one. A number is an integer from
/// zero on, one below zero, or a floating point number. `serde_json::Map` keeps
/// each name once and hands its members out in ascending order of their names.
#[verifier::external_body]
fn open_value(value: serde_json::Value) -> (r: Opened)
    ensures
        json_of(value) == r.json(),
        r.orderly(),
{
    match value {
        serde_json::Value::Null => Opened::Null,
        serde_json::Value::Bool(b) => Opened::Bool(b),
        serde_json::Value::Number(n) => Opened::Number(match (n.as_u64(), n.as_i64()) {
            (Some(u), _) => JsonNumber::PosInt(u),
            (None, Some(i)) => JsonNumber::NegInt(i),
            (None, None) => JsonNumber::Float(Float { number: n }),
        }),
        serde_json::Value::String(s) => Opened::Text(s),
        serde_json::Value::Array(items) => Opened::Array(items),
        serde_json::Value::Object(members) => Opened::Object(members.into_iter().collect()),
    }
}

/// The variants of `serde_json::Value`, put together again: what went in is what
/// the value holds. `serde_json::Map` puts members in ascending order of their
/// names, where they stand already.
#[verifier::external_body]
fn close_value(layer: Opened) -> (r: serde_json::Value)
    requires
        layer.orderly(),
    ensures
        json_of(r) == layer.json(),
{
    match layer {
        Opened::Null => serde_json::Value::Null,
        Opened::Bool(b) => serde_json::Value::Bool(b),
        Opened::Number(JsonNumber::PosInt(u)) => serde_json::Value::from(u),
        Opened::Number(JsonNumber::NegInt(i)) => serde_json::Value::from(i),
        Opened::Number(JsonNumber::Float(f)) => serde_json::Value::Number(f.number),
        Opened::Text(s) => serde_json::Value::String(s),
        Opened::Array(items) => serde_json::Value::Array(items),
        Opened::Object(members) => serde_json::Value::Object(members.into_iter().collect()),
    }
}

/// `serde_json::to_string_pretty`: the value over several lines, or the text of
/// the error.
#[verifier::external_body]
fn print_pretty(value: &serde_json::Value) -> (r: Result<String, String>)
    ensures
        match r {
            Ok(t) => pretty_text(json_of(*value)) == Ok::<Seq<char>, Seq<char>>(t@),
            Err(e) => pretty_text(json_of(*value)) == Err::<Seq<char>, Seq<char>>(e@),
        },
{
    serde_json::to_string_pretty(value).map_err(|e: serde_json::Error| e.to_string())
}

/// `Display` of `serde_json::Value`: the value on one line.
#[verifier::external_body]
fn print_compact(value: &serde_json::Value) -> (r: String)
    ensures
        r@ == compact_text(json_of(*value)),
{
    value.to_string()
}

/// `str::parse` to a floating point number, and `serde_json::Number::from_f64`,
/// which has nothing for a number that is not finite.
#[verifier::external_body]
pub(crate) fn parse_float(text: &str) -> (r: Result<Option<Float>, String>)
    ensures
        float_view(r) == read_float(text@),
{
    match text.parse() {
        Ok(x) => Ok(serde_json::Number::from_f64(x).map(|number| Float { number })),
        Err(e) => Err(e.to_string()),
    }
}

/// Converts a value of `serde_json`, layer by layer.
pub fn from_value(value: serde_json::Value) -> (r: Json)
    ensures
        r@ == json_of(value),
        r@.wf(),
    decreases json_of(value),
{
    let ghost whole = json_of(value);
    match open_value(value) {
        Opened::Null => Json::Null,
        Opened::Bool(b) => Json::Bool(b),
        Opened::Number(n) => Json::Number(n),
        Opened::Text(s) => Json::Text(s),
        Opened::Array(items) => {
            let ghost given = items@;
            let ghost all = given.map_values(|v: serde_json::Value| json_of(v));
            let mut out: Vec<Json> = Vec::new();
            for item in it: items
                invariant
                    it.seq() == given,
                    all == given.map_values(|v: serde_json::Value| json_of(v)),
                    whole == json_of(value),
                    whole == JsonV::Array(all),
                    out@.len() == it.index(),
                    json_views(out@) =~= all.take(it.index()),
                    forall|i: int| 0 <= i < out@.len() ==> (#[trigger] json_views(out@)[i]).wf(),
            {
                let ghost n = it.index();
                let ghost before = json_views(out@);
                assert(json_of(item) == all[n]);
                proof {
                    parts_of_view_are_smaller(whole, n);
                }
                let converted = from_value(item);
                out.push(converted);
                assert(json_views(out@) =~= before.push(all[n]));
                assert(all.take(n + 1) =~= all.take(n).push(all[n]));
            }
            proof {
                array_view(out);
                assert(json_views(out@) =~= all);
            }
            Json::Array(out)
        },
        Opened::Object(members) => {
            let ghost given = members@;
            let ghost all = opened_members(given);
            let mut out: Table<Json> = Table::new();
            for member in it: members
                invariant
                    it.seq() == given,
                    all == opened_members(given),
                    whole == json_of(value),
                    whole == JsonV::Object(all),
                    out@.len() == it.index(),
                    members_view(out@) =~= all.take(it.index()),
                    forall|i: int|
                        0 <= i < out@.len() ==> (#[trigger] members_view(out@)[i]).1.wf(),
            {
                let ghost n = it.index();
                let ghost before = members_view(out@);
                let (key, item) = member;
                assert((key@, json_of(item)) == all[n]);
                proof {
                    parts_of_view_are_smaller(whole, n);
                }
                let converted = from_value(item);
                out.entries.push((key, converted));
                assert(members_view(out@) =~= before.push(all[n]));
                assert(all.take(n + 1) =~= all.take(n).push(all[n]));
            }
            proof {
                object_view(out);
                assert(members_view(out@) =~= all);
            }
            Json::Object(out)
        },
    }
}

/// Converts a value to one of `serde_json`, layer by layer.
pub fn to_value(value: &Json) -> (r: serde_json::Value)
    requires
        value@.wf(),
    ensures
        json_of(r) == value@,
    decreases value,
{
    match value {
        Json::Null => close_value(Opened::Null),
        Json::Bool(b) => close_value(Opened::Bool(*b)),
        Json::Number(n) => close_value(Opened::Number(n.clone())),
        Json::Text(s) => close_value(Opened::Text(s.clone())),
        Json::Array(items) => {
            let mut out: Vec<serde_json::Value> = Vec::new();
            let mut i: usize = 0;
            let ghost all = json_views(items@);
            proof {
                array_view(*items);
                array_wf(all);
            }
            while i < items.len()
                invariant
                    *value == Json::Array(*items),
                    all == json_views(items@),
                    forall|k: int| 0 <= k < all.len() ==> (#[trigger] all[k]).wf(),
                    i <= items@.len(),
                    out@.map_values(|v: serde_json::Value| json_of(v)) =~= all.take(i as int),
                decreases items@.len() - i,
            {
                let ghost before = out@.map_values(|v: serde_json::Value| json_of(v));
                proof {
                    parts_are_smaller(*value, i as int);
                }
                assert(all[i as int].wf());
                out.push(to_value(&items[i]));
                assert(out@.map_values(|v: serde_json::Value| json_of(v)) =~= before.push(
                    all[i as int],
                ));
                assert(all.take(i + 1) =~= all.take(i as int).push(all[i as int]));
                i += 1;
            }
            assert(all.take(i as int) =~= all);
            close_value(Opened::Array(out))
        },
        Json::Object(table) => {
            let mut out: Vec<(String, serde_json::Value)> = Vec::new();
            let mut i: usize = 0;
            let ghost all = members_view(table@);
            proof {
                object_view(*table);
                object_wf(all);
            }
            while i < table.entries.len()
                invariant
                    *value == Json::Object(*table),
                    all == members_view(table@),
                    ascending(all),
                    forall|k: int| 0 <= k < all.len() ==> (#[trigger] all[k]).1.wf(),
                    i <= table.entries@.len(),
                    opened_members(out@) =~= all.take(i as int),
                decreases table.entries@.len() - i,
            {
                let ghost before = opened_members(out@);
                proof {
                    parts_are_smaller(*value, i as int);
                }
                assert(all[i as int].1.wf());
                let key = table.entries[i].0.clone();
                let converted = to_value(&table.entries[i].1);
                out.push((key, converted));
                assert(opened_members(out@) =~= before.push(all[i as int]));
                assert(all.take(i + 1) =~= all.take(i as int).push(all[i as int]));
                i += 1;
            }
            assert(all.take(i as int) =~= all);
            close_value(Opened::Object(out))
        },
    }
}

/// The view of what reading a text gave.
pub open spec fn parse_view(parsed: Result<Json, String>) -> Result<JsonV, Seq<char>> {
    match parsed {
        Ok(v) => Ok(v@),
        Err(e) => Err(e@),
    }
}

/// Whether what reading a text gave is in good order, if it gave a value.
pub open spec fn parse_wf(parsed: Result<Json, String>) -> bool {
    parsed matches Ok(v) ==> v@.wf()
}

/// Reads a JSON text. The error is the complaint of the reader.
pub fn parse_json(text: &str) -> (r: Result<Json, String>)
    ensures
        parse_view(r) == parsed_json(text@),
        parse_wf(r),
{
    match parse_value(text) {
        Ok(value) => Ok(from_value(value)),
        Err(e) => Err(e),
    }
}

/// The view of what printing a value gave.
pub open spec fn printed_view(printed: Result<String, String>) -> Result<Seq<char>, Seq<char>> {
    match printed {
        Ok(text) => Ok(text@),
        Err(e) => Err(e@),
    }
}

/// Prints a value over several lines. The error is the complaint of the printer.
pub fn pretty(value: &Json) -> (r: Result<String, String>)
    requires
        value@.wf(),
    ensures
        printed_view(r) == pretty_text(value@),
{
    print_pretty(&to_value(value))
}

/// A value over several lines where printing it so gave a text, and on one line
/// where it did not.
pub open spec fn shown(value: JsonV) -> Seq<char> {
    match pretty_text(value) {
        Ok(text) => text,
        Err(_) => compact_text(value),
    }
}

/// Prints a value over several lines, or on one line should that fail.
pub fn to_pretty(value: &Json) -> (r: String)
    requires
        value@.wf(),
    ensures
        r@ == shown(value@),
{
    match pretty(value) {
        Ok(text) => text,
        Err(_) => to_compact(value),
    }
}

/// Prints a value on one line.
pub fn to_compact(value: &Json) -> (r: String)
    requires
        value@.wf(),
    ensures
        r@ == compact_text(value@),
{
    print_compact(&to_value(value))
}

/// The view of what reading a number gave.
pub open spec fn float_view(read: Result<Option<Float>, String>) -> Result<
    Option<Float>,
    Seq<char>,
> {
    match read {
        Ok(f) => Ok(f),
        Err(e) => Err(e@),
    }
}

/// The view of a value that may not be known.
pub open spec fn outcome(r: Result<Json, Error>) -> Result<JsonV, Fault> {
    match r {
        Ok(v) => Ok(v@),
        Err(e) => Err(e@),
    }
}

// ---------------------------------------------------------------------------
// Laws
// ---------------------------------------------------------------------------

/// A member of an object is found under its name; what is no object has no members.
pub proof fn members_are_found_by_name(members: Seq<(Seq<char>, JsonV)>, i: int, other: JsonV, key: Seq<char>)
    requires
        ascending(members),
        0 <= i < members.len(),
    ensures
        JsonV::Object(members).get(members[i].0) == Some(members[i].1),
        (forall|j: int| 0 <= j < members.len() ==> (#[trigger] members[j]).0 != key) ==> JsonV::Object(
            members,
        ).get(key) is None,
        !(other is Object) ==> other.get(key) is None,
{
    entry_is_found(members, i);
    key_is_first(members, key, 0);
}

/// A value is taken for what it is, and for nothing else.
pub proof fn values_are_taken_for_what_they_are(value: JsonV, s: Seq<char>, items: Seq<JsonV>, n: u64, i: i64)
    ensures
        JsonV::Text(s).as_text() == Some(s),
        !(value is Text) ==> value.as_text() is None,
        JsonV::Array(items).as_array() == Some(items),
        !(value is Array) ==> value.as_array() is None,
        !(value is Object) ==> value.as_object() is None,
        JsonV::Number(JsonNumber::PosInt(n)).as_u64() == Some(n),
        value.as_u64() is Some ==> value == JsonV::Number(JsonNumber::PosInt(value.as_u64()->0)),
        JsonV::Number(JsonNumber::NegInt(i)).as_i64() == Some(i),
        i >= 0 ==> JsonV::Number(JsonNumber::PosInt(i as u64)).as_i64() == Some(i),
        n > i64::MAX ==> JsonV::Number(JsonNumber::PosInt(n)).as_i64() is None,
        !(value is Number) ==> value.as_i64() is None && value.as_u64() is None,
{
}

/// What a member is taken for follows from what it is: a text, a list, a member of its
/// own, or `true`.
pub proof fn members_are_taken_for_what_they_are(value: JsonV, key: Seq<char>, inner: Seq<char>, member: JsonV)
    ensures
        value.get(key) is None ==> value.text_at(key) is None && value.array_at(key) is None
            && value.get2(key, inner) is None && !value.true_at(key),
        value.get(key) == Some(member) ==> {
            &&& value.text_at(key) == match member {
                JsonV::Text(s) => Some(s),
                _ => None,
            }
            &&& value.array_at(key) == match member {
                JsonV::Array(items) => Some(items),
                _ => None,
            }
            &&& value.get2(key, inner) == member.get(inner)
            &&& value.true_at(key) <==> member == JsonV::Bool(true)
        },
{
}

/// What can be printed over several lines is printed so.
pub proof fn values_are_shown_over_several_lines(value: JsonV, text: Seq<char>)
    ensures
        pretty_text(value) == Ok::<Seq<char>, Seq<char>>(text) ==> shown(value) == text,
        pretty_text(value) is Err ==> shown(value) == compact_text(value),
{
}

/// A value is seen as what it is, with all its items or members.
pub proof fn values_are_seen_as_they_are(
    b: bool,
    n: JsonNumber,
    s: String,
    items: Vec<Json>,
    table: Table<Json>,
)
    ensures
        Json::Null@ == JsonV::Null && Json::Bool(b)@ == JsonV::Bool(b),
        Json::Number(n)@ == JsonV::Number(n) && Json::Text(s)@ == JsonV::Text(s@),
        Json::Array(items)@ == JsonV::Array(json_views(items@)),
        Json::Object(table)@ == JsonV::Object(members_view(table@)),
        json_views(items@).len() == items@.len(),
        forall|i: int| 0 <= i < items@.len() ==> #[trigger] json_views(items@)[i] == items@[i]@,
        members_view(table@).len() == table@.len(),
        forall|i: int|
            0 <= i < table@.len() ==> #[trigger] members_view(table@)[i] == (table@[i].0, table@[i].1@),
{
    array_view(items);
    object_view(table);
}

/// A layer of a value of `serde_json` holds what it shows.
pub(crate) proof fn layers_hold_what_they_show(
    b: bool,
    n: JsonNumber,
    s: String,
    items: Vec<serde_json::Value>,
    members: Vec<(String, serde_json::Value)>,
    i: int,
)
    ensures
        Opened::Null.json() == JsonV::Null && Opened::Bool(b).json() == JsonV::Bool(b),
        Opened::Number(n).json() == JsonV::Number(n) && Opened::Text(s).json() == JsonV::Text(s@),
        Opened::Array(items).json() matches JsonV::Array(values) && values.len() == items@.len() && (0
            <= i < items@.len() ==> values[i] == json_of(items@[i])),
        Opened::Object(members).json() matches JsonV::Object(entries) && entries.len()
            == members@.len() && (0 <= i < members@.len() ==> entries[i] == (
            members@[i].0@,
            json_of(members@[i].1),
        )),
{
}

} // verus!
