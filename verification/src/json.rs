//! JSON values as the store holds them in a document's metadata.

use vstd::prelude::*;
use crate::ieee::{double_equal, doubles_equal};

verus! {

/// A JSON number.
#[derive(Clone, Copy, Debug)]
pub enum JsonNumber {
    /// A whole number that is not negative.
    PosInt(u64),
    /// A whole number that is negative.
    NegInt(i64),
    /// A number with a fraction: the bits of an IEEE-754 double.
    Float(u64),
}

/// A JSON value.
///
/// An object is a list of entries, and `get` finds the first entry with a
/// given key. Objects are compared entry by entry: whoever builds them
/// keeps the entries in the order of their keys, each key once, so that
/// objects with the same fields hold the same entries.
#[derive(Debug)]
pub enum JsonValue {
    Null,
    Bool(bool),
    Number(JsonNumber),
    String(String),
    Array(Vec<JsonValue>),
    Object(Vec<(String, JsonValue)>),
}

/// The mathematical value of a `JsonValue`.
pub enum JsonModel {
    Null,
    Bool(bool),
    Number(JsonNumber),
    String(Seq<char>),
    Array(Seq<JsonModel>),
    Object(Seq<(Seq<char>, JsonModel)>),
}

/// The value that a `JsonValue` stands for.
pub open spec fn json_model(v: JsonValue) -> JsonModel
    decreases v,
{
    match v {
        JsonValue::Null => JsonModel::Null,
        JsonValue::Bool(b) => JsonModel::Bool(b),
        JsonValue::Number(n) => JsonModel::Number(n),
        JsonValue::String(s) => JsonModel::String(s@),
        JsonValue::Array(items) => JsonModel::Array(
            Seq::new(
                items.len() as nat,
                |i: int|
                    if 0 <= i < items.len() {
                        json_model(items[i])
                    } else {
                        JsonModel::Null
                    },
            ),
        ),
        JsonValue::Object(entries) => JsonModel::Object(
            Seq::new(
                entries.len() as nat,
                |i: int|
                    if 0 <= i < entries.len() {
                        (entries[i].0@, json_model(entries[i].1))
                    } else {
                        (Seq::empty(), JsonModel::Null)
                    },
            ),
        ),
    }
}

impl View for JsonValue {
    type V = JsonModel;

    open spec fn view(&self) -> JsonModel {
        json_model(*self)
    }
}

/// Whether two numbers are equal as JSON numbers: they are of the same kind
/// and hold the same number. An integer never equals a float.
pub open spec fn number_equal(a: JsonNumber, b: JsonNumber) -> bool {
    match (a, b) {
        (JsonNumber::PosInt(x), JsonNumber::PosInt(y)) => x == y,
        (JsonNumber::NegInt(x), JsonNumber::NegInt(y)) => x == y,
        (JsonNumber::Float(x), JsonNumber::Float(y)) => double_equal(x, y),
        _ => false,
    }
}

/// Structural equality of JSON values: the same kind of value, and equal
/// contents, entry by entry in the order they are held.
pub open spec fn json_equal(a: JsonModel, b: JsonModel) -> bool
    decreases a,
{
    match (a, b) {
        (JsonModel::Null, JsonModel::Null) => true,
        (JsonModel::Bool(x), JsonModel::Bool(y)) => x == y,
        (JsonModel::Number(x), JsonModel::Number(y)) => number_equal(x, y),
        (JsonModel::String(x), JsonModel::String(y)) => x == y,
        (JsonModel::Array(x), JsonModel::Array(y)) => {
            &&& x.len() == y.len()
            &&& forall|i: int| 0 <= i < x.len() ==> json_equal(#[trigger] x[i], y[i])
        },
        (JsonModel::Object(x), JsonModel::Object(y)) => {
            &&& x.len() == y.len()
            &&& forall|i: int|
                0 <= i < x.len() ==> (#[trigger] x[i]).0 == y[i].0 && json_equal(x[i].1, y[i].1)
        },
        _ => false,
    }
}

/// The value under `field` in an object: that of the first entry with this
/// key. Anything but an object has no fields.
pub open spec fn json_get(value: JsonModel, field: Seq<char>) -> Option<JsonModel> {
    match value {
        JsonModel::Object(entries) => entries_get(entries, field),
        _ => None,
    }
}

/// The value of the first entry with key `field`.
pub open spec fn entries_get(entries: Seq<(Seq<char>, JsonModel)>, field: Seq<char>) -> Option<
    JsonModel,
>
    decreases entries.len(),
{
    if entries.len() == 0 {
        None
    } else if entries[0].0 == field {
        Some(entries[0].1)
    } else {
        entries_get(entries.subrange(1, entries.len() as int), field)
    }
}

/// The view of an array is the sequence of its items' views.
pub proof fn lemma_array_view(v: JsonValue)
    requires
        v is Array,
    ensures
        v@ is Array,
        v@->Array_0.len() == v->Array_0.len(),
        forall|i: int|
            0 <= i < v->Array_0.len() ==> v@->Array_0[i] == (#[trigger] v->Array_0[i])@,
{
}

/// The view of an object is the sequence of its entries' views.
pub proof fn lemma_object_view(v: JsonValue)
    requires
        v is Object,
    ensures
        v@ is Object,
        v@->Object_0.len() == v->Object_0.len(),
        forall|i: int|
            0 <= i < v->Object_0.len() ==> v@->Object_0[i] == (
                (#[trigger] v->Object_0[i]).0@,
                v->Object_0[i].1@,
            ),
{
}

impl JsonNumber {
    /// Tests two numbers for equality.
    pub fn equals(&self, other: &JsonNumber) -> (r: bool)
        ensures
            r == number_equal(*self, *other),
    {
        match (self, other) {
            (JsonNumber::PosInt(x), JsonNumber::PosInt(y)) => *x == *y,
            (JsonNumber::NegInt(x), JsonNumber::NegInt(y)) => *x == *y,
            (JsonNumber::Float(x), JsonNumber::Float(y)) => doubles_equal(*x, *y),
            _ => false,
        }
    }
}

impl JsonValue {
    /// Looks a field up in an object.
    pub fn get(&self, field: &String) -> (r: Option<&JsonValue>)
        ensures
            r is Some <==> json_get(self@, field@) is Some,
            r is Some ==> r.unwrap()@ == json_get(self@, field@).unwrap(),
    {
        match self {
            JsonValue::Object(entries) => {
                let mut i: usize = 0;
                proof {
                    lemma_object_view(*self);
                    assert(self@->Object_0.subrange(0, entries.len() as int) =~= self@->Object_0);
                }
                while i < entries.len()
                    invariant
                        *self == JsonValue::Object(*entries),
                        i <= entries.len(),
                        self@->Object_0.len() == entries.len(),
                        entries_get(self@->Object_0, field@) == entries_get(
                            self@->Object_0.subrange(i as int, entries.len() as int),
                            field@,
                        ),
                    decreases entries.len() - i,
                {
                    let ghost rest = self@->Object_0.subrange(i as int, entries.len() as int);
                    proof {
                        lemma_object_view(*self);
                    }
                    assert(rest[0] == self@->Object_0[i as int]);
                    assert(rest.subrange(1, rest.len() as int) =~= self@->Object_0.subrange(
                        i + 1,
                        entries.len() as int,
                    ));
                    if entries[i].0 == *field {
                        return Some(&entries[i].1);
                    }
                    i += 1;
                }
                None
            },
            _ => None,
        }
    }

    /// Tests two values for structural equality.
    pub fn equals(&self, other: &JsonValue) -> (r: bool)
        ensures
            r == json_equal(self@, other@),
        decreases self,
    {
        match (self, other) {
            (JsonValue::Null, JsonValue::Null) => true,
            (JsonValue::Bool(x), JsonValue::Bool(y)) => *x == *y,
            (JsonValue::Number(x), JsonValue::Number(y)) => x.equals(y),
            (JsonValue::String(x), JsonValue::String(y)) => *x == *y,
            (JsonValue::Array(x), JsonValue::Array(y)) => {
                if x.len() != y.len() {
                    return false;
                }
                let mut i: usize = 0;
                while i < x.len()
                    invariant
                        *self == JsonValue::Array(*x),
                        *other == JsonValue::Array(*y),
                        x.len() == y.len(),
                        i <= x.len(),
                        forall|k: int| 0 <= k < i ==> json_equal(#[trigger] x[k]@, y[k]@),
                    decreases x.len() - i,
                {
                    let a = &x[i];
                    let b = &y[i];
                    assert(decreases_to!(*x => x[i as int]));
                    assert(decreases_to!(*self => self->Array_0));
                    if !a.equals(b) {
                        proof {
                            lemma_array_view(*self);
                            lemma_array_view(*other);
                        }
                        assert(self@->Array_0[i as int] == a@);
                        assert(other@->Array_0[i as int] == b@);
                        return false;
                    }
                    i += 1;
                }
                proof {
                    lemma_array_view(*self);
                    lemma_array_view(*other);
                }
                assert forall|k: int| 0 <= k < self@->Array_0.len() implies json_equal(
                    #[trigger] self@->Array_0[k],
                    other@->Array_0[k],
                ) by {
                    assert(json_equal(x[k]@, y[k]@));
                }
                true
            },
            (JsonValue::Object(x), JsonValue::Object(y)) => {
                if x.len() != y.len() {
                    return false;
                }
                let mut i: usize = 0;
                while i < x.len()
                    invariant
                        *self == JsonValue::Object(*x),
                        *other == JsonValue::Object(*y),
                        x.len() == y.len(),
                        i <= x.len(),
                        forall|k: int|
                            0 <= k < i ==> (#[trigger] x[k]).0@ == y[k].0@ && json_equal(
                                x[k].1@,
                                y[k].1@,
                            ),
                    decreases x.len() - i,
                {
                    let a = &x[i];
                    let b = &y[i];
                    assert(decreases_to!(*x => x[i as int]));
                    assert(decreases_to!(*self => self->Object_0));
                    assert(decreases_to!(x[i as int] => x[i as int].1));
                    proof {
                        lemma_object_view(*self);
                        lemma_object_view(*other);
                    }
                    assert(self@->Object_0[i as int] == (a.0@, a.1@));
                    assert(other@->Object_0[i as int] == (b.0@, b.1@));
                    if !(a.0 == b.0) {
                        return false;
                    }
                    if !a.1.equals(&b.1) {
                        return false;
                    }
                    i += 1;
                }
                proof {
                    lemma_object_view(*self);
                    lemma_object_view(*other);
                }
                assert forall|k: int| 0 <= k < self@->Object_0.len() implies (
                #[trigger] self@->Object_0[k]).0 == other@->Object_0[k].0 && json_equal(
                    self@->Object_0[k].1,
                    other@->Object_0[k].1,
                ) by {
                    assert(x[k].0@ == y[k].0@);
                }
                true
            },
            _ => false,
        }
    }
}

impl Clone for JsonValue {
    fn clone(&self) -> (res: JsonValue)
        ensures
            res@ == self@,
        decreases self,
    {
        match self {
            JsonValue::Null => JsonValue::Null,
            JsonValue::Bool(b) => JsonValue::Bool(*b),
            JsonValue::Number(n) => JsonValue::Number(*n),
            JsonValue::String(s) => JsonValue::String(s.clone()),
            JsonValue::Array(items) => {
                let mut out: Vec<JsonValue> = Vec::new();
                let mut i: usize = 0;
                while i < items.len()
                    invariant
                        *self == JsonValue::Array(*items),
                        i <= items.len(),
                        out.len() == i,
                        forall|k: int| 0 <= k < i ==> out[k]@ == items[k]@,
                    decreases items.len() - i,
                {
                    let item = &items[i];
                    assert(decreases_to!(*items => items[i as int]));
                    assert(decreases_to!(*self => self->Array_0));
                    out.push(item.clone());
                    i += 1;
                }
                let res = JsonValue::Array(out);
                assert(res@->Array_0 =~= self@->Array_0);
                res
            },
            JsonValue::Object(entries) => {
                let mut out: Vec<(String, JsonValue)> = Vec::new();
                let mut i: usize = 0;
                while i < entries.len()
                    invariant
                        *self == JsonValue::Object(*entries),
                        i <= entries.len(),
                        out.len() == i,
                        forall|k: int|
                            0 <= k < i ==> out[k].0@ == entries[k].0@ && out[k].1@
                                == entries[k].1@,
                    decreases entries.len() - i,
                {
                    let entry = &entries[i];
                    assert(decreases_to!(*entries => entries[i as int]));
                    assert(decreases_to!(*self => self->Object_0));
                    assert(decreases_to!(entries[i as int] => entries[i as int].1));
                    out.push((entry.0.clone(), entry.1.clone()));
                    i += 1;
                }
                let res = JsonValue::Object(out);
                assert(res@->Object_0 =~= self@->Object_0);
                res
            },
        }
    }
}

} // verus!
