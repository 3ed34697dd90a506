//! The JSON-like tree that every engine takes and returns.

use vstd::prelude::*;
use crate::binary64::from_signed;
use crate::binary64::from_unsigned;
use crate::binary64::is_finite;
use crate::binary64::signed_bits;
use crate::binary64::unsigned_bits;

verus! {

/// A JSON number. A binary64 value is held by its IEEE-754 bit pattern.
#[derive(Debug, Clone, Copy, PartialEq, Eq)]
pub enum Number {
    PosInt(u64),
    NegInt(i64),
    Float(u64),
}

impl Number {
    /// Negative integers are held as `NegInt`, and a `Float` is finite.
    pub open spec fn well_formed(self) -> bool {
        match self {
            Number::PosInt(_) => true,
            Number::NegInt(i) => i < 0,
            Number::Float(bits) => is_finite(bits),
        }
    }

    /// The bit pattern of the binary64 value nearest to this number.
    pub open spec fn as_binary64(self) -> u64 {
        match self {
            Number::PosInt(u) => unsigned_bits(u),
            Number::NegInt(i) => signed_bits(i),
            Number::Float(bits) => bits,
        }
    }

    /// The number as a binary64 bit pattern.
    pub fn to_binary64(&self) -> (bits: u64)
        ensures
            bits == self.as_binary64(),
    {
        match self {
            Number::PosInt(u) => from_unsigned(*u),
            Number::NegInt(i) => from_signed(*i),
            Number::Float(bits) => *bits,
        }
    }
}

/// A semi-structured value: the exchange format at every engine boundary.
#[derive(Debug, PartialEq)]
pub enum Value {
    Null,
    Bool(bool),
    Number(Number),
    String(String),
    Array(Vec<Value>),
    Object(Vec<(String, Value)>),
}

/// The mathematical tree that a `Value` stands for.
pub enum Json {
    Null,
    Bool(bool),
    Number(Number),
    Text(Seq<char>),
    Array(Seq<Json>),
    Object(Seq<(Seq<char>, Json)>),
}

impl View for Value {
    type V = Json;

    open spec fn view(&self) -> Json
        decreases self,
    {
        match self {
            Value::Null => Json::Null,
            Value::Bool(b) => Json::Bool(*b),
            Value::Number(n) => Json::Number(*n),
            Value::String(s) => Json::Text(s@),
            Value::Array(items) => Json::Array(
                Seq::new(
                    items@.len(),
                    |i: int|
                        if 0 <= i < items@.len() {
                            items@[i]@
                        } else {
                            Json::Null
                        },
                ),
            ),
            Value::Object(members) => Json::Object(
                Seq::new(
                    members@.len(),
                    |i: int|
                        if 0 <= i < members@.len() {
                            (members@[i].0@, members@[i].1@)
                        } else {
                            (Seq::empty(), Json::Null)
                        },
                ),
            ),
        }
    }
}

/// A text value.
pub fn text_value(text: &str) -> (value: Value)
    ensures
        value@ == Json::Text(text@),
{
    Value::String(String::from_str(text))
}

/// The number value of a count.
pub fn count_value(count: usize) -> (value: Value)
    ensures
        value@ == Json::Number(Number::PosInt(count as u64)),
{
    Value::Number(Number::PosInt(count as u64))
}

/// One member of an object.
pub fn member(key: &str, value: Value) -> (pair: (String, Value))
    ensures
        pair.0@ == key@,
        pair.1 == value,
{
    (String::from_str(key), value)
}

/// The model of an array holds the models of its items, in order.
pub proof fn lemma_array_view(value: Value)
    requires
        value is Array,
    ensures
        value@ is Array,
        value@->Array_0.len() == value->Array_0@.len(),
        forall|i: int|
            0 <= i < value->Array_0@.len() ==> #[trigger] value@->Array_0[i]
                == value->Array_0@[i]@,
{
    reveal_with_fuel(<Value as View>::view, 2);
}

/// The model of an object holds its keys and the models of its members, in
/// order.
pub proof fn lemma_object_view(value: Value)
    requires
        value is Object,
    ensures
        value@ is Object,
        value@->Object_0.len() == value->Object_0@.len(),
        forall|i: int|
            0 <= i < value->Object_0@.len() ==> #[trigger] value@->Object_0[i] == (
                value->Object_0@[i].0@,
                value->Object_0@[i].1@,
            ),
{
    reveal_with_fuel(<Value as View>::view, 2);
}

impl Clone for Value {
    fn clone(&self) -> (copy: Value)
        ensures
            copy@ == self@,
        decreases self,
    {
        match self {
            Value::Null => Value::Null,
            Value::Bool(b) => Value::Bool(*b),
            Value::Number(n) => Value::Number(*n),
            Value::String(s) => Value::String(s.clone()),
            Value::Array(items) => {
                let mut copies: Vec<Value> = Vec::new();
                let mut i: usize = 0;
                while i < items.len()
                    invariant
                        self is Array,
                        self->Array_0 == *items,
                        i <= items.len(),
                        copies@.len() == i,
                        forall|k: int| 0 <= k < i ==> copies@[k]@ == items@[k]@,
                    decreases items.len() - i,
                {
                    proof {
                        vstd::std_specs::vec::axiom_vec_index_decreases(*items, i as int);
                        assert(decreases_to!(*self => self->Array_0@[i as int]));
                    }
                    copies.push(items[i].clone());
                    i += 1;
                }
                let copy = Value::Array(copies);
                assert(copy@->Array_0 =~= self@->Array_0);
                copy
            },
            Value::Object(members) => {
                let mut copies: Vec<(String, Value)> = Vec::new();
                let mut i: usize = 0;
                while i < members.len()
                    invariant
                        self is Object,
                        self->Object_0 == *members,
                        i <= members.len(),
                        copies@.len() == i,
                        forall|k: int|
                            0 <= k < i ==> copies@[k].0@ == members@[k].0@ && copies@[k].1@
                                == members@[k].1@,
                    decreases members.len() - i,
                {
                    proof {
                        vstd::std_specs::vec::axiom_vec_index_decreases(*members, i as int);
                        assert(decreases_to!(*self => self->Object_0@[i as int].1));
                    }
                    copies.push((members[i].0.clone(), members[i].1.clone()));
                    i += 1;
                }
                let copy = Value::Object(copies);
                assert(copy@->Object_0 =~= self@->Object_0);
                copy
            },
        }
    }
}

} // verus!
