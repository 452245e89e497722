//! The JSON-like value model: the engine's sole data currency.
//!
//! `Value` is the executable type; `SpecValue` is its mathematical model, with
//! byte strings as `Seq<u8>`, arrays as `Seq` and objects as a sequence of
//! key/value pairs in insertion order.  Contracts throughout the crate speak
//! of `SpecValue`.

use vstd::prelude::*;

verus! {

broadcast use vstd::std_specs::vec::group_vec_axioms;

/// The mathematical model of a [`Value`].
#[verifier::ext_equal]
pub enum SpecValue {
    Null,
    Bool(bool),
    Number(i64),
    Text(Seq<u8>),
    Array(Seq<SpecValue>),
    Object(Seq<(Seq<u8>, SpecValue)>),
}

/// A dynamically typed value: null, boolean, 64-bit integer, UTF-8 text held
/// as bytes, array, or object (an ordered list of key/value pairs).
#[derive(Debug)]
pub enum Value {
    Null,
    Bool(bool),
    Number(i64),
    Text(Vec<u8>),
    Array(Vec<Value>),
    Object(Vec<(Vec<u8>, Value)>),
}

/// The model of an executable value.
pub open spec fn view_value(v: Value) -> SpecValue
    decreases v, 0nat,
{
    match v {
        Value::Null => SpecValue::Null,
        Value::Bool(b) => SpecValue::Bool(b),
        Value::Number(n) => SpecValue::Number(n),
        Value::Text(t) => SpecValue::Text(t@),
        Value::Array(a) => SpecValue::Array(view_array(a@)),
        Value::Object(m) => SpecValue::Object(view_object(m@)),
    }
}

/// The models of the elements of an array, in order.
pub open spec fn view_array(s: Seq<Value>) -> Seq<SpecValue>
    decreases s, 1nat,
{
    if s.len() == 0 {
        Seq::empty()
    } else {
        view_array(s.drop_last()).push(view_value(s.last()))
    }
}

/// The models of the entries of an object, in order.
pub open spec fn view_object(s: Seq<(Vec<u8>, Value)>) -> Seq<(Seq<u8>, SpecValue)>
    decreases s, 1nat,
{
    if s.len() == 0 {
        Seq::empty()
    } else {
        view_object(s.drop_last()).push((s.last().0@, view_value(s.last().1)))
    }
}

impl View for Value {
    type V = SpecValue;

    open spec fn view(&self) -> SpecValue {
        view_value(*self)
    }
}

/// `view_array` maps the sequence pointwise.
pub proof fn lemma_view_array_index(s: Seq<Value>)
    ensures
        view_array(s).len() == s.len(),
        forall|i: int| 0 <= i < s.len() ==> view_array(s)[i] == view_value(s[i]),
    decreases s.len(),
{
    if s.len() > 0 {
        lemma_view_array_index(s.drop_last());
    }
}

/// `view_object` maps the sequence pointwise.
pub proof fn lemma_view_object_index(s: Seq<(Vec<u8>, Value)>)
    ensures
        view_object(s).len() == s.len(),
        forall|i: int|
            0 <= i < s.len() ==> view_object(s)[i] == (s[i].0@, view_value(s[i].1)),
    decreases s.len(),
{
    if s.len() > 0 {
        lemma_view_object_index(s.drop_last());
    }
}

/// Exact byte equality of two byte vectors.
pub fn bytes_eq(a: &Vec<u8>, b: &Vec<u8>) -> (r: bool)
    ensures
        r == (a@ == b@),
{
    if a.len() != b.len() {
        return false;
    }
    let mut i: usize = 0;
    while i < a.len()
        invariant
            i <= a.len(),
            a.len() == b.len(),
            forall|j: int| 0 <= j < i ==> a@[j] == b@[j],
        decreases a.len() - i,
    {
        if a[i] != b[i] {
            return false;
        }
        i = i + 1;
    }
    proof {
        assert(a@ =~= b@);
    }
    true
}

/// A fresh copy of a byte vector.
pub fn bytes_clone(a: &Vec<u8>) -> (r: Vec<u8>)
    ensures
        r@ == a@,
{
    let mut r: Vec<u8> = Vec::new();
    let mut i: usize = 0;
    while i < a.len()
        invariant
            i <= a.len(),
            r@ =~= a@.subrange(0, i as int),
        decreases a.len() - i,
    {
        r.push(a[i]);
        i = i + 1;
    }
    proof {
        assert(a@.subrange(0, a@.len() as int) =~= a@);
    }
    r
}

impl Value {
    /// A deep copy: the copy has the same model as the original.
    pub fn deep_clone(&self) -> (r: Value)
        ensures
            r@ == self@,
        decreases *self,
    {
        match self {
            Value::Null => Value::Null,
            Value::Bool(b) => Value::Bool(*b),
            Value::Number(n) => Value::Number(*n),
            Value::Text(t) => Value::Text(bytes_clone(t)),
            Value::Array(a) => {
                let mut out: Vec<Value> = Vec::new();
                let mut i: usize = 0;
                while i < a.len()
                    invariant
                        i <= a.len(),
                        out@.len() == i,
                        *self == Value::Array(*a),
                        forall|j: int| 0 <= j < i ==> #[trigger] view_value(out@[j]) == view_value(a@[j]),
                    decreases a.len() - i,
                {
                    proof {
                        assert(*a == self->Array_0);
                        assert(decreases_to!(*self => self->Array_0));
                        assert(decreases_to!(*a => a@));
                        assert(decreases_to!(a@ => a@[i as int]));
                        assert(decreases_to!(*self => a@[i as int]));
                    }
                    let c = a[i].deep_clone();
                    out.push(c);
                    i = i + 1;
                }
                proof {
                    lemma_view_array_index(out@);
                    lemma_view_array_index(a@);
                    assert(view_array(out@) =~= view_array(a@));
                }
                Value::Array(out)
            },
            Value::Object(m) => {
                let mut out: Vec<(Vec<u8>, Value)> = Vec::new();
                let mut i: usize = 0;
                while i < m.len()
                    invariant
                        i <= m.len(),
                        out@.len() == i,
                        *self == Value::Object(*m),
                        forall|j: int| 0 <= j < i ==> #[trigger] out@[j].0@ == m@[j].0@,
                        forall|j: int|
                            0 <= j < i ==> #[trigger] view_value(out@[j].1) == view_value(m@[j].1),
                    decreases m.len() - i,
                {
                    proof {
                        assert(*m == self->Object_0);
                        assert(decreases_to!(*self => self->Object_0));
                        assert(decreases_to!(*m => m@));
                        assert(decreases_to!(m@ => m@[i as int]));
                        assert(decreases_to!(*self => m@[i as int]));
                        assert(decreases_to!(m@[i as int] => m@[i as int].1));
                    }
                    let k = bytes_clone(&m[i].0);
                    let v = m[i].1.deep_clone();
                    out.push((k, v));
                    i = i + 1;
                }
                proof {
                    lemma_view_object_index(out@);
                    lemma_view_object_index(m@);
                    assert(view_object(out@) =~= view_object(m@));
                }
                Value::Object(out)
            },
        }
    }

    /// Structural equality of two values, as the models compare: numbers by
    /// value, text by content, arrays and objects element by element in order.
    pub fn eq_value(&self, other: &Value) -> (r: bool)
        ensures
            r == (self@ == other@),
        decreases *self,
    {
        match (self, other) {
            (Value::Null, Value::Null) => true,
            (Value::Bool(x), Value::Bool(y)) => *x == *y,
            (Value::Number(x), Value::Number(y)) => *x == *y,
            (Value::Text(x), Value::Text(y)) => bytes_eq(x, y),
            (Value::Array(x), Value::Array(y)) => {
                proof {
                    lemma_view_array_index(x@);
                    lemma_view_array_index(y@);
                }
                if x.len() != y.len() {
                    return false;
                }
                let mut i: usize = 0;
                while i < x.len()
                    invariant
                        i <= x.len(),
                        x.len() == y.len(),
                        *self == Value::Array(*x),
                        *other == Value::Array(*y),
                        view_array(x@).len() == x@.len(),
                        view_array(y@).len() == y@.len(),
                        forall|j: int| 0 <= j < x@.len() ==> view_array(x@)[j] == view_value(x@[j]),
                        forall|j: int| 0 <= j < y@.len() ==> view_array(y@)[j] == view_value(y@[j]),
                        forall|j: int|
                            0 <= j < i ==> #[trigger] view_value(x@[j]) == view_value(y@[j]),
                    decreases x.len() - i,
                {
                    proof {
                        assert(*x == self->Array_0);
                        assert(decreases_to!(*self => self->Array_0));
                        assert(decreases_to!(*x => x@));
                        assert(decreases_to!(x@ => x@[i as int]));
                        assert(decreases_to!(*self => x@[i as int]));
                    }
                    if !x[i].eq_value(&y[i]) {
                        proof {
                            assert(view_array(x@)[i as int] != view_array(y@)[i as int]);
                        }
                        return false;
                    }
                    i = i + 1;
                }
                proof {
                    assert(view_array(x@) =~= view_array(y@));
                }
                true
            },
            (Value::Object(x), Value::Object(y)) => {
                proof {
                    lemma_view_object_index(x@);
                    lemma_view_object_index(y@);
                }
                if x.len() != y.len() {
                    return false;
                }
                let mut i: usize = 0;
                while i < x.len()
                    invariant
                        i <= x.len(),
                        x.len() == y.len(),
                        *self == Value::Object(*x),
                        *other == Value::Object(*y),
                        view_object(x@).len() == x@.len(),
                        view_object(y@).len() == y@.len(),
                        forall|j: int|
                            0 <= j < x@.len() ==> view_object(x@)[j] == (x@[j].0@, view_value(x@[j].1)),
                        forall|j: int|
                            0 <= j < y@.len() ==> view_object(y@)[j] == (y@[j].0@, view_value(y@[j].1)),
                        forall|j: int| 0 <= j < i ==> #[trigger] x@[j].0@ == y@[j].0@,
                        forall|j: int|
                            0 <= j < i ==> #[trigger] view_value(x@[j].1) == view_value(y@[j].1),
                    decreases x.len() - i,
                {
                    proof {
                        assert(*x == self->Object_0);
                        assert(decreases_to!(*self => self->Object_0));
                        assert(decreases_to!(*x => x@));
                        assert(decreases_to!(x@ => x@[i as int]));
                        assert(decreases_to!(*self => x@[i as int]));
                        assert(decreases_to!(x@[i as int] => x@[i as int].1));
                    }
                    if !bytes_eq(&x[i].0, &y[i].0) {
                        proof {
                            assert(view_object(x@)[i as int] != view_object(y@)[i as int]);
                        }
                        return false;
                    }
                    if !x[i].1.eq_value(&y[i].1) {
                        proof {
                            assert(view_object(x@)[i as int] != view_object(y@)[i as int]);
                        }
                        return false;
                    }
                    i = i + 1;
                }
                proof {
                    assert(view_object(x@) =~= view_object(y@));
                }
                true
            },
            _ => false,
        }
    }
}

/// The truthiness rule: `Null`, `false`, numeric zero and empty text are
/// falsy; every other value is truthy.
pub open spec fn spec_truthy(v: SpecValue) -> bool {
    match v {
        SpecValue::Null => false,
        SpecValue::Bool(b) => b,
        SpecValue::Number(n) => n != 0,
        SpecValue::Text(t) => t.len() != 0,
        SpecValue::Array(_) => true,
        SpecValue::Object(_) => true,
    }
}

/// Coerces a value to a boolean by the truthiness rule.
pub fn truthy(v: &Value) -> (r: bool)
    ensures
        r == spec_truthy(v@),
{
    match v {
        Value::Null => false,
        Value::Bool(b) => *b,
        Value::Number(n) => *n != 0,
        Value::Text(t) => t.len() != 0,
        Value::Array(_) => true,
        Value::Object(_) => true,
    }
}

} // verus!
