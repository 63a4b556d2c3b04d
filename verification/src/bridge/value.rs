//! Neovim's msgpack values, as the parser reads them.
//!
//! The RPC layer decodes msgpack; the shell converts each decoded value into this type, which
//! keeps what the parser needs: integers with their sign, floats as their IEEE bit patterns,
//! strings with their UTF-8 validity, and the nested arrays and maps.

use vstd::prelude::*;

verus! {

/// A msgpack integer: non-negative values, or negative ones.
#[derive(Clone, Copy, Debug, PartialEq, Eq, Structural)]
pub enum Integer {
    PosInt(u64),
    NegInt(i64),
}

impl Integer {
    pub open spec fn spec_as_u64(self) -> Option<u64> {
        match self {
            Integer::PosInt(n) => Some(n),
            Integer::NegInt(n) => if n >= 0 { Some(n as u64) } else { None },
        }
    }

    pub open spec fn spec_as_i64(self) -> Option<i64> {
        match self {
            Integer::PosInt(n) => if n <= i64::MAX { Some(n as i64) } else { None },
            Integer::NegInt(n) => Some(n),
        }
    }

    /// The value as `u64`, if it is one.
    pub fn as_u64(&self) -> (r: Option<u64>)
        ensures
            r == self.spec_as_u64(),
    {
        match *self {
            Integer::PosInt(n) => Some(n),
            Integer::NegInt(n) => if n >= 0 { Some(n as u64) } else { None },
        }
    }

    /// The value as `i64`, if it is one.
    pub fn as_i64(&self) -> (r: Option<i64>)
        ensures
            r == self.spec_as_i64(),
    {
        match *self {
            Integer::PosInt(n) => if n <= i64::MAX as u64 { Some(n as i64) } else { None },
            Integer::NegInt(n) => Some(n),
        }
    }
}

/// A msgpack string: valid UTF-8 text, or the raw bytes of an invalid one.
#[derive(Debug)]
pub enum Utf8Str {
    Valid(String),
    Invalid(Vec<u8>),
}

/// A number the parser hands on as a float: an integer, or a float's IEEE bits.
#[derive(Clone, Copy, Debug, PartialEq, Eq, Structural)]
pub enum FloatValue {
    Int(Integer),
    F32(u32),
    F64(u64),
}

#[derive(Debug)]
pub enum Value {
    Nil,
    Boolean(bool),
    Integer(Integer),
    /// A 32-bit float, by its bits.
    F32(u32),
    /// A 64-bit float, by its bits.
    F64(u64),
    String(Utf8Str),
    Binary(Vec<u8>),
    Array(Vec<Value>),
    /// A msgpack map: key-value pairs in order.
    Dict(Vec<(Value, Value)>),
    Ext(i8, Vec<u8>),
}

/// A string as values: its text, or the bytes when it is not UTF-8.
pub enum StrView {
    Valid(Seq<char>),
    Invalid(Seq<u8>),
}

/// A value as values.
pub enum ValueView {
    Nil,
    Boolean(bool),
    Integer(Integer),
    F32(u32),
    F64(u64),
    String(StrView),
    Binary(Seq<u8>),
    Array(Seq<ValueView>),
    Dict(Seq<(ValueView, ValueView)>),
    Ext(i8, Seq<u8>),
}

pub open spec fn str_view(s: &Utf8Str) -> StrView {
    match s {
        Utf8Str::Valid(t) => StrView::Valid(t@),
        Utf8Str::Invalid(b) => StrView::Invalid(b@),
    }
}

pub open spec fn value_view(v: &Value) -> ValueView
    decreases v,
{
    match v {
        Value::Nil => ValueView::Nil,
        Value::Boolean(b) => ValueView::Boolean(*b),
        Value::Integer(n) => ValueView::Integer(*n),
        Value::F32(b) => ValueView::F32(*b),
        Value::F64(b) => ValueView::F64(*b),
        Value::String(s) => ValueView::String(str_view(s)),
        Value::Binary(b) => ValueView::Binary(b@),
        Value::Array(items) => ValueView::Array(values_view(items@)),
        Value::Dict(entries) => ValueView::Dict(entries_view(entries@)),
        Value::Ext(t, b) => ValueView::Ext(*t, b@),
    }
}

pub open spec fn values_view(items: Seq<Value>) -> Seq<ValueView>
    decreases items,
{
    Seq::new(items.len(), |i: int| if 0 <= i < items.len() { value_view(&items[i]) } else { ValueView::Nil })
}

pub open spec fn entries_view(entries: Seq<(Value, Value)>) -> Seq<(ValueView, ValueView)>
    decreases entries,
{
    Seq::new(
        entries.len(),
        |i: int|
            if 0 <= i < entries.len() {
                (value_view(&entries[i].0), value_view(&entries[i].1))
            } else {
                (ValueView::Nil, ValueView::Nil)
            },
    )
}

impl View for Value {
    type V = ValueView;

    open spec fn view(&self) -> ValueView {
        value_view(self)
    }
}

/// A copy of a value.
#[verifier::loop_isolation(false)]
pub fn clone_value(v: &Value) -> (r: Value)
    ensures
        r@ == v@,
    decreases v,
{
    match v {
        Value::Nil => Value::Nil,
        Value::Boolean(b) => Value::Boolean(*b),
        Value::Integer(n) => Value::Integer(*n),
        Value::F32(b) => Value::F32(*b),
        Value::F64(b) => Value::F64(*b),
        Value::String(Utf8Str::Valid(t)) => Value::String(Utf8Str::Valid(t.clone())),
        Value::String(Utf8Str::Invalid(b)) => Value::String(Utf8Str::Invalid(b.clone())),
        Value::Binary(b) => Value::Binary(b.clone()),
        Value::Array(items) => {
            let mut out: Vec<Value> = Vec::new();
            let mut i: usize = 0;
            while i < items.len()
                invariant
                    i <= items@.len(),
                    out@.len() == i,
                    forall|j: int| 0 <= j < i ==> #[trigger] value_view(&out@[j]) == value_view(&items@[j]),
                decreases items@.len() - i,
            {
                proof {
                    assert((*v)->Array_0 == *items);
                    assert(decreases_to!(*v => (*v)->Array_0));
                    assert(decreases_to!(*items => items@));
                    assert(decreases_to!(items@ => items@[i as int]));
                }
                out.push(clone_value(&items[i]));
                i += 1;
            }
            proof {
                assert forall|j: int| 0 <= j < out@.len() implies #[trigger] values_view(out@)[j] == values_view(items@)[j] by {
                    assert(values_view(out@)[j] == value_view(&out@[j]));
                    assert(values_view(items@)[j] == value_view(&items@[j]));
                }
                assert(values_view(out@) =~= values_view(items@));
            }
            Value::Array(out)
        },
        Value::Dict(entries) => {
            let mut out: Vec<(Value, Value)> = Vec::new();
            let mut i: usize = 0;
            while i < entries.len()
                invariant
                    i <= entries@.len(),
                    out@.len() == i,
                    forall|j: int|
                        0 <= j < i ==> #[trigger] value_view(&out@[j].0) == value_view(&entries@[j].0)
                            && value_view(&out@[j].1) == value_view(&entries@[j].1),
                decreases entries@.len() - i,
            {
                proof {
                    assert((*v)->Dict_0 == *entries);
                    assert(decreases_to!(*v => (*v)->Dict_0));
                    assert(decreases_to!(*entries => entries@));
                    assert(decreases_to!(entries@ => entries@[i as int]));
                    assert(decreases_to!(entries@[i as int] => entries@[i as int].0));
                    assert(decreases_to!(entries@[i as int] => entries@[i as int].1));
                }
                let k = clone_value(&entries[i].0);
                let x = clone_value(&entries[i].1);
                out.push((k, x));
                i += 1;
            }
            proof {
                assert forall|j: int| 0 <= j < out@.len() implies #[trigger] entries_view(out@)[j] == entries_view(entries@)[j] by {
                    assert(entries_view(out@)[j] == (value_view(&out@[j].0), value_view(&out@[j].1)));
                    assert(entries_view(entries@)[j] == (value_view(&entries@[j].0), value_view(&entries@[j].1)));
                }
                assert(entries_view(out@) =~= entries_view(entries@));
            }
            Value::Dict(out)
        },
        Value::Ext(t, b) => Value::Ext(*t, b.clone()),
    }
}

/// Copies of a list of values.
pub fn clone_values(items: &Vec<Value>) -> (r: Vec<Value>)
    ensures
        values_view(r@) == values_view(items@),
{
    let mut out: Vec<Value> = Vec::new();
    let mut i: usize = 0;
    while i < items.len()
        invariant
            i <= items@.len(),
            out@.len() == i,
            forall|j: int| 0 <= j < i ==> #[trigger] value_view(&out@[j]) == value_view(&items@[j]),
        decreases items@.len() - i,
    {
        out.push(clone_value(&items[i]));
        i += 1;
    }
    proof {
        assert forall|j: int| 0 <= j < out@.len() implies #[trigger] values_view(out@)[j] == values_view(items@)[j] by {
            assert(values_view(out@)[j] == value_view(&out@[j]));
            assert(values_view(items@)[j] == value_view(&items@[j]));
        }
        assert(values_view(out@) =~= values_view(items@));
    }
    out
}

} // verus!
