use vstd::prelude::*;

verus! {

/// A decoded value: the result of running a schema over a bit stream.
///
/// Records and variants carry their fields as name/value pairs in
/// declaration order; repeated fields decode to a `List`, optional fields
/// to `Present` or `Absent`.
#[derive(Debug)]
pub enum Value {
    /// An unsigned scalar of up to 64 bits.
    Uint(u64),
    /// A single-bit boolean.
    Bool(bool),
    /// A repeated field's elements, in read order.
    List(Vec<Value>),
    /// A record's fields, in declaration order.
    Record(Vec<(String, Value)>),
    /// A tagged-union value: the chosen variant's name and its fields.
    Variant { name: String, fields: Vec<(String, Value)> },
    /// An optional field that was not present; no bits were consumed.
    Absent,
    /// An optional field that was present.
    Present(Box<Value>),
}

/// Mathematical mirror of `Value`.
pub enum SpecValue {
    Uint(u64),
    Bool(bool),
    List(Seq<SpecValue>),
    Record(Seq<(Seq<char>, SpecValue)>),
    Variant { name: Seq<char>, fields: Seq<(Seq<char>, SpecValue)> },
    Absent,
    Present(Box<SpecValue>),
}

/// The mathematical value of a decoded value.
pub open spec fn value_view(v: Value) -> SpecValue
    decreases v,
{
    match v {
        Value::Uint(u) => SpecValue::Uint(u),
        Value::Bool(b) => SpecValue::Bool(b),
        Value::List(items) => SpecValue::List(values_view(items@)),
        Value::Record(fields) => SpecValue::Record(named_values_view(fields@)),
        Value::Variant { name, fields } => SpecValue::Variant {
            name: name@,
            fields: named_values_view(fields@),
        },
        Value::Absent => SpecValue::Absent,
        Value::Present(inner) => SpecValue::Present(Box::new(value_view(*inner))),
    }
}

/// The mathematical value of each element of a sequence of decoded values.
pub open spec fn values_view(s: Seq<Value>) -> Seq<SpecValue>
    decreases s,
{
    if s.len() == 0 {
        Seq::empty()
    } else {
        seq![value_view(s[0])] + values_view(s.subrange(1, s.len() as int))
    }
}

/// The mathematical value of each name/value pair.
pub open spec fn named_values_view(s: Seq<(String, Value)>) -> Seq<(Seq<char>, SpecValue)>
    decreases s,
{
    if s.len() == 0 {
        Seq::empty()
    } else {
        seq![(s[0].0@, value_view(s[0].1))] + named_values_view(s.subrange(1, s.len() as int))
    }
}

impl View for Value {
    type V = SpecValue;

    open spec fn view(&self) -> SpecValue {
        value_view(*self)
    }
}

/// A decoded value read as a machine scalar: scalars are themselves,
/// booleans count as zero or one, anything else has no scalar reading.
pub open spec fn spec_value_scalar(v: SpecValue) -> Option<u64> {
    match v {
        SpecValue::Uint(u) => Some(u),
        SpecValue::Bool(b) => Some(
            if b {
                1u64
            } else {
                0u64
            },
        ),
        _ => None,
    }
}

impl Value {
    /// The scalar reading of this value, if it has one.
    pub fn as_scalar(&self) -> (r: Option<u64>)
        ensures
            r == spec_value_scalar(self@),
    {
        match self {
            Value::Uint(u) => Some(*u),
            Value::Bool(b) => Some(
                if *b {
                    1
                } else {
                    0
                },
            ),
            _ => None,
        }
    }
}

} // verus!
