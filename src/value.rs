use vstd::prelude::*;

use crate::error::SessionError;

verus! {

/// A value written to a topic, after numeric normalisation.
///
/// Every number, integer or floating-point, arrives here as a double, held as
/// its IEEE-754 bit pattern: the session never computes with it, it only
/// carries it to the wire.
#[derive(Debug, PartialEq, Eq)]
pub enum Value {
    Double(u64),
    Str(String),
    Boolean(bool),
    /// A string value whose bytes are not valid UTF-8, kept as received.
    MalformedStr(Vec<u8>),
    /// Any other tag of the protocol's value model (nil, binary, array, map,
    /// extension): never publishable.
    Unsupported,
}

/// The topic type announced to the server when a publisher is created.
#[derive(PartialEq, Eq, Structural, Clone, Copy, Debug)]
pub enum WireType {
    Double,
    String,
    Boolean,
}

/// The wire type a value is published as, if it has one.
pub open spec fn type_of(v: Value) -> Option<WireType> {
    match v {
        Value::Double(_) => Some(WireType::Double),
        Value::Str(_) => Some(WireType::String),
        Value::MalformedStr(_) => Some(WireType::String),
        Value::Boolean(_) => Some(WireType::Boolean),
        Value::Unsupported => None,
    }
}

/// Whether a value may be published at all.
pub open spec fn is_publishable(v: Value) -> bool {
    type_of(v).is_some()
}

/// Infers the wire type of a value: total over the publishable tags, an error
/// for every other tag.
pub fn value_to_type(value: &Value) -> (r: Result<WireType, SessionError>)
    ensures
        match type_of(*value) {
            Some(t) => r == Ok::<WireType, SessionError>(t),
            None => r matches Err(SessionError::UnsupportedValueType),
        },
{
    match value {
        Value::Double(_) => Ok(WireType::Double),
        Value::Str(_) => Ok(WireType::String),
        Value::MalformedStr(_) => Ok(WireType::String),
        Value::Boolean(_) => Ok(WireType::Boolean),
        Value::Unsupported => Err(SessionError::UnsupportedValueType),
    }
}

} // verus!
