//! The input rule for raw JSON array elements.
//!
//! The wire encoding carries the elements untagged: a decoder must admit an
//! element purely from the native shape of the JSON value. This module states
//! that rule as a closed two-case parse: a string is accepted as text, a
//! number with an integral value in the `i32` range is accepted as an
//! integer, and every other value (boolean, null, array, object, or a number
//! outside the range) is rejected before it can reach the aggregator.

use vstd::prelude::*;

use crate::data::{DataRequest, DataType};

verus! {

/// The shape of one raw JSON array element, as far as the input rule reads
/// it. The transport layer maps each decoded JSON value onto one variant.
#[derive(Debug, PartialEq, Eq)]
pub enum RawValue {
    /// A JSON string.
    Text(String),
    /// A JSON number with an integral value representable in 64 bits.
    Int(i64),
    /// A JSON boolean.
    Bool(bool),
    /// JSON null.
    Null,
    /// Any other JSON value: an array, an object, or a number with no 64-bit
    /// integral value.
    Other,
}

/// Why a sequence of raw elements was rejected.
#[derive(Debug, PartialEq, Eq, Structural, Clone, Copy)]
pub enum DecodeError {
    /// The element at this index is neither a string nor an integer in the
    /// accepted range.
    InvalidElement(usize),
}

/// The closed two-way input rule: a string is admitted as text, a number is
/// admitted when its integral value fits an `i32`, everything else is
/// rejected.
pub open spec fn spec_classify(v: RawValue) -> Option<DataType> {
    match v {
        RawValue::Text(s) => Some(DataType::Text(s)),
        RawValue::Int(n) => if i32::MIN as int <= n as int <= i32::MAX as int {
            Some(DataType::Num(n as i32))
        } else {
            None
        },
        _ => None,
    }
}

/// Classify one raw element: returns exactly what `spec_classify` admits.
pub fn classify_element(v: &RawValue) -> (r: Option<DataType>)
    ensures
        r == spec_classify(*v),
{
    match v {
        RawValue::Text(s) => Some(DataType::Text(s.clone())),
        RawValue::Int(n) => {
            if i32::MIN as i64 <= *n && *n <= i32::MAX as i64 {
                Some(DataType::Num(*n as i32))
            } else {
                None
            }
        },
        _ => None,
    }
}

/// Decode a sequence of raw elements into a request for the aggregator.
/// Succeeds, with each element decoded by the input rule in order, exactly
/// when every element is admitted; otherwise reports the first offending
/// index.
pub fn decode_request(values: Vec<RawValue>) -> (r: Result<DataRequest, DecodeError>)
    ensures
        match r {
            Ok(req) => {
                &&& req.data@.len() == values@.len()
                &&& forall|k: int|
                    0 <= k < values@.len() ==> Some(#[trigger] req.data@[k]) == spec_classify(
                        values@[k],
                    )
            },
            Err(DecodeError::InvalidElement(i)) => {
                &&& (i as int) < values@.len()
                &&& spec_classify(values@[i as int]) is None
                &&& forall|k: int|
                    0 <= k < i as int ==> (#[trigger] spec_classify(values@[k])) is Some
            },
        },
{
    let mut out: Vec<DataType> = Vec::new();
    let n: usize = values.len();
    for i in 0..n
        invariant
            n == values.len(),
            out@.len() == i,
            forall|k: int|
                0 <= k < i as int ==> Some(#[trigger] out@[k]) == spec_classify(values@[k]),
    {
        match classify_element(&values[i]) {
            Some(e) => {
                out.push(e);
            },
            None => {
                proof {
                    assert forall|k: int| 0 <= k < i as int implies (#[trigger] spec_classify(
                        values@[k],
                    )) is Some by {
                        assert(Some(out@[k]) == spec_classify(values@[k]));
                    }
                }
                return Err(DecodeError::InvalidElement(i));
            },
        }
    }
    Ok(DataRequest { data: out })
}

} // verus!
