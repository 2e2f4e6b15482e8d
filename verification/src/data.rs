//! The data model: one element of the input sequence, the request that holds
//! an ordered sequence of elements, and the two-field response.

use vstd::prelude::*;

verus! {

/// One entry of the input sequence: either a text string or a signed integer.
/// No other variant exists; anything else in the wire encoding is rejected
/// during decoding and never reaches the aggregator.
#[derive(Debug, PartialEq, Eq)]
pub enum DataType {
    Text(String),
    Num(i32),
}

/// The request payload: an ordered sequence of elements, possibly empty.
#[derive(Debug, PartialEq, Eq)]
pub struct DataRequest {
    pub data: Vec<DataType>,
}

/// The aggregate result: the total character count of the text elements and
/// the sum of the integer elements. Both fields are present even when the
/// corresponding partition of the input is empty (value 0).
#[derive(Debug, PartialEq, Eq, Structural, Clone, Copy)]
pub struct DataResponse {
    pub string_len: usize,
    pub int_sum: i32,
}

} // verus!
