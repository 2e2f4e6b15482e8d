//! Aggregation over a mixed sequence of text and integer elements.
//!
//! A request holds an ordered sequence of elements, each either a text string
//! or a signed integer. The aggregator folds the sequence into two scalars:
//! the total character count of the text elements and the sum of the integer
//! elements. The decode module holds the closed two-way rule that admits a
//! raw JSON array element as text or integer and rejects everything else.

pub mod aggregate;
pub mod data;
pub mod decode;
