//! The aggregator: a single linear pass over the request's elements that
//! folds the text partition into a total character count and the numeric
//! partition into an integer sum.
//!
//! Two policy choices are fixed here and stated in the contracts:
//! - character counts are measured in Unicode scalar values;
//! - both running sums wrap around on overflow, so each response field is the
//!   exact mathematical sum of its partition reduced modulo the width of its
//!   machine type.

use vstd::arithmetic::div_mod::{
    lemma_add_mod_noop_right, lemma_mod_add_multiples_vanish, lemma_mod_bound,
    lemma_mod_sub_multiples_vanish, lemma_small_mod,
};
use vstd::prelude::*;
use vstd::seq_lib::group_to_multiset_ensures;
use vstd::string::StrSliceExecFns;

use crate::data::{DataRequest, DataResponse, DataType};

verus! {

/// Characters (Unicode scalar values) one element contributes to `string_len`.
pub open spec fn text_len(e: DataType) -> int {
    match e {
        DataType::Text(s) => s@.len() as int,
        DataType::Num(_) => 0,
    }
}

/// Value one element contributes to `int_sum`.
pub open spec fn num_val(e: DataType) -> int {
    match e {
        DataType::Text(_) => 0,
        DataType::Num(n) => n as int,
    }
}

/// Exact (unbounded) total character count of the text elements of `s`.
pub open spec fn string_len_sum(s: Seq<DataType>) -> int
    decreases s.len(),
{
    if s.len() == 0 {
        0
    } else {
        string_len_sum(s.drop_last()) + text_len(s.last())
    }
}

/// Exact (unbounded) sum of the integer elements of `s`.
pub open spec fn int_sum_of(s: Seq<DataType>) -> int
    decreases s.len(),
{
    if s.len() == 0 {
        0
    } else {
        int_sum_of(s.drop_last()) + num_val(s.last())
    }
}

/// One more than `usize::MAX`: the modulus of wrapping `usize` arithmetic.
pub open spec fn usize_modulus() -> int {
    usize::MAX as int + 1
}

/// The modulus of wrapping `i32` arithmetic.
pub open spec fn i32_modulus() -> int {
    0x1_0000_0000
}

/// `n` reduced into `0 ..= usize::MAX`, as wrapping `usize` addition does.
pub open spec fn wrap_usize(n: int) -> int {
    n % usize_modulus()
}

/// `n` reduced into `i32::MIN ..= i32::MAX`, as wrapping `i32` addition does.
pub open spec fn wrap_i32(n: int) -> int {
    (n + 0x8000_0000) % i32_modulus() - 0x8000_0000
}

/// The subsequence of text elements of `s`, in order.
pub open spec fn text_partition(s: Seq<DataType>) -> Seq<DataType> {
    s.filter(|e: DataType| e is Text)
}

/// The subsequence of integer elements of `s`, in order.
pub open spec fn num_partition(s: Seq<DataType>) -> Seq<DataType> {
    s.filter(|e: DataType| e is Num)
}

/// What the aggregator promises of a response `r` for the element sequence
/// `s`: each field is the exact sum of its partition, reduced into the range
/// of its machine type by wrapping.
pub open spec fn response_matches(r: DataResponse, s: Seq<DataType>) -> bool {
    &&& r.string_len as int == wrap_usize(string_len_sum(s))
    &&& r.int_sum as int == wrap_i32(int_sum_of(s))
}

/// Extending a prefix by one element adds exactly that element's contribution
/// to each partition sum.
proof fn lemma_sum_take_step(s: Seq<DataType>, i: int)
    requires
        0 <= i < s.len(),
    ensures
        string_len_sum(s.take(i + 1)) == string_len_sum(s.take(i)) + text_len(s[i]),
        int_sum_of(s.take(i + 1)) == int_sum_of(s.take(i)) + num_val(s[i]),
{
    assert(s.take(i + 1).drop_last() =~= s.take(i));
    assert(s.take(i + 1).last() == s[i]);
}

/// Wrapping zero is zero, for both accumulators.
proof fn lemma_wrap_zero()
    ensures
        wrap_usize(0) == 0,
        wrap_i32(0) == 0,
{
    lemma_small_mod(0nat, usize_modulus() as nat);
    lemma_small_mod(0x8000_0000nat, i32_modulus() as nat);
}

/// Adding one in-range summand `b` to an accumulator `x` that already wraps
/// the exact sum `a`, and wrapping the result once, wraps `a + b`.
proof fn lemma_wrap_usize_step(a: int, x: int, b: int)
    requires
        x == wrap_usize(a),
        0 <= b <= usize::MAX as int,
    ensures
        0 <= x <= usize::MAX as int,
        x + b <= usize::MAX as int ==> wrap_usize(a + b) == x + b,
        x + b > usize::MAX as int ==> wrap_usize(a + b) == x + b - usize_modulus(),
{
    let m: int = usize_modulus();
    lemma_mod_bound(a, m);
    lemma_add_mod_noop_right(b, a, m);
    assert((b + x) % m == (a + b) % m);
    if x + b <= usize::MAX as int {
        lemma_small_mod((x + b) as nat, m as nat);
    } else {
        lemma_mod_sub_multiples_vanish(x + b, m);
        lemma_small_mod((x + b - m) as nat, m as nat);
    }
}

/// The `i32` counterpart of `lemma_wrap_usize_step`: one wrapping addition on
/// an accumulator that wraps `a` yields the wrap of `a + b`.
proof fn lemma_wrap_i32_step(a: int, x: int, b: int)
    requires
        x == wrap_i32(a),
        i32::MIN as int <= b <= i32::MAX as int,
    ensures
        i32::MIN as int <= x <= i32::MAX as int,
        i32::MIN as int <= x + b <= i32::MAX as int ==> wrap_i32(a + b) == x + b,
        x + b > i32::MAX as int ==> wrap_i32(a + b) == x + b - i32_modulus(),
        x + b < i32::MIN as int ==> wrap_i32(a + b) == x + b + i32_modulus(),
{
    let m: int = i32_modulus();
    let h: int = 0x8000_0000;
    lemma_mod_bound(a + h, m);
    lemma_add_mod_noop_right(b, a + h, m);
    assert((b + (x + h)) % m == (a + b + h) % m);
    if i32::MIN as int <= x + b <= i32::MAX as int {
        lemma_small_mod((x + b + h) as nat, m as nat);
    } else if x + b > i32::MAX as int {
        lemma_mod_sub_multiples_vanish(x + b + h, m);
        lemma_small_mod((x + b + h - m) as nat, m as nat);
    } else {
        lemma_mod_add_multiples_vanish(x + b + h, m);
        lemma_small_mod((x + b + h + m) as nat, m as nat);
    }
}

/// The aggregator. One linear pass; for each element, a closed two-way branch
/// on its tag adds the element's contribution to the matching accumulator.
/// Character counts are measured in Unicode scalar values, and both running
/// sums wrap around on overflow, as `response_matches` states.
pub fn process_data(request: DataRequest) -> (r: DataResponse)
    ensures
        response_matches(r, request.data@),
{
    let data = request.data;
    let ghost s = data@;
    let mut string_len: usize = 0;
    let mut int_sum: i32 = 0;
    proof {
        lemma_wrap_zero();
        assert(s.take(0) =~= Seq::<DataType>::empty());
    }
    let n: usize = data.len();
    for i in 0..n
        invariant
            n == data.len(),
            data@ == s,
            string_len as int == wrap_usize(string_len_sum(s.take(i as int))),
            int_sum as int == wrap_i32(int_sum_of(s.take(i as int))),
    {
        match &data[i] {
            DataType::Text(t) => {
                let l: usize = t.as_str().unicode_len();
                proof {
                    lemma_sum_take_step(s, i as int);
                    lemma_wrap_usize_step(
                        string_len_sum(s.take(i as int)),
                        string_len as int,
                        l as int,
                    );
                }
                string_len = string_len.wrapping_add(l);
            },
            DataType::Num(v) => {
                let value: i32 = *v;
                proof {
                    lemma_sum_take_step(s, i as int);
                    lemma_wrap_i32_step(
                        int_sum_of(s.take(i as int)),
                        int_sum as int,
                        value as int,
                    );
                }
                int_sum = int_sum.wrapping_add(value);
            },
        }
    }
    proof {
        assert(s.take(n as int) =~= s);
    }
    DataResponse { string_len, int_sum }
}

/// Removing the element at index `j` subtracts exactly that element's
/// contribution from each partition sum.
proof fn lemma_sum_remove(s: Seq<DataType>, j: int)
    requires
        0 <= j < s.len(),
    ensures
        string_len_sum(s.remove(j)) == string_len_sum(s) - text_len(s[j]),
        int_sum_of(s.remove(j)) == int_sum_of(s) - num_val(s[j]),
    decreases s.len(),
{
    if j == s.len() - 1 {
        assert(s.remove(j) =~= s.drop_last());
    } else {
        assert(s.remove(j).drop_last() =~= s.drop_last().remove(j));
        assert(s.remove(j).last() == s.last());
        lemma_sum_remove(s.drop_last(), j);
        assert(s.drop_last()[j] == s[j]);
    }
}

/// The partition sums do not depend on the order of the elements: any two
/// sequences holding the same multiset of elements have the same total
/// character count and the same integer sum.
pub proof fn lemma_sums_order_independent(s1: Seq<DataType>, s2: Seq<DataType>)
    requires
        s1.to_multiset() == s2.to_multiset(),
    ensures
        string_len_sum(s1) == string_len_sum(s2),
        int_sum_of(s1) == int_sum_of(s2),
    decreases s1.len(),
{
    broadcast use group_to_multiset_ensures;

    if s1.len() == 0 {
        assert(s1.to_multiset().len() == 0);
        assert(s2.len() == s2.to_multiset().len());
    } else {
        let last_index: int = s1.len() - 1;
        let x = s1.last();
        assert(s1.contains(x));
        assert(s1.to_multiset().count(x) > 0);
        assert(s2.to_multiset().count(x) > 0);
        assert(s2.contains(x));
        let j = choose|j: int| 0 <= j < s2.len() && s2[j] == x;
        lemma_sum_remove(s2, j);
        assert(s1.remove(last_index).to_multiset() == s1.to_multiset().remove(x));
        assert(s1.remove(last_index) =~= s1.drop_last());
        assert(s2.remove(j).to_multiset() == s2.to_multiset().remove(x));
        lemma_sums_order_independent(s1.drop_last(), s2.remove(j));
    }
}

/// Each sum counts exactly its own partition: restricting the sequence to
/// its text elements leaves the total character count unchanged, and
/// restricting it to its integer elements leaves the integer sum unchanged.
pub proof fn lemma_sums_over_partitions(s: Seq<DataType>)
    ensures
        string_len_sum(s) == string_len_sum(text_partition(s)),
        int_sum_of(s) == int_sum_of(num_partition(s)),
    decreases s.len(),
{
    reveal(Seq::filter);
    if s.len() > 0 {
        lemma_sums_over_partitions(s.drop_last());
        let x = s.last();
        if x is Text {
            assert(text_partition(s) == text_partition(s.drop_last()).push(x));
            assert(text_partition(s.drop_last()).push(x).drop_last() =~= text_partition(
                s.drop_last(),
            ));
            assert(num_partition(s) == num_partition(s.drop_last()));
        } else {
            assert(num_partition(s) == num_partition(s.drop_last()).push(x));
            assert(num_partition(s.drop_last()).push(x).drop_last() =~= num_partition(
                s.drop_last(),
            ));
            assert(text_partition(s) == text_partition(s.drop_last()));
        }
    }
}

/// The aggregate is a function of the element sequence alone: any two
/// responses that satisfy the aggregator's contract for the same sequence
/// are equal. Repeating a call on the same request therefore repeats the
/// response.
pub proof fn lemma_response_deterministic(s: Seq<DataType>, r1: DataResponse, r2: DataResponse)
    requires
        response_matches(r1, s),
        response_matches(r2, s),
    ensures
        r1 == r2,
{
    assert(r1.string_len == r2.string_len);
    assert(r1.int_sum == r2.int_sum);
}

/// Order independence at the response level: responses that satisfy the
/// aggregator's contract for two reorderings of the same elements are equal.
pub proof fn lemma_response_order_independent(
    s1: Seq<DataType>,
    s2: Seq<DataType>,
    r1: DataResponse,
    r2: DataResponse,
)
    requires
        s1.to_multiset() == s2.to_multiset(),
        response_matches(r1, s1),
        response_matches(r2, s2),
    ensures
        r1 == r2,
{
    lemma_sums_order_independent(s1, s2);
    lemma_response_deterministic(s1, r1, r2);
}

} // verus!
