//! Quartiles by nearest rank over sorted sample keys.

use vstd::prelude::*;
use vstd::relations::{sorted_by, total_ordering};
use vstd::seq_lib::lemma_sorted_unique;
use crate::sample::{
    is_finite_bits, key_bits, key_bits_spec, key_order_is_number_order, scaled_value,
};

verus! {

/// Which of the three quartiles is asked for.
#[derive(Clone, Copy, Debug, PartialEq, Eq, Structural)]
pub enum Quarter {
    First,
    Second,
    Third,
}

/// The three quartiles of a band, each as the binary64 pattern of a sample.
#[derive(Clone, Copy, Debug, PartialEq, Eq, Structural)]
pub struct Quartiles {
    pub q1: u64,
    pub median: u64,
    pub q3: u64,
}

/// The number of quarters a quartile stands for.
pub open spec fn quarter_number(q: Quarter) -> int {
    match q {
        Quarter::First => 1,
        Quarter::Second => 2,
        Quarter::Third => 3,
    }
}

/// `(n - 1) * quarters / 4` rounded to the nearest integer, halves upward.
pub open spec fn nearest_rank(n: int, quarters: int) -> int {
    ((n - 1) * quarters + 2) / 4
}

/// The order that keys are sorted by.
pub open spec fn key_leq() -> spec_fn(u64, u64) -> bool {
    |a: u64, b: u64| a <= b
}

/// The keys in ascending order.
pub open spec fn ascending(keys: Seq<u64>) -> Seq<u64> {
    keys.sort_by(key_leq())
}

/// The quartiles picked from a sequence of keys by rank; none when empty.
pub open spec fn quartiles_spec(sorted: Seq<u64>) -> Option<Quartiles> {
    if sorted.len() == 0 {
        None
    } else {
        Some(
            Quartiles {
                q1: key_bits_spec(sorted[nearest_rank(sorted.len() as int, 1)]),
                median: key_bits_spec(sorted[nearest_rank(sorted.len() as int, 2)]),
                q3: key_bits_spec(sorted[nearest_rank(sorted.len() as int, 3)]),
            },
        )
    }
}

pub proof fn key_leq_is_total()
    ensures
        total_ordering(key_leq()),
{
}

/// A rank always lies inside the sequence it is taken for.
pub proof fn nearest_rank_in_range(n: int, quarters: int)
    requires
        n >= 1,
        1 <= quarters <= 3,
    ensures
        0 <= nearest_rank(n, quarters) <= n - 1,
{
    if quarters == 1 {
        assert(nearest_rank(n, 1) == (n + 1) / 4);
    } else if quarters == 2 {
        assert(nearest_rank(n, 2) == (2 * n) / 4);
    } else {
        assert(nearest_rank(n, 3) == (3 * n - 1) / 4);
    }
}

/// The index of a quartile among `n` sorted samples; none when `n` is zero.
pub fn percentile_index(n: usize, quarter: Quarter) -> (idx: Option<usize>)
    ensures
        n == 0 <==> idx.is_none(),
        n >= 1 ==> idx == Some(nearest_rank(n as int, quarter_number(quarter)) as usize),
        n >= 1 ==> idx.unwrap() <= n - 1,
{
    if n == 0 {
        return None;
    }
    let quarters: u128 = match quarter {
        Quarter::First => 1,
        Quarter::Second => 2,
        Quarter::Third => 3,
    };
    let wide: u128 = ((n - 1) as u128) * quarters + 2;
    Some((wide / 4) as usize)
}

/// Picks the quartiles out of keys that are already in order.
pub fn quartiles_of_sorted(sorted: &Vec<u64>) -> (q: Option<Quartiles>)
    ensures
        q == quartiles_spec(sorted@),
{
    let n: usize = sorted.len();
    match (
        percentile_index(n, Quarter::First),
        percentile_index(n, Quarter::Second),
        percentile_index(n, Quarter::Third),
    ) {
        (Some(i1), Some(i2), Some(i3)) => Some(
            Quartiles {
                q1: key_bits(sorted[i1]),
                median: key_bits(sorted[i2]),
                q3: key_bits(sorted[i3]),
            },
        ),
        _ => None,
    }
}

/// `slice::sort_unstable` on a vector of keys. Its documentation promises an
/// ascending result that holds the same items as before.
#[verifier::external_body]
fn sort_keys(keys: &mut Vec<u64>)
    ensures
        sorted_by(final(keys)@, key_leq()),
        final(keys)@.to_multiset() == old(keys)@.to_multiset(),
{
    keys.sort_unstable();
}

/// Sorts the keys and picks the quartiles; none when there are no keys.
pub fn quartiles(keys: Vec<u64>) -> (q: Option<Quartiles>)
    ensures
        q == quartiles_spec(ascending(keys@)),
        q.is_none() <==> keys@.len() == 0,
{
    let ghost before = keys@;
    let mut keys = keys;
    sort_keys(&mut keys);
    proof {
        key_leq_is_total();
        before.lemma_sort_by_ensures(key_leq());
        lemma_sorted_unique(keys@, ascending(before), key_leq());
        before.to_multiset_ensures();
        keys@.to_multiset_ensures();
    }
    quartiles_of_sorted(&keys)
}

/// Sorting what is already sorted changes nothing, so the quartiles of a
/// sequence and of its sorted form are the same.
pub proof fn quartiles_stable_under_resorting(keys: Seq<u64>)
    ensures
        ascending(ascending(keys)) == ascending(keys),
        quartiles_spec(ascending(ascending(keys))) == quartiles_spec(ascending(keys)),
{
    key_leq_is_total();
    keys.lemma_sort_by_ensures(key_leq());
    ascending(keys).lemma_sort_by_ensures(key_leq());
    lemma_sorted_unique(ascending(ascending(keys)), ascending(keys), key_leq());
}

/// The quartiles depend on which keys there are and how often, not on the
/// order in which they arrive.
pub proof fn quartiles_ignore_arrival_order(a: Seq<u64>, b: Seq<u64>)
    requires
        a.to_multiset() == b.to_multiset(),
    ensures
        ascending(a) == ascending(b),
        quartiles_spec(ascending(a)) == quartiles_spec(ascending(b)),
{
    key_leq_is_total();
    a.lemma_sort_by_ensures(key_leq());
    b.lemma_sort_by_ensures(key_leq());
    lemma_sorted_unique(ascending(a), ascending(b), key_leq());
}

/// The quartiles of finite samples come in numeric order: the first is not
/// above the median, and the median not above the third.
pub proof fn quartiles_are_ordered(keys: Seq<u64>)
    requires
        keys.len() > 0,
        forall|i: int| 0 <= i < keys.len() ==> is_finite_bits(key_bits_spec(#[trigger] keys[i])),
    ensures
        quartiles_spec(ascending(keys)).is_some(),
        scaled_value(quartiles_spec(ascending(keys)).unwrap().q1) <= scaled_value(
            quartiles_spec(ascending(keys)).unwrap().median,
        ),
        scaled_value(quartiles_spec(ascending(keys)).unwrap().median) <= scaled_value(
            quartiles_spec(ascending(keys)).unwrap().q3,
        ),
{
    broadcast use vstd::seq_lib::to_multiset_contains;

    let sorted = ascending(keys);
    key_leq_is_total();
    keys.lemma_sort_by_ensures(key_leq());
    keys.to_multiset_ensures();
    sorted.to_multiset_ensures();
    let n = sorted.len() as int;
    assert(n == keys.len());
    nearest_rank_in_range(n, 1);
    nearest_rank_in_range(n, 2);
    nearest_rank_in_range(n, 3);
    let i1 = nearest_rank(n, 1);
    let i2 = nearest_rank(n, 2);
    let i3 = nearest_rank(n, 3);
    assert(i1 <= i2 <= i3);
    assert forall|i: int| 0 <= i < n implies is_finite_bits(key_bits_spec(#[trigger] sorted[i])) by {
        assert(sorted.contains(sorted[i]));
        assert(sorted.to_multiset().count(sorted[i]) > 0);
        assert(keys.contains(sorted[i]));
    }
    assert(sorted[i1] <= sorted[i2]) by {
        if i1 < i2 {
            assert(key_leq()(sorted[i1], sorted[i2]));
        }
    }
    assert(sorted[i2] <= sorted[i3]) by {
        if i2 < i3 {
            assert(key_leq()(sorted[i2], sorted[i3]));
        }
    }
    key_order_is_number_order(sorted[i1], sorted[i2]);
    key_order_is_number_order(sorted[i2], sorted[i3]);
}

} // verus!
