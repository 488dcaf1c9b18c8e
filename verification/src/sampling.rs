//! Choosing which files of a directory tree are inspected.

use vstd::prelude::*;
use rand::rngs::ThreadRng;
use rand::seq::SliceRandom;
use crate::error::ToolError;

verus! {

/// A percentage brought into the range from 0 to 100.
pub open spec fn clamp_percent_spec(pct: int) -> int {
    if pct < 0 {
        0
    } else if pct > 100 {
        100
    } else {
        pct
    }
}

/// The number of files to inspect: the percentage of the total, rounded up.
pub open spec fn sample_size_spec(pct: int, n_total: int) -> int {
    (clamp_percent_spec(pct) * n_total + 99) / 100
}

/// The positions `0, 1, .., n - 1` in order.
pub open spec fn index_range(n: int) -> Seq<usize> {
    Seq::new(n as nat, |i: int| i as usize)
}

pub fn clamp_percent(pct: i64) -> (c: u8)
    ensures
        c == clamp_percent_spec(pct as int),
{
    if pct < 0 {
        0
    } else if pct > 100 {
        100
    } else {
        pct as u8
    }
}

pub fn sample_size(pct: i64, n_total: usize) -> (n: usize)
    ensures
        n == sample_size_spec(pct as int, n_total as int),
        n <= n_total,
        pct >= 100 ==> n == n_total,
        pct <= 0 ==> n == 0,
{
    let c: u128 = clamp_percent(pct) as u128;
    proof {
        assert(c * n_total <= 100 * n_total) by (nonlinear_arith)
            requires
                0 <= c <= 100,
                n_total >= 0,
        ;
        assert(c == 100 ==> c * n_total == 100 * n_total) by (nonlinear_arith);
        assert(c == 0 ==> c * n_total == 0) by (nonlinear_arith);
    }
    let wide: u128 = c * (n_total as u128) + 99;
    (wide / 100) as usize
}

/// `rand::rngs::ThreadRng`, the generator that belongs to a thread.
#[verifier::external_type_specification]
#[verifier::external_body]
pub struct ExThreadRng(rand::rngs::ThreadRng);

/// `rand::rng()`: a handle to the calling thread's generator. Nothing is
/// claimed of it. The generator is seeded from the operating system on a
/// thread's first use and stops the thread if that fails.
#[verifier::external_body]
fn thread_generator() -> (generator: ThreadRng) {
    rand::rng()
}

/// `rand::seq::SliceRandom::shuffle` on the positions. The shuffle only
/// swaps items of the slice, so whatever order comes out holds the same
/// items as went in; nothing more is claimed.
#[verifier::external_body]
fn shuffle_positions(order: &mut Vec<usize>, generator: &mut ThreadRng)
    ensures
        final(order)@.to_multiset() == old(order)@.to_multiset(),
{
    order.shuffle(generator);
}

/// The first `n_sample` entries of an order; all of it when it is shorter.
pub fn take_sample(order: Vec<usize>, n_sample: usize) -> (sample: Vec<usize>)
    ensures
        n_sample <= order@.len() ==> sample@ == order@.subrange(0, n_sample as int),
        n_sample > order@.len() ==> sample@ == order@,
{
    let mut sample = order;
    sample.truncate(n_sample);
    sample
}

/// The positions `0 .. n` in a vector.
pub fn positions(n: usize) -> (order: Vec<usize>)
    ensures
        order@ == index_range(n as int),
{
    let mut order: Vec<usize> = Vec::new();
    let mut i: usize = 0;
    while i < n
        invariant
            i <= n,
            order@ =~= index_range(i as int),
        decreases n - i,
    {
        order.push(i);
        i = i + 1;
    }
    order
}

/// Any rearrangement of the positions `0 .. n` holds each position below
/// `n` once and nothing else.
pub proof fn rearranged_positions(order: Seq<usize>, n: usize)
    requires
        order.to_multiset() == index_range(n as int).to_multiset(),
    ensures
        order.len() == n,
        order.no_duplicates(),
        forall|i: int| 0 <= i < order.len() ==> #[trigger] order[i] < n,
        forall|p: usize| p < n ==> order.contains(p),
{
    broadcast use vstd::seq_lib::to_multiset_contains;

    let ident = index_range(n as int);
    assert(forall|i: int| 0 <= i < ident.len() ==> #[trigger] ident[i] == i);
    assert(ident.no_duplicates());
    ident.lemma_multiset_has_no_duplicates();
    order.lemma_multiset_has_no_duplicates_conv();
    order.to_multiset_ensures();
    ident.to_multiset_ensures();
    assert forall|i: int| 0 <= i < order.len() implies #[trigger] order[i] < n by {
        let x = order[i];
        assert(order.contains(x));
        assert(order.to_multiset().count(x) > 0);
        assert(ident.contains(x));
        let j = choose|j: int| 0 <= j < ident.len() && ident[j] == x;
        assert(ident[j] == j);
    }
    assert forall|p: usize| p < n implies order.contains(p) by {
        assert(ident[p as int] == p);
        assert(ident.contains(p));
        assert(ident.to_multiset().count(p) > 0);
    }
}

/// Picks the files to inspect among `n_total`, by position: a random order
/// of all positions, cut after the share that `pct` asks for. Fails when
/// there is no file at all.
pub fn plan_sample(n_total: usize, pct: i64) -> (plan: Result<Vec<usize>, ToolError>)
    ensures
        n_total == 0 <==> plan.is_err(),
        plan.is_err() ==> plan == Err::<Vec<usize>, ToolError>(ToolError::NoFilesFound),
        plan.is_ok() ==> {
            let chosen = plan.unwrap()@;
            &&& chosen.len() == sample_size_spec(pct as int, n_total as int)
            &&& chosen.no_duplicates()
            &&& forall|i: int| 0 <= i < chosen.len() ==> #[trigger] chosen[i] < n_total
            &&& pct >= 100 ==> chosen.to_multiset() == index_range(n_total as int).to_multiset()
            &&& pct >= 100 ==> forall|p: usize| p < n_total ==> chosen.contains(p)
        },
{
    if n_total == 0 {
        return Err(ToolError::NoFilesFound);
    }
    let n_sample: usize = sample_size(pct, n_total);
    let mut order = positions(n_total);
    let mut generator = thread_generator();
    shuffle_positions(&mut order, &mut generator);
    proof {
        rearranged_positions(order@, n_total);
    }
    let ghost shuffled = order@;
    let chosen = take_sample(order, n_sample);
    proof {
        assert(chosen@ =~= shuffled.subrange(0, n_sample as int));
        if pct >= 100 {
            assert(chosen@ =~= shuffled);
        }
    }
    Ok(chosen)
}

/// Inspecting everything means inspecting each file; inspecting nothing
/// means an empty sample.
pub proof fn sample_size_extremes(n_total: int)
    requires
        n_total >= 0,
    ensures
        sample_size_spec(100, n_total) == n_total,
        sample_size_spec(0, n_total) == 0,
{
    assert(clamp_percent_spec(100) * n_total == 100 * n_total);
    assert(clamp_percent_spec(0) == 0);
    assert(0 * n_total == 0);
}

} // verus!
