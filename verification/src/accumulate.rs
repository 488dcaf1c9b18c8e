//! One pass over a band: every sample is read once, classified and tallied.

use vstd::prelude::*;
use vstd::multiset::Multiset;
use vstd::seq_lib::{commutative_foldl, lemma_fold_left_permutation, to_multiset_build};
use crate::quantiles::{
    ascending, quartiles, quartiles_ignore_arrival_order, quartiles_spec, Quartiles,
};
use crate::sample::{
    classify, classify_spec, is_finite_bits, key_bits, key_bits_spec, key_round_trip,
    keys_order_numbers, order_key, order_key_spec, scaled_value, Sample, SampleClass,
};
use crate::batch::{failures, partition_outcomes, successes};
use crate::error::ToolError;
use crate::scan::{select_strategy, strategy_for, BandShape, ReadStrategy, ScanCursor, Window};
use crate::tolerance::sample_of;

verus! {

/// How many samples of a sequence fall into a class.
pub open spec fn count_class(s: Seq<Sample>, c: SampleClass) -> nat
    decreases s.len(),
{
    if s.len() == 0 {
        0
    } else {
        count_class(s.drop_last(), c) + if classify_spec(s.last()) == c {
            1nat
        } else {
            0nat
        }
    }
}

/// The order keys of the valid samples, in the order the samples came.
pub open spec fn valid_keys(s: Seq<Sample>) -> Seq<u64>
    decreases s.len(),
{
    if s.len() == 0 {
        Seq::empty()
    } else if classify_spec(s.last()) == SampleClass::Valid {
        valid_keys(s.drop_last()).push(order_key_spec(s.last().bits))
    } else {
        valid_keys(s.drop_last())
    }
}

/// The patterns of the valid samples, in the order the samples came.
pub open spec fn valid_bits(s: Seq<Sample>) -> Seq<u64>
    decreases s.len(),
{
    if s.len() == 0 {
        Seq::empty()
    } else if classify_spec(s.last()) == SampleClass::Valid {
        valid_bits(s.drop_last()).push(s.last().bits)
    } else {
        valid_bits(s.drop_last())
    }
}

/// The samples that patterns make in a band with this nodata value.
pub open spec fn samples_of(patterns: Seq<u64>, nodata: Option<u64>) -> Seq<Sample> {
    Seq::new(patterns.len(), |i: int| sample_of(patterns[i], nodata))
}

/// Whether each sample is classified against this nodata value.
pub open spec fn classified_against(s: Seq<Sample>, nodata: Option<u64>) -> bool {
    forall|i: int| 0 <= i < s.len() ==> #[trigger] s[i] == sample_of(s[i].bits, nodata)
}

/// The smallest key of a sequence; none when it is empty.
pub open spec fn least_key(keys: Seq<u64>) -> Option<u64>
    decreases keys.len(),
{
    if keys.len() == 0 {
        None
    } else {
        match least_key(keys.drop_last()) {
            None => Some(keys.last()),
            Some(m) => Some(if keys.last() < m { keys.last() } else { m }),
        }
    }
}

/// The largest key of a sequence; none when it is empty.
pub open spec fn greatest_key(keys: Seq<u64>) -> Option<u64>
    decreases keys.len(),
{
    if keys.len() == 0 {
        None
    } else {
        match greatest_key(keys.drop_last()) {
            None => Some(keys.last()),
            Some(m) => Some(if keys.last() > m { keys.last() } else { m }),
        }
    }
}

/// The bit pattern behind an optional key.
pub open spec fn bits_of(key: Option<u64>) -> Option<u64> {
    match key {
        Some(k) => Some(key_bits_spec(k)),
        None => None,
    }
}

/// What one band's samples come to, apart from the sums.
#[derive(Clone, Copy, Debug, PartialEq, Eq, Structural)]
pub struct BandSummary {
    pub valid_count: u64,
    pub nodata_count: u64,
    pub nan_count: u64,
    /// Pattern of the smallest valid sample, if there is a valid sample.
    pub min_bits: Option<u64>,
    /// Pattern of the largest valid sample, if there is a valid sample.
    pub max_bits: Option<u64>,
    /// Present when quartiles were asked for and there is a valid sample.
    pub quartiles: Option<Quartiles>,
}

/// The summary of a band whose samples are `seen`, in any reading order.
pub open spec fn summary_of(seen: Seq<Sample>, quantiles: bool) -> BandSummary {
    BandSummary {
        valid_count: count_class(seen, SampleClass::Valid) as u64,
        nodata_count: count_class(seen, SampleClass::Nodata) as u64,
        nan_count: count_class(seen, SampleClass::NonFinite) as u64,
        min_bits: bits_of(least_key(valid_keys(seen))),
        max_bits: bits_of(greatest_key(valid_keys(seen))),
        quartiles: if quantiles {
            quartiles_spec(ascending(valid_keys(seen)))
        } else {
            None
        },
    }
}

/// Appending a sample raises the count of its class by one and no other.
pub proof fn count_class_push(s: Seq<Sample>, x: Sample, c: SampleClass)
    ensures
        count_class(s.push(x), c) == count_class(s, c) + if classify_spec(x) == c {
            1nat
        } else {
            0nat
        },
{
    assert(s.push(x).drop_last() =~= s);
}

/// Appending a valid sample appends its key; any other sample leaves the
/// keys as they were.
pub proof fn valid_keys_push(s: Seq<Sample>, x: Sample)
    ensures
        valid_keys(s.push(x)) == if classify_spec(x) == SampleClass::Valid {
            valid_keys(s).push(order_key_spec(x.bits))
        } else {
            valid_keys(s)
        },
{
    assert(s.push(x).drop_last() =~= s);
}

/// Every sample is counted in exactly one class.
pub proof fn counts_add_up(s: Seq<Sample>)
    ensures
        count_class(s, SampleClass::Valid) + count_class(s, SampleClass::Nodata) + count_class(
            s,
            SampleClass::NonFinite,
        ) == s.len(),
        valid_keys(s).len() == count_class(s, SampleClass::Valid),
    decreases s.len(),
{
    if s.len() > 0 {
        counts_add_up(s.drop_last());
    }
}

/// The patterns handed back for the sums are as many as the valid count,
/// and their keys are the valid keys.
pub proof fn valid_bits_match_the_tally(s: Seq<Sample>)
    ensures
        valid_bits(s).len() == count_class(s, SampleClass::Valid),
        valid_bits(s).len() == valid_keys(s).len(),
        forall|k: int|
            0 <= k < valid_bits(s).len() ==> valid_keys(s)[k] == order_key_spec(
                #[trigger] valid_bits(s)[k],
            ),
    decreases s.len(),
{
    if s.len() > 0 {
        valid_bits_match_the_tally(s.drop_last());
    }
}

/// A band without nodata and without non-finite samples is valid throughout.
pub proof fn all_valid_counts(s: Seq<Sample>)
    requires
        forall|i: int| 0 <= i < s.len() ==> classify_spec(#[trigger] s[i]) == SampleClass::Valid,
    ensures
        count_class(s, SampleClass::Valid) == s.len(),
        count_class(s, SampleClass::Nodata) == 0,
        count_class(s, SampleClass::NonFinite) == 0,
    decreases s.len(),
{
    if s.len() > 0 {
        all_valid_counts(s.drop_last());
    }
}

/// The summary of a band without nodata and without non-finite samples
/// counts every sample as valid.
pub proof fn clean_band_summary(s: Seq<Sample>, quantiles: bool)
    requires
        s.len() <= u64::MAX,
        forall|i: int| 0 <= i < s.len() ==> classify_spec(#[trigger] s[i]) == SampleClass::Valid,
    ensures
        summary_of(s, quantiles).valid_count == s.len(),
        summary_of(s, quantiles).nodata_count == 0,
        summary_of(s, quantiles).nan_count == 0,
{
    all_valid_counts(s);
}

/// The least key is one of the keys and none is smaller; likewise the
/// greatest.
pub proof fn extremes_bound_all_keys(keys: Seq<u64>)
    requires
        keys.len() > 0,
    ensures
        least_key(keys).is_some(),
        greatest_key(keys).is_some(),
        keys.contains(least_key(keys).unwrap()),
        keys.contains(greatest_key(keys).unwrap()),
        forall|i: int| 0 <= i < keys.len() ==> least_key(keys).unwrap() <= #[trigger] keys[i],
        forall|i: int| 0 <= i < keys.len() ==> greatest_key(keys).unwrap() >= #[trigger] keys[i],
    decreases keys.len(),
{
    let rest = keys.drop_last();
    if rest.len() > 0 {
        extremes_bound_all_keys(rest);
        let lo = least_key(rest).unwrap();
        let hi = greatest_key(rest).unwrap();
        let i_lo = choose|i: int| 0 <= i < rest.len() && rest[i] == lo;
        let i_hi = choose|i: int| 0 <= i < rest.len() && rest[i] == hi;
        assert(keys[i_lo] == lo);
        assert(keys[i_hi] == hi);
        assert forall|i: int| 0 <= i < keys.len() implies least_key(keys).unwrap() <= #[trigger] keys[i]
            && greatest_key(keys).unwrap() >= keys[i] by {
            if i < rest.len() {
                assert(rest[i] == keys[i]);
            }
        }
    } else {
        assert(keys[0] == keys.last());
    }
    assert(keys[keys.len() - 1] == keys.last());
}

/// Every key among the valid keys is the key of a valid sample.
pub proof fn every_key_has_a_sample(s: Seq<Sample>, k: int) -> (j: int)
    requires
        0 <= k < valid_keys(s).len(),
    ensures
        0 <= j < s.len(),
        classify_spec(s[j]) == SampleClass::Valid,
        valid_keys(s)[k] == order_key_spec(s[j].bits),
    decreases s.len(),
{
    let rest = s.drop_last();
    if classify_spec(s.last()) == SampleClass::Valid && k == valid_keys(rest).len() {
        s.len() - 1
    } else {
        let j = every_key_has_a_sample(rest, k);
        assert(rest[j] == s[j]);
        j
    }
}

/// Every valid sample has its key among the valid keys.
pub proof fn every_valid_sample_has_a_key(s: Seq<Sample>, i: int) -> (k: int)
    requires
        0 <= i < s.len(),
        classify_spec(s[i]) == SampleClass::Valid,
    ensures
        0 <= k < valid_keys(s).len(),
        valid_keys(s)[k] == order_key_spec(s[i].bits),
    decreases s.len(),
{
    let rest = s.drop_last();
    if i == s.len() - 1 {
        valid_keys(rest).len() as int
    } else {
        assert(rest[i] == s[i]);
        every_valid_sample_has_a_key(rest, i)
    }
}

/// The reported minimum and maximum are valid samples of the band, and
/// every valid sample lies between them as a number.
pub proof fn extremes_bound_valid_samples(s: Seq<Sample>, i: int)
    requires
        0 <= i < s.len(),
        classify_spec(s[i]) == SampleClass::Valid,
    ensures
        summary_of(s, false).min_bits.is_some(),
        summary_of(s, false).max_bits.is_some(),
        is_finite_bits(summary_of(s, false).min_bits.unwrap()),
        is_finite_bits(summary_of(s, false).max_bits.unwrap()),
        scaled_value(summary_of(s, false).min_bits.unwrap()) <= scaled_value(s[i].bits),
        scaled_value(s[i].bits) <= scaled_value(summary_of(s, false).max_bits.unwrap()),
{
    let keys = valid_keys(s);
    let k = every_valid_sample_has_a_key(s, i);
    extremes_bound_all_keys(keys);
    let lo = least_key(keys).unwrap();
    let hi = greatest_key(keys).unwrap();
    let k_lo = choose|k: int| 0 <= k < keys.len() && keys[k] == lo;
    let k_hi = choose|k: int| 0 <= k < keys.len() && keys[k] == hi;
    let j_lo = every_key_has_a_sample(s, k_lo);
    let j_hi = every_key_has_a_sample(s, k_hi);
    key_round_trip(s[j_lo].bits);
    key_round_trip(s[j_hi].bits);
    key_round_trip(s[i].bits);
    keys_order_numbers(s[j_lo].bits, s[i].bits);
    keys_order_numbers(s[i].bits, s[j_hi].bits);
    assert(lo <= keys[k]);
    assert(hi >= keys[k]);
}

/// A band whose valid samples all have one value has that value as its
/// minimum and as its maximum.
pub proof fn constant_band_extremes(s: Seq<Sample>, key: u64)
    requires
        valid_keys(s).len() > 0,
        forall|i: int| 0 <= i < valid_keys(s).len() ==> #[trigger] valid_keys(s)[i] == key,
    ensures
        summary_of(s, false).min_bits == Some(key_bits_spec(key)),
        summary_of(s, false).max_bits == Some(key_bits_spec(key)),
{
    extremes_bound_all_keys(valid_keys(s));
}

/// One step of counting a class: the count so far, raised by one for a
/// sample of the class.
pub open spec fn count_step(c: SampleClass) -> spec_fn(nat, Sample) -> nat {
    |n: nat, x: Sample|
        n + if classify_spec(x) == c {
            1nat
        } else {
            0nat
        }
}

/// One step of gathering keys: the keys so far, with the key of a valid
/// sample put in.
pub open spec fn gather_step() -> spec_fn(Multiset<u64>, Sample) -> Multiset<u64> {
    |m: Multiset<u64>, x: Sample|
        if classify_spec(x) == SampleClass::Valid {
            m.insert(order_key_spec(x.bits))
        } else {
            m
        }
}

proof fn count_is_a_fold(s: Seq<Sample>, c: SampleClass)
    ensures
        count_class(s, c) == s.fold_left(0nat, count_step(c)),
    decreases s.len(),
{
    if s.len() > 0 {
        count_is_a_fold(s.drop_last(), c);
    }
}

proof fn keys_are_a_fold(s: Seq<Sample>)
    ensures
        valid_keys(s).to_multiset() == s.fold_left(Multiset::<u64>::empty(), gather_step()),
    decreases s.len(),
{
    if s.len() > 0 {
        keys_are_a_fold(s.drop_last());
        if classify_spec(s.last()) == SampleClass::Valid {
            to_multiset_build(valid_keys(s.drop_last()), order_key_spec(s.last().bits));
        }
    } else {
        valid_keys(s).to_multiset_ensures();
        assert(valid_keys(s).to_multiset() =~= Multiset::<u64>::empty());
    }
}

/// The count of a class does not depend on the order of the samples.
pub proof fn counts_ignore_reading_order(a: Seq<Sample>, b: Seq<Sample>, c: SampleClass)
    requires
        a.to_multiset() == b.to_multiset(),
    ensures
        count_class(a, c) == count_class(b, c),
{
    count_is_a_fold(a, c);
    count_is_a_fold(b, c);
    assert(commutative_foldl(count_step(c)));
    lemma_fold_left_permutation(a, b, count_step(c), 0nat);
}

/// Which keys the valid samples have, and how often each, does not depend
/// on the order of the samples.
pub proof fn keys_ignore_reading_order(a: Seq<Sample>, b: Seq<Sample>)
    requires
        a.to_multiset() == b.to_multiset(),
    ensures
        valid_keys(a).to_multiset() == valid_keys(b).to_multiset(),
{
    keys_are_a_fold(a);
    keys_are_a_fold(b);
    assert(commutative_foldl(gather_step())) by {
        assert forall|x: Sample, y: Sample, m: Multiset<u64>| #[trigger]
            gather_step()(gather_step()(m, x), y) == gather_step()(gather_step()(m, y), x) by {
            assert(gather_step()(gather_step()(m, x), y) =~= gather_step()(gather_step()(m, y), x));
        }
    }
    lemma_fold_left_permutation(a, b, gather_step(), Multiset::<u64>::empty());
}

/// The least and the greatest key depend only on which keys there are.
pub proof fn extremes_ignore_order(a: Seq<u64>, b: Seq<u64>)
    requires
        a.to_multiset() == b.to_multiset(),
    ensures
        least_key(a) == least_key(b),
        greatest_key(a) == greatest_key(b),
{
    broadcast use vstd::seq_lib::to_multiset_contains;

    a.to_multiset_ensures();
    b.to_multiset_ensures();
    assert(a.len() == b.len());
    if a.len() > 0 {
        extremes_bound_all_keys(a);
        extremes_bound_all_keys(b);
        let la = least_key(a).unwrap();
        let lb = least_key(b).unwrap();
        let ga = greatest_key(a).unwrap();
        let gb = greatest_key(b).unwrap();
        assert(a.to_multiset().count(la) > 0);
        assert(b.contains(la));
        assert(b.to_multiset().count(lb) > 0);
        assert(a.contains(lb));
        assert(a.to_multiset().count(ga) > 0);
        assert(b.contains(ga));
        assert(b.to_multiset().count(gb) > 0);
        assert(a.contains(gb));
        let i1 = choose|i: int| 0 <= i < b.len() && b[i] == la;
        let i2 = choose|i: int| 0 <= i < a.len() && a[i] == lb;
        let i3 = choose|i: int| 0 <= i < b.len() && b[i] == ga;
        let i4 = choose|i: int| 0 <= i < a.len() && a[i] == gb;
        assert(lb <= b[i1]);
        assert(la <= a[i2]);
        assert(gb >= b[i3]);
        assert(ga >= a[i4]);
    }
}

/// A band's summary does not depend on the order in which its samples are
/// read: by rows, by blocks and in one piece it comes out the same.
pub proof fn summary_ignores_reading_order(a: Seq<Sample>, b: Seq<Sample>, quantiles: bool)
    requires
        a.to_multiset() == b.to_multiset(),
    ensures
        summary_of(a, quantiles) == summary_of(b, quantiles),
{
    counts_ignore_reading_order(a, b, SampleClass::Valid);
    counts_ignore_reading_order(a, b, SampleClass::Nodata);
    counts_ignore_reading_order(a, b, SampleClass::NonFinite);
    keys_ignore_reading_order(a, b);
    extremes_ignore_order(valid_keys(a), valid_keys(b));
    quartiles_ignore_arrival_order(valid_keys(a), valid_keys(b));
}

/// A scan of one band in progress.
pub struct BandScan {
    pub shape: BandShape,
    pub quantiles: bool,
    /// The band's nodata value as a pattern, if it declares one.
    pub nodata: Option<u64>,
    pub strategy: ReadStrategy,
    pub cursor: ScanCursor,
    pub valid_count: u64,
    pub nodata_count: u64,
    pub nan_count: u64,
    pub min_key: Option<u64>,
    pub max_key: Option<u64>,
    /// Keys of the valid samples so far, kept only when quartiles are wanted.
    pub keys: Vec<u64>,
    /// The samples fed so far, each classified against the nodata value.
    pub seen: Ghost<Seq<Sample>>,
}

impl BandScan {
    /// The scan's invariant: the tallies describe exactly the samples of the
    /// windows before the cursor.
    pub open spec fn wf(&self) -> bool {
        &&& self.strategy == strategy_for(self.quantiles, self.shape.block_y)
        &&& self.shape.scannable(self.strategy)
        &&& self.shape.cursor_ok(self.cursor)
        &&& self.seen@.len() == self.shape.consumed(self.strategy, self.cursor)
        &&& self.valid_count == count_class(self.seen@, SampleClass::Valid)
        &&& self.nodata_count == count_class(self.seen@, SampleClass::Nodata)
        &&& self.nan_count == count_class(self.seen@, SampleClass::NonFinite)
        &&& self.min_key == least_key(valid_keys(self.seen@))
        &&& self.max_key == greatest_key(valid_keys(self.seen@))
        &&& self.keys@ == if self.quantiles {
            valid_keys(self.seen@)
        } else {
            Seq::<u64>::empty()
        }
        &&& classified_against(self.seen@, self.nodata)
    }

    pub open spec fn is_finished(&self) -> bool {
        self.shape.finished(self.cursor)
    }

    /// The window that the next call of `feed_patterns` expects the
    /// samples of.
    pub open spec fn pending(&self) -> Window {
        self.shape.window_at(self.strategy, self.cursor)
    }

    /// Whether a band of this shape can be scanned: its sample count fits
    /// the machine, and its blocks are not empty where they are read.
    pub fn can_scan(shape: BandShape, quantiles: bool) -> (ok: bool)
        ensures
            ok == shape.scannable(strategy_for(quantiles, shape.block_y)),
    {
        let strategy = select_strategy(quantiles, shape.block_y);
        proof {
            assert(shape.cols * shape.rows <= u128::MAX) by (nonlinear_arith)
                requires
                    shape.cols <= 0xffff_ffff_ffff_ffff,
                    shape.rows <= 0xffff_ffff_ffff_ffff,
            ;
        }
        let wide: u128 = (shape.cols as u128) * (shape.rows as u128);
        let fits: bool = wide <= usize::MAX as u128;
        match strategy {
            ReadStrategy::Blocks => fits && shape.block_x >= 1 && shape.block_y >= 1,
            _ => fits,
        }
    }

    /// Starts a scan with nothing read.
    pub fn begin(shape: BandShape, quantiles: bool, nodata: Option<u64>) -> (scan: BandScan)
        requires
            shape.scannable(strategy_for(quantiles, shape.block_y)),
        ensures
            scan.wf(),
            scan.shape == shape,
            scan.quantiles == quantiles,
            scan.nodata == nodata,
            scan.cursor == (ScanCursor { x: 0, y: 0 }),
            scan.seen@ == Seq::<Sample>::empty(),
    {
        let strategy = select_strategy(quantiles, shape.block_y);
        let cursor = shape.start();
        BandScan {
            shape,
            quantiles,
            nodata,
            strategy,
            cursor,
            valid_count: 0,
            nodata_count: 0,
            nan_count: 0,
            min_key: None,
            max_key: None,
            keys: Vec::new(),
            seen: Ghost(Seq::empty()),
        }
    }

    /// The next window to read and feed, or none when the band is done.
    pub fn next_window(&self) -> (w: Option<Window>)
        requires
            self.wf(),
        ensures
            w.is_none() <==> self.is_finished(),
            !self.is_finished() ==> w == Some(self.pending()),
            w.is_some() ==> w.unwrap().area() <= usize::MAX,
    {
        self.shape.next_window(self.strategy, self.cursor)
    }

    /// Takes the classified samples of the pending window, tallies each in
    /// its class and moves on to the next window.
    fn feed(self, samples: &Vec<Sample>) -> (next: BandScan)
        requires
            self.wf(),
            !self.is_finished(),
            samples.len() == self.pending().area(),
            classified_against(samples@, self.nodata),
        ensures
            next.wf(),
            next.shape == self.shape,
            next.quantiles == self.quantiles,
            next.nodata == self.nodata,
            next.strategy == self.strategy,
            next.cursor == self.shape.cursor_after(self.strategy, self.cursor),
            next.seen@ == self.seen@ + samples@,
    {
        let ghost start = self.seen@;
        let shape = self.shape;
        let quantiles = self.quantiles;
        let nodata_value = self.nodata;
        let strategy = self.strategy;
        let cursor = shape.advance(strategy, self.cursor);
        let mut valid: u64 = self.valid_count;
        let mut nodata: u64 = self.nodata_count;
        let mut non_finite: u64 = self.nan_count;
        let mut min_key = self.min_key;
        let mut max_key = self.max_key;
        let mut keys = self.keys;
        let ghost mut acc: Seq<Sample> = start;
        let n: usize = samples.len();
        proof {
            counts_add_up(start);
        }
        let mut i: usize = 0;
        while i < n
            invariant
                i <= n,
                n == samples.len(),
                start.len() + n <= usize::MAX,
                acc =~= start + samples@.subrange(0, i as int),
                valid == count_class(acc, SampleClass::Valid),
                nodata == count_class(acc, SampleClass::Nodata),
                non_finite == count_class(acc, SampleClass::NonFinite),
                valid + nodata + non_finite == acc.len(),
                min_key == least_key(valid_keys(acc)),
                max_key == greatest_key(valid_keys(acc)),
                keys@ == if quantiles {
                    valid_keys(acc)
                } else {
                    Seq::<u64>::empty()
                },
            decreases n - i,
        {
            let s = samples[i];
            proof {
                count_class_push(acc, s, SampleClass::Valid);
                count_class_push(acc, s, SampleClass::Nodata);
                count_class_push(acc, s, SampleClass::NonFinite);
                valid_keys_push(acc, s);
                assert(valid_keys(acc).push(order_key_spec(s.bits)).drop_last() =~= valid_keys(
                    acc,
                ));
                assert(samples@.subrange(0, i + 1) =~= samples@.subrange(0, i as int).push(s));
                acc = acc.push(s);
            }
            match classify(s) {
                SampleClass::NonFinite => {
                    non_finite = non_finite + 1;
                },
                SampleClass::Nodata => {
                    nodata = nodata + 1;
                },
                SampleClass::Valid => {
                    let key: u64 = order_key(s.bits);
                    valid = valid + 1;
                    min_key =
                    match min_key {
                        None => Some(key),
                        Some(m) => Some(if key < m { key } else { m }),
                    };
                    max_key =
                    match max_key {
                        None => Some(key),
                        Some(m) => Some(if key > m { key } else { m }),
                    };
                    if quantiles {
                        keys.push(key);
                    }
                },
            }
            i = i + 1;
        }
        proof {
            assert(samples@.subrange(0, n as int) =~= samples@);
        }
        proof {
            assert forall|k: int| 0 <= k < acc.len() implies #[trigger] acc[k] == sample_of(
                acc[k].bits,
                nodata_value,
            ) by {
                if k < start.len() {
                    assert(acc[k] == start[k]);
                } else {
                    assert(acc[k] == samples@[k - start.len()]);
                }
            }
        }
        BandScan {
            shape,
            quantiles,
            nodata: nodata_value,
            strategy,
            cursor,
            valid_count: valid,
            nodata_count: nodata,
            nan_count: non_finite,
            min_key,
            max_key,
            keys,
            seen: Ghost(acc),
        }
    }

    /// Starts a scan, or refuses a band whose shape cannot be scanned.
    pub fn try_begin(shape: BandShape, quantiles: bool, nodata: Option<u64>) -> (r: Result<
        BandScan,
        ToolError,
    >)
        ensures
            r.is_ok() <==> shape.scannable(strategy_for(quantiles, shape.block_y)),
            match r {
                Ok(scan) => {
                    &&& scan.wf()
                    &&& scan.shape == shape
                    &&& scan.quantiles == quantiles
                    &&& scan.nodata == nodata
                    &&& scan.cursor == (ScanCursor { x: 0, y: 0 })
                    &&& scan.seen@ == Seq::<Sample>::empty()
                },
                Err(e) => e == ToolError::BandReadError,
            },
    {
        if BandScan::can_scan(shape, quantiles) {
            Ok(BandScan::begin(shape, quantiles, nodata))
        } else {
            Err(ToolError::BandReadError)
        }
    }

    /// Takes the patterns of the pending window, classifies each against
    /// the band's nodata value, tallies it and moves on to the next window.
    /// Hands back the patterns of the valid samples, in their order, for
    /// the caller's sums.
    pub fn feed_patterns(self, patterns: &Vec<u64>) -> (r: (BandScan, Vec<u64>))
        requires
            self.wf(),
            !self.is_finished(),
            patterns.len() == self.pending().area(),
        ensures
            r.0.wf(),
            r.0.shape == self.shape,
            r.0.quantiles == self.quantiles,
            r.0.nodata == self.nodata,
            r.0.strategy == self.strategy,
            r.0.cursor == self.shape.cursor_after(self.strategy, self.cursor),
            r.0.seen@ == self.seen@ + samples_of(patterns@, self.nodata),
            r.1@ == valid_bits(samples_of(patterns@, self.nodata)),
    {
        let nodata = self.nodata;
        let n: usize = patterns.len();
        let mut samples: Vec<Sample> = Vec::with_capacity(n);
        let mut valid: Vec<u64> = Vec::new();
        let mut i: usize = 0;
        while i < n
            invariant
                i <= n,
                n == patterns.len(),
                samples@ =~= samples_of(patterns@.subrange(0, i as int), nodata),
                valid@ == valid_bits(samples@),
            decreases n - i,
        {
            let ghost before = samples@;
            let sample = Sample::of(patterns[i], nodata);
            samples.push(sample);
            proof {
                assert(samples@.drop_last() =~= before);
            }
            match classify(sample) {
                SampleClass::Valid => {
                    valid.push(sample.bits);
                },
                _ => {},
            }
            i = i + 1;
        }
        proof {
            assert(patterns@.subrange(0, n as int) =~= patterns@);
        }
        (self.feed(&samples), valid)
    }

    /// Feeds the patterns of the pending window, or refuses them when no
    /// window is pending or their number is not the window's.
    pub fn try_feed_patterns(self, patterns: &Vec<u64>) -> (r: Result<
        (BandScan, Vec<u64>),
        ToolError,
    >)
        requires
            self.wf(),
        ensures
            r.is_ok() <==> !self.is_finished() && patterns.len() == self.pending().area(),
            match r {
                Ok(fed) => {
                    &&& fed.0.wf()
                    &&& fed.0.shape == self.shape
                    &&& fed.0.quantiles == self.quantiles
                    &&& fed.0.nodata == self.nodata
                    &&& fed.0.strategy == self.strategy
                    &&& fed.0.cursor == self.shape.cursor_after(self.strategy, self.cursor)
                    &&& fed.0.seen@ == self.seen@ + samples_of(patterns@, self.nodata)
                    &&& fed.1@ == valid_bits(samples_of(patterns@, self.nodata))
                },
                Err(e) => e == ToolError::BandReadError,
            },
    {
        match self.next_window() {
            Some(w) => {
                if patterns.len() == w.width * w.height {
                    Ok(self.feed_patterns(patterns))
                } else {
                    Err(ToolError::BandReadError)
                }
            },
            None => Err(ToolError::BandReadError),
        }
    }

    /// Closes a scan whose last window has been fed. Every sample of the
    /// band has then been counted exactly once.
    pub fn finish(self) -> (summary: BandSummary)
        requires
            self.wf(),
            self.is_finished(),
        ensures
            summary == summary_of(self.seen@, self.quantiles),
            self.seen@.len() == self.shape.area(),
            summary.valid_count + summary.nodata_count + summary.nan_count == self.shape.area(),
    {
        proof {
            self.shape.finished_means_all_consumed(self.strategy, self.cursor);
            counts_add_up(self.seen@);
        }
        let min_bits = match self.min_key {
            Some(k) => Some(key_bits(k)),
            None => None,
        };
        let max_bits = match self.max_key {
            Some(k) => Some(key_bits(k)),
            None => None,
        };
        let quartiles = if self.quantiles {
            quartiles(self.keys)
        } else {
            None
        };
        BandSummary {
            valid_count: self.valid_count,
            nodata_count: self.nodata_count,
            nan_count: self.nan_count,
            min_bits,
            max_bits,
            quartiles,
        }
    }
}

/// What a file's bands come to: the failure to open the file, else the
/// first band that failed, else every band's result in band order.
pub open spec fn file_result<T>(opened: bool, bands: Seq<Result<T, ToolError>>) -> Result<
    Seq<T>,
    ToolError,
> {
    if !opened {
        Err(ToolError::DatasetOpenError)
    } else if failures(bands).len() > 0 {
        Err(failures(bands)[0])
    } else {
        Ok(successes(bands))
    }
}

/// Gathers the per-band results of one file. A file that could not be
/// opened fails as such; one failed band fails the whole file.
pub fn collect_bands<T>(opened: bool, bands: Vec<Result<T, ToolError>>) -> (r: Result<
    Vec<T>,
    ToolError,
>)
    ensures
        match r {
            Ok(all) => file_result(opened, bands@) == Ok::<Seq<T>, ToolError>(all@) && all@.len()
                == bands@.len(),
            Err(e) => file_result(opened, bands@) == Err::<Seq<T>, ToolError>(e),
        },
{
    if !opened {
        return Err(ToolError::DatasetOpenError);
    }
    let (good, bad) = partition_outcomes(bands);
    if bad.len() > 0 {
        Err(bad[0])
    } else {
        Ok(good)
    }
}

} // verus!
