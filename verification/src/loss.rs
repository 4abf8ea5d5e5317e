//! Running estimate of downstream packet loss.
//!
//! The peer reports, in every data frame, the highest frame number and the
//! total frame count it has observed on the reverse path. From sufficiently
//! spaced pairs of such reports the calculator forms loss samples scaled to
//! a byte, keeps the most recent [`LOSS_SAMPLE_CAP`] of them, and reports
//! the first-quartile sample — deliberately biased low, so that transient
//! spikes do not over-protect the stream.
use vstd::prelude::*;

verus! {

use std::collections::VecDeque;
use vstd::relations::sorted_by;
use vstd::seq_lib::lemma_sorted_unique;

/// Most loss samples retained; older samples fall off the front.
pub const LOSS_SAMPLE_CAP: usize = 64;

/// A new sample needs at least this many new frames, both by count and by
/// highest frame number, since the last sample.
pub const LOSS_MIN_FRAMES: u64 = 100;

/// A new sample needs at least this much time since the last sample, in
/// milliseconds (strictly more).
pub const LOSS_MIN_INTERVAL_MS: u64 = 2000;

/// Byte ordering used for sorting loss samples.
pub open spec fn u8_leq() -> spec_fn(u8, u8) -> bool {
    |a: u8, b: u8| a <= b
}

/// Mathematical state of a [`LossCalculator`].
pub struct LossModel {
    /// Highest reverse-path frame number at the last admitted sample.
    pub last_top: u64,
    /// Reverse-path frame count at the last admitted sample.
    pub last_total: u64,
    /// Time of the last admitted sample, in milliseconds.
    pub last_time_ms: u64,
    /// The retained samples, oldest first, each loss scaled to 0..=255.
    pub samples: Seq<u8>,
    /// The reported loss: the first quartile of the samples.
    pub median: u8,
}

/// Well-formedness: the sample ring never exceeds its cap.
pub open spec fn loss_wf(m: LossModel) -> bool {
    m.samples.len() <= LOSS_SAMPLE_CAP
}

/// Gate for admitting a sample: at least [`LOSS_MIN_FRAMES`] more total
/// frames, the same much larger top frame number, and more than
/// [`LOSS_MIN_INTERVAL_MS`] elapsed, all since the last admitted sample.
pub open spec fn sample_admitted(m: LossModel, top: u64, total: u64, now_ms: u64) -> bool {
    &&& total > m.last_total + LOSS_MIN_FRAMES
    &&& top > m.last_top + LOSS_MIN_FRAMES
    &&& now_ms - m.last_time_ms > LOSS_MIN_INTERVAL_MS
}

/// The loss sample for deltas since the last sample: the missing fraction
/// `1 - d_total / max(d_top, d_total)` scaled by 256 and clamped to a byte.
pub open spec fn loss_sample_value(d_top: int, d_total: int) -> int {
    let m = if d_top >= d_total {
        d_top
    } else {
        d_total
    };
    let scaled = ((m - d_total) * 256) / m;
    if scaled > 255 {
        255
    } else {
        scaled
    }
}

/// The sample ring after pushing a new sample: capped at
/// [`LOSS_SAMPLE_CAP`], dropping the oldest.
pub open spec fn push_sample(samples: Seq<u8>, s: u8) -> Seq<u8> {
    let pushed = samples.push(s);
    if pushed.len() > LOSS_SAMPLE_CAP {
        pushed.drop_first()
    } else {
        pushed
    }
}

/// The reported loss for a set of samples: the element a quarter of the way
/// into the sorted samples.
pub open spec fn quartile(samples: Seq<u8>) -> u8
    recommends
        samples.len() > 0,
{
    samples.sort_by(u8_leq())[samples.len() as int / 4]
}

/// A packet loss calculator fed from reverse-path telemetry.
pub struct LossCalculator {
    last_top_seqno: u64,
    last_total_seqno: u64,
    last_time_ms: u64,
    loss_samples: VecDeque<u8>,
    median: u8,
}

impl View for LossCalculator {
    type V = LossModel;

    closed spec fn view(&self) -> LossModel {
        LossModel {
            last_top: self.last_top_seqno,
            last_total: self.last_total_seqno,
            last_time_ms: self.last_time_ms,
            samples: self.loss_samples@,
            median: self.median,
        }
    }
}

impl LossCalculator {
    /// A fresh calculator: no samples, zero reported loss, epoch at `now_ms`.
    pub fn new(now_ms: u64) -> (r: LossCalculator)
        ensures
            r@.last_top == 0,
            r@.last_total == 0,
            r@.last_time_ms == now_ms,
            r@.samples == Seq::<u8>::empty(),
            r@.median == 0,
            loss_wf(r@),
    {
        LossCalculator {
            last_top_seqno: 0,
            last_total_seqno: 0,
            last_time_ms: now_ms,
            loss_samples: VecDeque::new(),
            median: 0,
        }
    }

    /// The loss currently reported, scaled to 0..=255.
    pub fn median(&self) -> (r: u8)
        ensures
            r == self@.median,
    {
        self.median
    }

    /// Feeds one reverse-path report. A sample is admitted only when all
    /// three gates of [`sample_admitted`] hold; the calculator is otherwise
    /// unchanged. On admission the new sample enters the capped ring and the
    /// reported value becomes the quartile of the ring.
    pub fn update_params(&mut self, top_seqno: u64, total_seqno: u64, now_ms: u64)
        requires
            loss_wf(old(self)@),
        ensures
            loss_wf(final(self)@),
            !sample_admitted(old(self)@, top_seqno, total_seqno, now_ms) ==> final(self)@ == old(
                self,
            )@,
            sample_admitted(old(self)@, top_seqno, total_seqno, now_ms) ==> {
                let s = loss_sample_value(
                    top_seqno - old(self)@.last_top,
                    total_seqno - old(self)@.last_total,
                ) as u8;
                &&& final(self)@.last_top == top_seqno
                &&& final(self)@.last_total == total_seqno
                &&& final(self)@.last_time_ms == now_ms
                &&& final(self)@.samples == push_sample(old(self)@.samples, s)
                &&& final(self)@.median == quartile(final(self)@.samples)
            },
    {
        let admitted = total_seqno.saturating_sub(self.last_total_seqno) > LOSS_MIN_FRAMES
            && top_seqno.saturating_sub(self.last_top_seqno) > LOSS_MIN_FRAMES
            && now_ms.saturating_sub(self.last_time_ms) > LOSS_MIN_INTERVAL_MS;
        if !admitted {
            return ;
        }
        let d_top = top_seqno - self.last_top_seqno;
        let d_total = total_seqno - self.last_total_seqno;
        let m = if d_top >= d_total {
            d_top
        } else {
            d_total
        };
        let lost = m - d_total;
        let scaled = ((lost as u128) * 256) / (m as u128);
        let sample = if scaled > 255 {
            255u8
        } else {
            scaled as u8
        };
        assert(sample == loss_sample_value(d_top as int, d_total as int));
        self.last_top_seqno = top_seqno;
        self.last_total_seqno = total_seqno;
        self.last_time_ms = now_ms;
        self.loss_samples.push_back(sample);
        if self.loss_samples.len() > LOSS_SAMPLE_CAP {
            self.loss_samples.pop_front();
        }
        let mut flat: Vec<u8> = Vec::new();
        let mut i: usize = 0;
        while i < self.loss_samples.len()
            invariant
                i <= self.loss_samples@.len(),
                flat@ == self.loss_samples@.take(i as int),
            decreases self.loss_samples@.len() - i,
        {
            flat.push(*(&self.loss_samples[i]));
            proof {
                assert(flat@ =~= self.loss_samples@.take(i as int + 1));
            }
            i = i + 1;
        }
        proof {
            assert(flat@ =~= self.loss_samples@);
        }
        sort_bytes(&mut flat);
        self.median = flat[flat.len() / 4];
        proof {
            let samples = self.loss_samples@;
            samples.lemma_sort_by_ensures(u8_leq());
            lemma_sorted_unique(flat@, samples.sort_by(u8_leq()), u8_leq());
        }
    }
}

/// Sorts a byte vector ascending by selection sort, keeping its multiset of
/// elements.
fn sort_bytes(v: &mut Vec<u8>)
    ensures
        final(v)@.len() == old(v)@.len(),
        final(v)@.to_multiset() == old(v)@.to_multiset(),
        sorted_by(final(v)@, u8_leq()),
{
    broadcast use vstd::seq_lib::to_multiset_update;
    broadcast use vstd::seq_lib::group_to_multiset_ensures;
    broadcast use vstd::multiset::group_multiset_axioms;

    let n = v.len();
    let mut i: usize = 0;
    while i < n
        invariant
            i <= n,
            v@.len() == n,
            v@.to_multiset() == old(v)@.to_multiset(),
            forall|p: int, q: int| 0 <= p < q < i ==> u8_leq()(v@[p], v@[q]),
            forall|p: int, q: int| 0 <= p < i <= q < n ==> u8_leq()(v@[p], v@[q]),
        decreases n - i,
    {
        let mut min_idx: usize = i;
        let mut j: usize = i + 1;
        while j < n
            invariant
                i <= min_idx < j <= n,
                v@.len() == n,
                forall|k: int| i <= k < j ==> v@[min_idx as int] <= v@[k],
            decreases n - j,
        {
            if v[j] < v[min_idx] {
                min_idx = j;
            }
            j = j + 1;
        }
        let a = v[i];
        let b = v[min_idx];
        let ghost pre = v@;
        *vstd::std_specs::vec::vec_index_mut(v, i) = b;
        *vstd::std_specs::vec::vec_index_mut(v, min_idx) = a;
        proof {
            let mid = pre.update(i as int, b);
            assert(v@ =~= mid.update(min_idx as int, a));
            assert(mid[min_idx as int] == b);
            pre.to_multiset_ensures();
            vstd::seq_lib::to_multiset_update(pre, i as int, b);
            vstd::seq_lib::to_multiset_update(mid, min_idx as int, a);
            assert(pre[i as int] == a);
            assert(pre.contains(a));
            assert(pre.to_multiset().count(a) > 0);
            assert(v@.to_multiset() =~= pre.to_multiset());
        }
        i = i + 1;
    }
    proof {
        assert(sorted_by(v@, u8_leq()));
    }
}

} // verus!
