//! Reordering-resistant reassembly across FEC runs.
//!
//! The decoder keeps one [`FrameDecoder`] per run inside a sliding window of
//! at most [`RUN_WINDOW`] + 1 runs. A shard for a newer run advances the
//! window; runs that fall out of it are retired, adding their received and
//! missing systematic shard counts to running totals used for the recovered
//! -loss statistic.
use vstd::prelude::*;

verus! {

use std::collections::HashMap;
use crate::fec::{
    count_present,
    decoder_wf,
    lemma_count_present_full,
    recovery_hyp,
    seq_views,
    FrameDecoder,
    FrameDecoderModel,
};

/// Width of the run window: the newest run minus the oldest tracked run
/// never exceeds this.
pub const RUN_WINDOW: u64 = 10;

/// Mathematical state of a [`RunDecoder`].
pub struct RunDecoderModel {
    /// Newest run seen.
    pub top_run: u64,
    /// Oldest run still tracked; shards for older runs are dropped.
    pub bottom_run: u64,
    /// The per-run decoders inside the window.
    pub decoders: Map<u64, FrameDecoderModel>,
    /// Systematic shards expected by retired runs (received plus missing).
    pub total_count: u64,
    /// Systematic shards actually received by retired runs.
    pub correct_count: u64,
    /// Systematic shards accepted so far, across all runs.
    pub total_data_shards: u64,
    /// Parity shards accepted so far, across all runs.
    pub total_parity_shards: u64,
}

/// The models of the decoders in a map of exec decoders.
pub open spec fn dec_models(m: Map<u64, FrameDecoder>) -> Map<u64, FrameDecoderModel> {
    Map::new(|k: u64| m.dom().contains(k), |k: u64| m[k]@)
}

/// Well-formedness: the window is ordered and bounded, and every tracked
/// decoder lies inside it and is itself well formed.
pub open spec fn run_wf(m: RunDecoderModel) -> bool {
    &&& m.bottom_run <= m.top_run
    &&& m.top_run - m.bottom_run <= RUN_WINDOW
    &&& forall|k: u64|
        #[trigger] m.decoders.dom().contains(k) ==> m.bottom_run <= k <= m.top_run && decoder_wf(
            m.decoders[k],
        )
}

/// The top of the window after a shard for `run_no` arrives.
pub open spec fn run_new_top(top: u64, run_no: u64) -> u64 {
    if run_no > top {
        run_no
    } else {
        top
    }
}

/// The bottom of the window after the top moved: advanced just enough to
/// keep the window at most [`RUN_WINDOW`] wide.
pub open spec fn run_new_bottom(top: u64, bottom: u64) -> u64 {
    if top - bottom > RUN_WINDOW {
        (top - RUN_WINDOW) as u64
    } else {
        bottom
    }
}

/// Systematic shards a run's decoder has received.
pub open spec fn run_good(m: FrameDecoderModel) -> int {
    count_present(m.shards.take(m.data_shards as int))
}

/// Systematic shards the tracked runs with numbers in `[from, to)` expect:
/// each contributes its full data shard count, received or not.
pub open spec fn retired_expected(decs: Map<u64, FrameDecoderModel>, from: u64, to: u64) -> int
    decreases to - from,
{
    if from >= to {
        0
    } else {
        (if decs.dom().contains(from) {
            decs[from].data_shards as int
        } else {
            0
        }) + retired_expected(decs, (from + 1) as u64, to)
    }
}

/// Systematic shards the tracked runs with numbers in `[from, to)` actually
/// received.
pub open spec fn retired_received(decs: Map<u64, FrameDecoderModel>, from: u64, to: u64) -> int
    decreases to - from,
{
    if from >= to {
        0
    } else {
        (if decs.dom().contains(from) {
            run_good(decs[from])
        } else {
            0
        }) + retired_received(decs, (from + 1) as u64, to)
    }
}

/// Extends a retirement sum by the run at its upper end.
proof fn lemma_retired_snoc(decs: Map<u64, FrameDecoderModel>, from: u64, to: u64)
    requires
        from <= to,
        to < u64::MAX,
    ensures
        retired_expected(decs, from, (to + 1) as u64) == retired_expected(decs, from, to) + (
        if decs.dom().contains(to) {
            decs[to].data_shards as int
        } else {
            0
        }),
        retired_received(decs, from, (to + 1) as u64) == retired_received(decs, from, to) + (
        if decs.dom().contains(to) {
            run_good(decs[to])
        } else {
            0
        }),
    decreases to - from,
{
    if from < to {
        lemma_retired_snoc(decs, (from + 1) as u64, to);
    } else {
        assert(retired_expected(decs, (from + 1) as u64, (to + 1) as u64) == 0);
        assert(retired_received(decs, (from + 1) as u64, (to + 1) as u64) == 0);
    }
}

/// The tracked decoders that survive a window advance to `bottom`.
pub open spec fn surviving(m: Map<u64, FrameDecoderModel>, bottom: u64) -> Map<
    u64,
    FrameDecoderModel,
> {
    m.restrict(Set::new(|k: u64| k >= bottom))
}

/// A decoder that has seen nothing of a run with the given shard counts.
pub open spec fn fresh_run(data_shards: u8, parity_shards: u8) -> FrameDecoderModel {
    FrameDecoderModel {
        data_shards,
        parity_shards,
        shards: Seq::new(data_shards as nat + parity_shards as nat, |i: int| None::<Seq<u8>>),
        done: false,
    }
}

/// The decoder a new shard of `run_no` meets, after the window advanced:
/// the tracked one, or a fresh one with the shard's counts.
pub open spec fn met_decoder(
    m: Map<u64, FrameDecoderModel>,
    run_no: u64,
    data_shards: u8,
    parity_shards: u8,
) -> FrameDecoderModel {
    if m.dom().contains(run_no) {
        m[run_no]
    } else {
        fresh_run(data_shards, parity_shards)
    }
}

/// A multi-run FEC reconstructor with bounded memory.
pub struct RunDecoder {
    top_run: u64,
    bottom_run: u64,
    decoders: HashMap<u64, FrameDecoder>,
    total_count: u64,
    correct_count: u64,
    total_data_shards: u64,
    total_parity_shards: u64,
}

impl View for RunDecoder {
    type V = RunDecoderModel;

    closed spec fn view(&self) -> RunDecoderModel {
        RunDecoderModel {
            top_run: self.top_run,
            bottom_run: self.bottom_run,
            decoders: dec_models(self.decoders@),
            total_count: self.total_count,
            correct_count: self.correct_count,
            total_data_shards: self.total_data_shards,
            total_parity_shards: self.total_parity_shards,
        }
    }
}

impl RunDecoder {
    /// An empty decoder with the window at run 0.
    pub fn new() -> (r: RunDecoder)
        ensures
            r@.top_run == 0,
            r@.bottom_run == 0,
            r@.decoders =~= Map::<u64, FrameDecoderModel>::empty(),
            r@.total_count == 0,
            r@.correct_count == 0,
            r@.total_data_shards == 0,
            r@.total_parity_shards == 0,
            run_wf(r@),
    {
        let r = RunDecoder {
            top_run: 0,
            bottom_run: 0,
            decoders: HashMap::new(),
            total_count: 0,
            correct_count: 0,
            total_data_shards: 0,
            total_parity_shards: 0,
        };
        proof {
            broadcast use vstd::std_specs::hash::group_hash_axioms;

            assert(dec_models(r.decoders@) =~= Map::<u64, FrameDecoderModel>::empty());
        }
        r
    }

    /// Systematic shards expected by retired runs.
    pub fn total_count(&self) -> (r: u64)
        ensures
            r == self@.total_count,
    {
        self.total_count
    }

    /// Systematic shards received by retired runs.
    pub fn correct_count(&self) -> (r: u64)
        ensures
            r == self@.correct_count,
    {
        self.correct_count
    }

    /// Systematic shards accepted so far.
    pub fn total_data_shards(&self) -> (r: u64)
        ensures
            r == self@.total_data_shards,
    {
        self.total_data_shards
    }

    /// Parity shards accepted so far.
    pub fn total_parity_shards(&self) -> (r: u64)
        ensures
            r == self@.total_parity_shards,
    {
        self.total_parity_shards
    }

    /// Feeds one shard. A shard for a run older than the window is dropped.
    /// Otherwise the window advances to the shard's run, runs that fall out
    /// are retired into the counters, and the shard goes to its run's
    /// decoder, whose emission (the whole batch, exactly once, as soon as
    /// enough shards of a coded run are present) passes through unchanged.
    #[verifier::loop_isolation(false)]
    pub fn input(
        &mut self,
        run_no: u64,
        run_idx: u8,
        data_shards: u8,
        parity_shards: u8,
        body: &[u8],
    ) -> (r: Option<Vec<Vec<u8>>>)
        requires
            run_wf(old(self)@),
        ensures
            run_wf(final(self)@),
            run_no < old(self)@.bottom_run ==> final(self)@ == old(self)@ && r is None,
            run_no >= old(self)@.bottom_run ==> ({
                let t = run_new_top(old(self)@.top_run, run_no);
                let b = run_new_bottom(t, old(self)@.bottom_run);
                let mid = surviving(old(self)@.decoders, b);
                let d0 = met_decoder(mid, run_no, data_shards, parity_shards);
                &&& final(self)@.top_run == t
                &&& final(self)@.bottom_run == b
                &&& final(self)@.decoders.dom() =~= mid.dom().insert(run_no)
                &&& (forall|k: u64|
                    #[trigger] mid.dom().contains(k) && k != run_no ==> final(self)@.decoders[k]
                        == mid[k])
                &&& ((d0.done || run_idx as int >= d0.shards.len() || d0.shards[run_idx as int]
                    is Some) ==> final(self)@.decoders[run_no] == d0 && r is None)
                &&& ((!d0.done && run_idx < d0.shards.len() && d0.shards[run_idx as int]
                    is None) ==> final(self)@.decoders[run_no].shards == d0.shards.update(
                    run_idx as int,
                    Some(body@),
                ) && final(self)@.decoders[run_no].done == (r is Some))
                &&& final(self)@.decoders[run_no].data_shards == d0.data_shards
                &&& final(self)@.decoders[run_no].parity_shards == d0.parity_shards
                &&& ((!d0.done && run_idx < d0.shards.len() && d0.shards[run_idx as int] is None
                    && count_present(d0.shards) + 1 < d0.data_shards as int) ==> r is None)
                &&& (r is Some ==> !d0.done)
                &&& (forall|ps: Seq<Seq<u8>>, len: int, enc: Seq<Seq<u8>>|
                    #[trigger] recovery_hyp(d0, body@, run_idx as int, ps, len, enc) ==> (
                    r matches Some(out) && seq_views(out@) == ps))
                &&& final(self)@.total_data_shards as int == if run_idx < data_shards
                    && old(self)@.total_data_shards < u64::MAX {
                    old(self)@.total_data_shards as int + 1
                } else {
                    old(self)@.total_data_shards as int
                }
                &&& final(self)@.total_parity_shards as int == if run_idx >= data_shards
                    && old(self)@.total_parity_shards < u64::MAX {
                    old(self)@.total_parity_shards as int + 1
                } else {
                    old(self)@.total_parity_shards as int
                }
                &&& final(self)@.total_count as int == vstd::math::min(
                    old(self)@.total_count as int + retired_expected(
                        old(self)@.decoders,
                        old(self)@.bottom_run,
                        b,
                    ),
                    u64::MAX as int,
                )
                &&& final(self)@.correct_count as int == vstd::math::min(
                    old(self)@.correct_count as int + retired_received(
                        old(self)@.decoders,
                        old(self)@.bottom_run,
                        b,
                    ),
                    u64::MAX as int,
                )
            }),
            final(self)@.total_count >= old(self)@.total_count,
            final(self)@.correct_count >= old(self)@.correct_count,
    {
        broadcast use vstd::std_specs::hash::group_hash_axioms;

        let ghost pre = self@;
        if run_no < self.bottom_run {
            return None;
        }
        if run_no > self.top_run {
            self.top_run = run_no;
            while self.top_run - self.bottom_run > RUN_WINDOW
                invariant
                    pre.bottom_run <= self@.bottom_run,
                    self@.bottom_run <= run_new_bottom(self@.top_run, pre.bottom_run),
                    self@.top_run == run_new_top(pre.top_run, run_no),
                    self@.decoders =~= surviving(pre.decoders, self@.bottom_run),
                    self@.total_count as int == vstd::math::min(
                        pre.total_count as int + retired_expected(
                            pre.decoders,
                            pre.bottom_run,
                            self@.bottom_run,
                        ),
                        u64::MAX as int,
                    ),
                    self@.correct_count as int == vstd::math::min(
                        pre.correct_count as int + retired_received(
                            pre.decoders,
                            pre.bottom_run,
                            self@.bottom_run,
                        ),
                        u64::MAX as int,
                    ),
                    self@.total_count >= pre.total_count,
                    self@.correct_count >= pre.correct_count,
                    self@.total_data_shards == pre.total_data_shards,
                    self@.total_parity_shards == pre.total_parity_shards,
                    forall|k: u64|
                        #[trigger] self@.decoders.dom().contains(k) ==> self@.bottom_run <= k
                            <= run_new_top(pre.top_run, run_no) && decoder_wf(self@.decoders[k]),
                decreases self.top_run - self.bottom_run,
            {
                let ghost before = self@;
                proof {
                    lemma_retired_snoc(pre.decoders, pre.bottom_run, before.bottom_run);
                }
                let evict = self.decoders.remove(&self.bottom_run);
                if let Some(d) = evict {
                    proof {
                        assert(before.decoders.dom().contains(before.bottom_run));
                        assert(d@ == before.decoders[before.bottom_run]);
                        assert(d@ == pre.decoders[before.bottom_run]);
                        assert(decoder_wf(d@));
                        lemma_count_present_full(d@.shards.take(d@.data_shards as int));
                    }
                    let good = d.good_pkts();
                    let lost = d.lost_pkts();
                    proof {
                        assert(good == run_good(d@));
                        assert(good + lost == d@.data_shards as int);
                    }
                    self.total_count = self.total_count.saturating_add((good + lost) as u64);
                    self.correct_count = self.correct_count.saturating_add(good as u64);
                } else {
                    proof {
                        assert(Set::new(|k: u64| k >= before.bottom_run).contains(
                            before.bottom_run,
                        ));
                        assert(!before.decoders.dom().contains(before.bottom_run));
                        assert(!surviving(pre.decoders, before.bottom_run).dom().contains(
                            before.bottom_run,
                        ));
                        assert(!pre.decoders.dom().contains(before.bottom_run));
                    }
                }
                self.bottom_run = self.bottom_run + 1;
                proof {
                    assert(self@.decoders =~= before.decoders.remove(before.bottom_run));
                    assert(before.decoders.remove(before.bottom_run) =~= surviving(
                        pre.decoders,
                        self@.bottom_run,
                    ));
                }
            }
        }
        let ghost t = self@.top_run;
        let ghost b = self@.bottom_run;
        let ghost mid = self@.decoders;
        proof {
            assert(t == run_new_top(pre.top_run, run_no));
            assert(b == run_new_bottom(t, pre.bottom_run));
            assert(mid =~= surviving(pre.decoders, b));
        }
        if run_idx < data_shards {
            self.total_data_shards = if self.total_data_shards < u64::MAX {
                self.total_data_shards + 1
            } else {
                u64::MAX
            };
        } else {
            self.total_parity_shards = if self.total_parity_shards < u64::MAX {
                self.total_parity_shards + 1
            } else {
                u64::MAX
            };
        }
        let mut dec = match self.decoders.remove(&run_no) {
            Some(d) => d,
            None => FrameDecoder::new(data_shards, parity_shards),
        };
        let ghost d0 = dec@;
        proof {
            assert(d0 == met_decoder(mid, run_no, data_shards, parity_shards));
        }
        let r = dec.decode(body, run_idx as usize);
        self.decoders.insert(run_no, dec);
        proof {
            assert(self@.decoders.dom() =~= mid.dom().insert(run_no));
            assert(forall|k: u64|
                #[trigger] mid.dom().contains(k) && k != run_no ==> self@.decoders[k] == mid[k]);
            assert(self@.decoders[run_no] == dec@);
        }
        r
    }
}

} // verus!
