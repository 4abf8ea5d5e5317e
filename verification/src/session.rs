//! The session's two halves, as verified state machines.
//!
//! The send side batches payloads (up to [`BATCH_MAX`] per run, or whatever
//! gathered within the latency window), FEC-codes each batch, and stamps
//! every shard into a [`DataFrame`] with strictly monotonic frame numbers
//! and one run number per batch. The receive side replay-filters incoming
//! frames, keeps loss telemetry, and feeds the run decoder. The I/O layer
//! owns the channels and timers and drives these machines with plain calls.
use vstd::prelude::*;

verus! {

use std::collections::VecDeque;
use crate::decoder::{
    met_decoder,
    retired_expected,
    retired_received,
    run_new_bottom,
    run_new_top,
    run_wf,
    surviving,
    RunDecoder,
    RunDecoderModel,
};
use crate::fec::{
    coded_run,
    count_present,
    recovery_hyp,
    seq_views,
    spec_parity_count,
    max_payload_len,
    FrameDecoderModel,
    FrameEncoder,
    MAX_PAYLOAD,
};
use crate::loss::{
    loss_sample_value,
    loss_wf,
    push_sample,
    quartile,
    sample_admitted,
    LossCalculator,
    LossModel,
};
use crate::msg::DataFrame;
use crate::replay::{replay_blocked, replay_wf, ReplayFilter, ReplayModel};

/// Payloads per run: a batch closes as soon as it holds this many.
pub const BATCH_MAX: usize = 16;

/// How long the send loop waits for more payloads after the first one of a
/// batch, in milliseconds.
pub const LATENCY_MS: u64 = 1;

/// Default protection target: a loss of 0.05, scaled to 256ths.
pub const TARGET_LOSS: u8 = 12;

/// Bound of the channel of payloads waiting to be batched; overflow is
/// silently dropped.
pub const SEND_TOSEND_BOUND: usize = 500;

/// Bound of the channel of decoded payloads handed to the application.
pub const RECV_INPUT_BOUND: usize = 500;

/// Bound of the channels of data frames to and from the backhaul shards.
pub const SEND_FRAME_BOUND: usize = 1000;

/// Most recent (time, frame number) pairs kept for diagnostics.
pub const RECENT_SEQNOS_CAP: usize = 100000;

/// Gathers payloads into batches of at most [`BATCH_MAX`].
pub struct Batcher {
    pending: Vec<Vec<u8>>,
}

impl View for Batcher {
    type V = Seq<Seq<u8>>;

    closed spec fn view(&self) -> Seq<Seq<u8>> {
        seq_views(self.pending@)
    }
}

impl Batcher {
    /// An empty batcher.
    pub fn new() -> (r: Batcher)
        ensures
            r@ =~= Seq::<Seq<u8>>::empty(),
    {
        Batcher { pending: Vec::new() }
    }

    /// How many payloads are waiting.
    pub fn len(&self) -> (r: usize)
        ensures
            r == self@.len(),
    {
        self.pending.len()
    }

    /// Adds a payload; returns the full batch once it reaches
    /// [`BATCH_MAX`], to become one FEC run.
    pub fn push(&mut self, payload: Vec<u8>) -> (r: Option<Vec<Vec<u8>>>)
        requires
            old(self)@.len() < BATCH_MAX,
        ensures
            old(self)@.len() + 1 == BATCH_MAX ==> (r matches Some(batch) && seq_views(batch@)
                == old(self)@.push(payload@) && final(self)@ =~= Seq::<Seq<u8>>::empty()),
            old(self)@.len() + 1 < BATCH_MAX ==> r is None && final(self)@ =~= old(self)@.push(
                payload@,
            ),
    {
        let ghost pre = self@;
        self.pending.push(payload);
        proof {
            assert(self@ =~= pre.push(payload@));
        }
        if self.pending.len() >= BATCH_MAX {
            let mut batch: Vec<Vec<u8>> = Vec::new();
            core::mem::swap(&mut batch, &mut self.pending);
            proof {
                assert(self@ =~= Seq::<Seq<u8>>::empty());
            }
            Some(batch)
        } else {
            None
        }
    }

    /// Takes whatever has gathered, if anything: called when the latency
    /// window of the oldest pending payload elapses.
    pub fn flush(&mut self) -> (r: Option<Vec<Vec<u8>>>)
        ensures
            old(self)@.len() == 0 ==> r is None && final(self)@ =~= old(self)@,
            old(self)@.len() > 0 ==> (r matches Some(batch) && seq_views(batch@) == old(self)@
                && final(self)@ =~= Seq::<Seq<u8>>::empty()),
    {
        if self.pending.is_empty() {
            return None;
        }
        let mut batch: Vec<Vec<u8>> = Vec::new();
        core::mem::swap(&mut batch, &mut self.pending);
        proof {
            assert(self@ =~= Seq::<Seq<u8>>::empty());
        }
        Some(batch)
    }
}

/// Mathematical state of a [`SessionSender`].
pub struct SenderModel {
    /// Next frame number to stamp.
    pub frame_no: u64,
    /// Next run number to stamp.
    pub run_no: u64,
    /// Configured target loss, in 256ths.
    pub target_loss: u8,
}

/// The send half: stamps FEC-coded batches into data frames.
pub struct SessionSender {
    frame_no: u64,
    run_no: u64,
    encoder: FrameEncoder,
}

impl View for SessionSender {
    type V = SenderModel;

    closed spec fn view(&self) -> SenderModel {
        SenderModel { frame_no: self.frame_no, run_no: self.run_no, target_loss: self.encoder@ }
    }
}

impl SessionSender {
    /// A fresh sender: frame and run counters at zero.
    pub fn new(target_loss: u8) -> (r: SessionSender)
        ensures
            r@.frame_no == 0,
            r@.run_no == 0,
            r@.target_loss == target_loss,
    {
        SessionSender { frame_no: 0, run_no: 0, encoder: FrameEncoder::new(target_loss) }
    }

    /// The next frame number the sender will stamp.
    pub fn frame_no(&self) -> (r: u64)
        ensures
            r == self@.frame_no,
    {
        self.frame_no
    }

    /// The next run number the sender will stamp.
    pub fn run_no(&self) -> (r: u64)
        ensures
            r == self@.run_no,
    {
        self.run_no
    }

    /// Codes one batch into one run of data frames. Frame numbers are
    /// consecutive from the sender's counter (strictly monotonic across
    /// calls), the run number is stamped on every frame of the batch and
    /// rises by exactly one per batch, and every frame carries the batch's
    /// shard counts and the reverse-path telemetry passed in.
    pub fn encode_run(
        &mut self,
        batch: &Vec<Vec<u8>>,
        measured_loss: u8,
        high_recv_frame_no: u64,
        total_recv_frames: u64,
    ) -> (frames: Vec<DataFrame>)
        requires
            1 <= batch@.len() <= BATCH_MAX,
            forall|i: int| 0 <= i < batch@.len() ==> #[trigger] batch@[i]@.len() <= MAX_PAYLOAD,
            old(self)@.frame_no + 255 <= u64::MAX,
            old(self)@.run_no < u64::MAX,
        ensures
            ({
                let ps = seq_views(batch@);
                let loss = if measured_loss > old(self)@.target_loss {
                    measured_loss as int
                } else {
                    old(self)@.target_loss as int
                };
                let pc = spec_parity_count(ps.len() as int, loss);
                &&& frames@.len() == ps.len() + pc
                &&& coded_run(
                    ps,
                    pc,
                    max_payload_len(ps) + 2,
                    Seq::new(frames@.len(), |i: int| frames@[i]@.body),
                )
                &&& (forall|i: int|
                    0 <= i < frames@.len() ==> {
                        let f = (#[trigger] frames@[i])@;
                        &&& f.frame_no == old(self)@.frame_no + i
                        &&& f.run_no == old(self)@.run_no
                        &&& f.run_idx == i
                        &&& f.data_shards == ps.len()
                        &&& f.parity_shards == pc
                        &&& f.high_recv_frame_no == high_recv_frame_no
                        &&& f.total_recv_frames == total_recv_frames
                    })
                &&& final(self)@.frame_no == old(self)@.frame_no + frames@.len()
                &&& final(self)@.run_no == old(self)@.run_no + 1
                &&& final(self)@.target_loss == old(self)@.target_loss
            }),
    {
        let ghost ps = seq_views(batch@);
        let data = batch.len();
        let mut shards = self.encoder.encode(measured_loss, batch);
        let ghost enc = seq_views(shards@);
        let total = shards.len();
        let mut frames: Vec<DataFrame> = Vec::new();
        let ghost pc = total - data;
        let mut i: usize = 0;
        while i < total
            invariant
                i <= total,
                total == enc.len(),
                data == ps.len(),
                1 <= data <= total <= 255,
                self@.frame_no == old(self)@.frame_no,
                self@.run_no == old(self)@.run_no,
                self@.target_loss == old(self)@.target_loss,
                old(self)@.frame_no + 255 <= u64::MAX,
                shards@.len() + i == total,
                seq_views(shards@) =~= enc.skip(i as int),
                frames@.len() == i,
                forall|k: int|
                    0 <= k < i ==> {
                        let f = (#[trigger] frames@[k])@;
                        &&& f.frame_no == old(self)@.frame_no + k
                        &&& f.run_no == old(self)@.run_no
                        &&& f.run_idx == k
                        &&& f.data_shards == data
                        &&& f.parity_shards == total - data
                        &&& f.high_recv_frame_no == high_recv_frame_no
                        &&& f.total_recv_frames == total_recv_frames
                        &&& f.body == enc[k]
                    },
            decreases total - i,
        {
            let ghost prev = shards@;
            let body = shards.remove(0);
            proof {
                assert(seq_views(prev)[0] == prev[0]@);
                assert(body@ == enc[i as int]);
                assert forall|k: int| 0 <= k < shards@.len() implies #[trigger] seq_views(
                    shards@,
                )[k] == enc.skip(i as int + 1)[k] by {
                    assert(shards@[k] == prev[k + 1]);
                    assert(seq_views(prev)[k + 1] == prev[k + 1]@);
                    assert(seq_views(prev)[k + 1] == enc.skip(i as int)[k + 1]);
                }
                assert(seq_views(shards@) =~= enc.skip(i as int + 1));
            }
            let frame = DataFrame {
                frame_no: self.frame_no + i as u64,
                run_no: self.run_no,
                run_idx: i as u8,
                data_shards: data as u8,
                parity_shards: (total - data) as u8,
                high_recv_frame_no,
                total_recv_frames,
                body,
            };
            frames.push(frame);
            i = i + 1;
        }
        self.frame_no = self.frame_no + total as u64;
        self.run_no = self.run_no + 1;
        proof {
            assert(Seq::new(frames@.len(), |k: int| frames@[k]@.body) =~= enc);
        }
        frames
    }
}

/// Frame accounting across two consecutive runs: since the sender's frame
/// counter moves past every frame it stamps, each frame of the later run
/// carries a strictly larger frame number than every frame of the earlier
/// one, and the later run number is exactly one more.
pub proof fn lemma_frame_accounting(
    first_start: u64,
    first_len: int,
    second_start: u64,
    i: int,
    j: int,
)
    requires
        0 <= i < first_len,
        0 <= j,
        second_start >= first_start + first_len,
        second_start + j <= u64::MAX,
    ensures
        first_start + i < second_start + j,
{
}

/// Mathematical state of a [`SessionReceiver`].
pub struct ReceiverModel {
    /// The replay filter over frame numbers.
    pub replay: ReplayModel,
    /// The loss calculator fed from reverse-path telemetry.
    pub loss: LossModel,
    /// The run decoder.
    pub decoder: RunDecoderModel,
    /// Recent (time in ms, frame number) pairs, oldest first.
    pub seqnos: Seq<(u64, u64)>,
    /// Current loss estimate, in 256ths: the loss calculator's quartile.
    pub measured_loss: u8,
    /// Highest admitted frame number.
    pub high_recv_frame_no: u64,
    /// Count of admitted frames.
    pub total_recv_frames: u64,
}

/// Well-formedness of the receive half: each part is well formed and the
/// diagnostics ring is capped.
pub open spec fn receiver_wf(m: ReceiverModel) -> bool {
    &&& replay_wf(m.replay)
    &&& loss_wf(m.loss)
    &&& run_wf(m.decoder)
    &&& m.seqnos.len() <= RECENT_SEQNOS_CAP
}

/// The receive half: replay filter, telemetry, and run decoder.
pub struct SessionReceiver {
    replay: ReplayFilter,
    loss: LossCalculator,
    decoder: RunDecoder,
    seqnos: VecDeque<(u64, u64)>,
    measured_loss: u8,
    high_recv_frame_no: u64,
    total_recv_frames: u64,
}

impl View for SessionReceiver {
    type V = ReceiverModel;

    closed spec fn view(&self) -> ReceiverModel {
        ReceiverModel {
            replay: self.replay@,
            loss: self.loss@,
            decoder: self.decoder@,
            seqnos: self.seqnos@,
            measured_loss: self.measured_loss,
            high_recv_frame_no: self.high_recv_frame_no,
            total_recv_frames: self.total_recv_frames,
        }
    }
}

/// A session's statistics snapshot: raw counters, from which the ratios
/// (down loss, recovered loss, redundancy) are computed at the boundary.
pub struct SessionStats {
    /// Highest frame number seen from the peer.
    pub down_total: u64,
    /// Frames actually received from the peer.
    pub down_recv: u64,
    /// Systematic shards received by retired runs.
    pub down_correct: u64,
    /// Systematic shards expected by retired runs.
    pub down_run_total: u64,
    /// Systematic shards accepted so far.
    pub down_data_shards: u64,
    /// Parity shards accepted so far.
    pub down_parity_shards: u64,
    /// Recent (time in ms, frame number) pairs, oldest first.
    pub recent_seqnos: Vec<(u64, u64)>,
}

impl SessionReceiver {
    /// A fresh receiver with its loss epoch at `now_ms`.
    pub fn new(now_ms: u64) -> (r: SessionReceiver)
        ensures
            receiver_wf(r@),
            r@.replay.top == 0 && r@.replay.bottom == 0 && r@.replay.seen
                == Set::<u64>::empty(),
            r@.loss.samples == Seq::<u8>::empty() && r@.loss.last_time_ms == now_ms,
            r@.decoder.top_run == 0 && r@.decoder.bottom_run == 0 && r@.decoder.decoders
                =~= Map::<u64, FrameDecoderModel>::empty(),
            r@.seqnos == Seq::<(u64, u64)>::empty(),
            r@.measured_loss == 0,
            r@.high_recv_frame_no == 0,
            r@.total_recv_frames == 0,
    {
        SessionReceiver {
            replay: ReplayFilter::new(0),
            loss: LossCalculator::new(now_ms),
            decoder: RunDecoder::new(),
            seqnos: VecDeque::new(),
            measured_loss: 0,
            high_recv_frame_no: 0,
            total_recv_frames: 0,
        }
    }

    /// The current loss estimate, in 256ths, for the send side's encoder.
    pub fn measured_loss(&self) -> (r: u8)
        ensures
            r == self@.measured_loss,
    {
        self.measured_loss
    }

    /// Highest admitted frame number, echoed to the peer in outgoing
    /// frames.
    pub fn high_recv_frame_no(&self) -> (r: u64)
        ensures
            r == self@.high_recv_frame_no,
    {
        self.high_recv_frame_no
    }

    /// Count of admitted frames, echoed to the peer in outgoing frames.
    pub fn total_recv_frames(&self) -> (r: u64)
        ensures
            r == self@.total_recv_frames,
    {
        self.total_recv_frames
    }

    /// Handles one inbound frame. A replayed or too-old frame number is
    /// dropped whole. An admitted frame enters the diagnostics ring, its
    /// reverse-path telemetry feeds the loss calculator, the counters move,
    /// and its shard goes to the run decoder; decoded batches pass out
    /// unchanged.
    pub fn process_frame(&mut self, frame: &DataFrame, now_ms: u64) -> (r: Option<Vec<Vec<u8>>>)
        requires
            receiver_wf(old(self)@),
        ensures
            receiver_wf(final(self)@),
            replay_blocked(old(self)@.replay, frame.frame_no) ==> final(self)@ == old(self)@ && r
                is None,
            replay_blocked(final(self)@.replay, frame.frame_no),
            !replay_blocked(old(self)@.replay, frame.frame_no) ==> ({
                let m = old(self)@;
                let t = run_new_top(m.decoder.top_run, frame.run_no);
                let b = run_new_bottom(t, m.decoder.bottom_run);
                let d0 = met_decoder(
                    surviving(m.decoder.decoders, b),
                    frame.run_no,
                    frame.data_shards,
                    frame.parity_shards,
                );
                &&& final(self)@.seqnos == if m.seqnos.len() + 1 > RECENT_SEQNOS_CAP {
                    m.seqnos.push((now_ms, frame.frame_no)).drop_first()
                } else {
                    m.seqnos.push((now_ms, frame.frame_no))
                }
                &&& final(self)@.high_recv_frame_no == if frame.frame_no > m.high_recv_frame_no {
                    frame.frame_no
                } else {
                    m.high_recv_frame_no
                }
                &&& final(self)@.total_recv_frames as int == if m.total_recv_frames < u64::MAX {
                    m.total_recv_frames as int + 1
                } else {
                    m.total_recv_frames as int
                }
                &&& final(self)@.measured_loss == final(self)@.loss.median
                &&& (!sample_admitted(
                    m.loss,
                    frame.high_recv_frame_no,
                    frame.total_recv_frames,
                    now_ms,
                ) ==> final(self)@.loss == m.loss)
                &&& (sample_admitted(
                    m.loss,
                    frame.high_recv_frame_no,
                    frame.total_recv_frames,
                    now_ms,
                ) ==> {
                    let sample = loss_sample_value(
                        frame.high_recv_frame_no - m.loss.last_top,
                        frame.total_recv_frames - m.loss.last_total,
                    ) as u8;
                    &&& final(self)@.loss.last_top == frame.high_recv_frame_no
                    &&& final(self)@.loss.last_total == frame.total_recv_frames
                    &&& final(self)@.loss.last_time_ms == now_ms
                    &&& final(self)@.loss.samples == push_sample(m.loss.samples, sample)
                    &&& final(self)@.loss.median == quartile(final(self)@.loss.samples)
                })
                &&& (frame.run_no < m.decoder.bottom_run ==> final(self)@.decoder == m.decoder
                    && r is None)
                &&& (frame.run_no >= m.decoder.bottom_run ==> {
                    let mid = surviving(m.decoder.decoders, b);
                    &&& final(self)@.decoder.top_run == t
                    &&& final(self)@.decoder.bottom_run == b
                    &&& final(self)@.decoder.decoders.dom() =~= mid.dom().insert(frame.run_no)
                    &&& (forall|k: u64|
                        #[trigger] mid.dom().contains(k) && k != frame.run_no ==> final(self)@.decoder.decoders[k] == mid[k])
                    &&& ((d0.done || frame.run_idx as int >= d0.shards.len()
                        || d0.shards[frame.run_idx as int] is Some) ==> final(self)@.decoder.decoders[frame.run_no] == d0 && r is None)
                    &&& ((!d0.done && frame.run_idx < d0.shards.len()
                        && d0.shards[frame.run_idx as int] is None) ==> final(self)@.decoder.decoders[frame.run_no].shards == d0.shards.update(
                        frame.run_idx as int,
                        Some(frame.body@),
                    ) && final(self)@.decoder.decoders[frame.run_no].done == (r is Some))
                    &&& final(self)@.decoder.decoders[frame.run_no].data_shards == d0.data_shards
                    &&& final(self)@.decoder.decoders[frame.run_no].parity_shards
                        == d0.parity_shards
                    &&& ((!d0.done && frame.run_idx < d0.shards.len()
                        && d0.shards[frame.run_idx as int] is None && count_present(d0.shards) + 1
                        < d0.data_shards as int) ==> r is None)
                    &&& final(self)@.decoder.total_data_shards as int == if frame.run_idx
                        < frame.data_shards && m.decoder.total_data_shards < u64::MAX {
                        m.decoder.total_data_shards as int + 1
                    } else {
                        m.decoder.total_data_shards as int
                    }
                    &&& final(self)@.decoder.total_parity_shards as int == if frame.run_idx
                        >= frame.data_shards && m.decoder.total_parity_shards < u64::MAX {
                        m.decoder.total_parity_shards as int + 1
                    } else {
                        m.decoder.total_parity_shards as int
                    }
                    &&& final(self)@.decoder.total_count as int == vstd::math::min(
                        m.decoder.total_count as int + retired_expected(
                            m.decoder.decoders,
                            m.decoder.bottom_run,
                            b,
                        ),
                        u64::MAX as int,
                    )
                    &&& final(self)@.decoder.correct_count as int == vstd::math::min(
                        m.decoder.correct_count as int + retired_received(
                            m.decoder.decoders,
                            m.decoder.bottom_run,
                            b,
                        ),
                        u64::MAX as int,
                    )
                })
                &&& (forall|ps: Seq<Seq<u8>>, len: int, enc: Seq<Seq<u8>>|
                    frame.run_no >= m.decoder.bottom_run && #[trigger] recovery_hyp(
                        d0,
                        frame.body@,
                        frame.run_idx as int,
                        ps,
                        len,
                        enc,
                    ) ==> (r matches Some(out) && seq_views(out@) == ps))
            }),
    {
        if !self.replay.add(frame.frame_no) {
            return None;
        }
        self.seqnos.push_back((now_ms, frame.frame_no));
        if self.seqnos.len() > RECENT_SEQNOS_CAP {
            self.seqnos.pop_front();
        }
        self.loss.update_params(frame.high_recv_frame_no, frame.total_recv_frames, now_ms);
        self.measured_loss = self.loss.median();
        if frame.frame_no > self.high_recv_frame_no {
            self.high_recv_frame_no = frame.frame_no;
        }
        if self.total_recv_frames < u64::MAX {
            self.total_recv_frames = self.total_recv_frames + 1;
        }
        self.decoder.input(
            frame.run_no,
            frame.run_idx,
            frame.data_shards,
            frame.parity_shards,
            frame.body.as_slice(),
        )
    }

    /// A consistent snapshot of the session's statistics.
    pub fn stats(&self) -> (r: SessionStats)
        ensures
            r.down_total == self@.high_recv_frame_no,
            r.down_recv == self@.total_recv_frames,
            r.down_correct == self@.decoder.correct_count,
            r.down_run_total == self@.decoder.total_count,
            r.down_data_shards == self@.decoder.total_data_shards,
            r.down_parity_shards == self@.decoder.total_parity_shards,
            r.recent_seqnos@ == self@.seqnos,
    {
        let mut recent: Vec<(u64, u64)> = Vec::new();
        let mut i: usize = 0;
        while i < self.seqnos.len()
            invariant
                i <= self.seqnos@.len(),
                recent@ == self.seqnos@.take(i as int),
            decreases self.seqnos@.len() - i,
        {
            recent.push(*(&self.seqnos[i]));
            proof {
                assert(recent@ =~= self.seqnos@.take(i as int + 1));
            }
            i = i + 1;
        }
        proof {
            assert(recent@ =~= self.seqnos@);
        }
        SessionStats {
            down_total: self.high_recv_frame_no,
            down_recv: self.total_recv_frames,
            down_correct: self.decoder.correct_count(),
            down_run_total: self.decoder.total_count(),
            down_data_shards: self.decoder.total_data_shards(),
            down_parity_shards: self.decoder.total_parity_shards(),
            recent_seqnos: recent,
        }
    }
}

/// A frame number above the filter's window top is always admitted; the
/// sender's frame numbers rise strictly, so on a lossless in-order wire no
/// frame is ever dropped by the replay filter.
pub proof fn lemma_fresh_frame_admitted(m: ReplayModel, seqno: u64)
    requires
        replay_wf(m),
        seqno > m.top,
    ensures
        !replay_blocked(m, seqno),
{
}

/// The shard store of a fresh decoder that has received exactly the first
/// `i` shards of a run, in order.
pub open spec fn prefix_shards(total: int, enc: Seq<Seq<u8>>, i: int) -> Seq<Option<Seq<u8>>> {
    Seq::new(total as nat, |j: int| if j < i { Some(enc[j]) } else { None })
}

/// The first `i` slots filled means `i` shards present.
pub proof fn lemma_prefix_count(total: int, enc: Seq<Seq<u8>>, i: int)
    requires
        0 <= i <= total,
    ensures
        count_present(prefix_shards(total, enc, i)) == if i < total {
            i
        } else {
            total
        },
    decreases total,
{
    if total > 0 {
        let s = prefix_shards(total, enc, i);
        if i < total {
            assert(s.drop_last() =~= prefix_shards(total - 1, enc, i));
            lemma_prefix_count(total - 1, enc, i);
        } else {
            assert(s.drop_last() =~= prefix_shards(total - 1, enc, i - 1));
            lemma_prefix_count(total - 1, enc, i - 1);
        }
    }
}

/// Lossless in-order round trip of one run: when the shards of one coded
/// run arrive in index order at a fresh decoder, the arrival of shard
/// `data - 1` — the last systematic one — satisfies the recovery
/// hypothesis, so the decoder emits exactly the run's batch, in index
/// order, at that moment; earlier arrivals store their shard and emit
/// nothing.
pub proof fn lemma_lossless_round_trip(
    ps: Seq<Seq<u8>>,
    pc: int,
    len: int,
    enc: Seq<Seq<u8>>,
    data_shards: u8,
    parity_shards: u8,
    i: int,
)
    requires
        coded_run(ps, pc, len, enc),
        ps.len() == data_shards as int,
        pc == parity_shards as int,
        0 <= i < data_shards as int,
    ensures
        ({
            let m = FrameDecoderModel {
                data_shards,
                parity_shards,
                shards: prefix_shards(enc.len() as int, enc, i),
                done: false,
            };
            &&& (i == data_shards as int - 1 ==> recovery_hyp(m, enc[i], i, ps, len, enc))
            &&& m.shards[i] is None
            &&& m.shards.update(i, Some(enc[i])) =~= prefix_shards(enc.len() as int, enc, i + 1)
        }),
{
    let total = enc.len() as int;
    let m = FrameDecoderModel {
        data_shards,
        parity_shards,
        shards: prefix_shards(total, enc, i),
        done: false,
    };
    lemma_prefix_count(total, enc, i);
    assert(m.shards.update(i, Some(enc[i])) =~= prefix_shards(total, enc, i + 1));
}

} // verus!
