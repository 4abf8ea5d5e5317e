//! Forward-error-correction coding of one run: a batch of payloads becomes
//! `data_shards` systematic shards (each payload length-framed and padded to
//! a common shard length) plus parity shards from a Reed-Solomon code. Any
//! `data_shards` shards of a run recover the whole batch; the Galois-field
//! arithmetic is an outside crate behind trusted wrappers, everything around
//! it is verified.
//!
//! A systematic Reed-Solomon erasure code is the parity backend on purpose:
//! being maximum-distance-separable, it recovers the batch from exactly any
//! `data_shards` shards of the run, which is the recovery law the decoder's
//! contracts state; a fountain-style code would only promise that with high
//! probability.
use vstd::prelude::*;

verus! {

use crate::crypto::{pad, pad_spec, unpad, unpad_spec, lemma_pad_round_trip};

/// Most payloads in one run; a batch never exceeds this.
pub const MAX_DATA_SHARDS: usize = 16;

/// Most shards of any kind in one run: the run index is a byte and the
/// Galois field of the parity code has 256 elements.
pub const MAX_TOTAL_SHARDS: usize = 255;

/// Longest payload one shard can carry: its length and the two-byte length
/// prefix must fit a 16-bit length.
pub const MAX_PAYLOAD: usize = 65533;

/// The views of a sequence of byte vectors.
pub open spec fn seq_views(v: Seq<Vec<u8>>) -> Seq<Seq<u8>> {
    Seq::new(v.len(), |i: int| v[i]@)
}

/// The views of a sequence of optional byte vectors.
pub open spec fn opt_views(v: Seq<Option<Vec<u8>>>) -> Seq<Option<Seq<u8>>> {
    Seq::new(
        v.len(),
        |i: int|
            match v[i] {
                Some(b) => Some(b@),
                None => None,
            },
    )
}

/// How many of the optional shards are present.
pub open spec fn count_present(shards: Seq<Option<Seq<u8>>>) -> int
    decreases shards.len(),
{
    if shards.len() == 0 {
        0
    } else {
        count_present(shards.drop_last()) + if shards.last() is Some {
            1int
        } else {
            0int
        }
    }
}

/// Present shards agree with a full codeword: wherever a shard is stored, it
/// equals the codeword's shard at that index.
pub open spec fn opt_matches(shards: Seq<Option<Seq<u8>>>, full: Seq<Seq<u8>>) -> bool {
    &&& shards.len() == full.len()
    &&& forall|i: int|
        0 <= i < shards.len() ==> ((#[trigger] shards[i]) matches Some(s) ==> s == full[i])
}

/// What the Reed-Solomon encoder produces: the parity shards, a function of
/// the data shards and the parity count alone.
pub uninterp spec fn rs_parity_of(data: Seq<Seq<u8>>, parity: int) -> Seq<Seq<u8>>;

/// A full codeword: the data shards followed by their parity shards.
pub open spec fn full_run(data: Seq<Seq<u8>>, parity: int) -> Seq<Seq<u8>> {
    data + rs_parity_of(data, parity)
}

/// Relies on `reed_solomon_erasure::galois_8::ReedSolomon::encode`: the
/// parity shards are a function of the data shards alone; there are exactly
/// `parity` of them and each is as long as a data shard.
#[verifier::external_body]
fn rs_parity(data: &Vec<Vec<u8>>, parity: usize) -> (r: Vec<Vec<u8>>)
    requires
        1 <= data@.len(),
        1 <= parity,
        data@.len() + parity <= MAX_TOTAL_SHARDS,
        forall|i: int| 0 <= i < data@.len() ==> #[trigger] data@[i]@.len() == data@[0]@.len(),
        1 <= data@[0]@.len(),
    ensures
        seq_views(r@) == rs_parity_of(seq_views(data@), parity as int),
        r@.len() == parity,
        forall|i: int| 0 <= i < r@.len() ==> #[trigger] r@[i]@.len() == data@[0]@.len(),
{
    let rs = reed_solomon_erasure::galois_8::ReedSolomon::new(data.len(), parity).expect(
        "shard counts",
    );
    let mut shards: Vec<Vec<u8>> = data.clone();
    shards.resize(data.len() + parity, vec![0u8; data[0].len()]);
    rs.encode(&mut shards).expect("equal shard lengths");
    shards.split_off(data.len())
}

/// The hypothesis under which Reed-Solomon reconstruction is exact: the
/// stored shards agree with the codeword of the equal-length data shards
/// `d`, and at least `data` of them are present.
pub open spec fn rs_recoverable(
    d: Seq<Seq<u8>>,
    data: int,
    parity: int,
    shards: Seq<Option<Seq<u8>>>,
) -> bool {
    &&& d.len() == data
    &&& (forall|i: int| 0 <= i < d.len() ==> (#[trigger] d[i]).len() == d[0].len())
    &&& 1 <= d[0].len()
    &&& opt_matches(shards, full_run(d, parity))
    &&& count_present(shards) >= data
}

/// Relies on `reed_solomon_erasure::galois_8::ReedSolomon::reconstruct`: the
/// code is maximum-distance-separable, so any `data` present shards of a
/// codeword determine the whole codeword, and reconstruction fills in
/// exactly the missing codeword shards.
#[verifier::external_body]
fn rs_reconstruct(data: usize, parity: usize, shards: &Vec<Option<Vec<u8>>>) -> (r: Option<Vec<Vec<u8>>>)
    requires
        1 <= data,
        1 <= parity,
        data + parity <= MAX_TOTAL_SHARDS,
        shards@.len() == data + parity,
    ensures
        r matches Some(full) ==> full@.len() == data + parity,
        r is None ==> forall|d: Seq<Seq<u8>>|
            !(#[trigger] rs_recoverable(d, data as int, parity as int, opt_views(shards@))),
        r matches Some(full) ==> forall|d: Seq<Seq<u8>>|
            #[trigger] rs_recoverable(d, data as int, parity as int, opt_views(shards@))
                ==> seq_views(full@) == full_run(d, parity as int),
{
    let rs = reed_solomon_erasure::galois_8::ReedSolomon::new(data, parity).ok()?;
    let mut work: Vec<Option<Vec<u8>>> = shards.clone();
    rs.reconstruct(&mut work).ok()?;
    work.into_iter().collect()
}

/// Parity shards for a batch: the loss fraction (in 256ths) of the data
/// shard count, rounded up.
pub open spec fn spec_parity_count(data: int, loss: int) -> int {
    (data * loss + 255) / 256
}

/// The longest payload length in a batch.
pub open spec fn max_payload_len(ps: Seq<Seq<u8>>) -> int
    decreases ps.len(),
{
    if ps.len() == 0 {
        0
    } else {
        let rest = max_payload_len(ps.drop_last());
        if ps.last().len() > rest {
            ps.last().len() as int
        } else {
            rest
        }
    }
}

/// Every payload is at most the batch maximum.
pub proof fn lemma_max_payload_bound(ps: Seq<Seq<u8>>, i: int)
    requires
        0 <= i < ps.len(),
    ensures
        ps[i].len() <= max_payload_len(ps),
        max_payload_len(ps) >= 0,
    decreases ps.len(),
{
    if i < ps.len() - 1 {
        lemma_max_payload_bound(ps.drop_last(), i);
    }
}

/// `enc` is the coded run of the batch `ps` with `pc` parity shards at shard
/// length `len`: the first shards are the padded payloads, the rest their
/// Reed-Solomon parity, and all shards share the length.
pub open spec fn coded_run(ps: Seq<Seq<u8>>, pc: int, len: int, enc: Seq<Seq<u8>>) -> bool {
    &&& 1 <= ps.len()
    &&& 0 <= pc
    &&& ps.len() + pc <= MAX_TOTAL_SHARDS
    &&& enc.len() == ps.len() + pc
    &&& 2 <= len <= u16::MAX
    &&& (forall|i: int|
        0 <= i < ps.len() ==> (#[trigger] ps[i]).len() + 2 <= len && enc[i] == pad_spec(ps[i], len))
    &&& (forall|i: int| 0 <= i < enc.len() ==> (#[trigger] enc[i]).len() == len)
    &&& (pc > 0 ==> enc.skip(ps.len() as int) == rs_parity_of(enc.take(ps.len() as int), pc))
}

/// Encodes batches of payloads into runs of FEC shards. The parity share
/// grows with the larger of the configured target loss and the measured
/// loss, both scaled to 0..=255.
pub struct FrameEncoder {
    target_loss: u8,
}

impl View for FrameEncoder {
    type V = u8;

    closed spec fn view(&self) -> u8 {
        self.target_loss
    }
}

impl FrameEncoder {
    /// An encoder protecting against the given target loss (in 256ths).
    pub fn new(target_loss: u8) -> (r: FrameEncoder)
        ensures
            r@ == target_loss,
    {
        FrameEncoder { target_loss }
    }

    /// Codes one batch: pads every payload to the batch's shard length and
    /// appends parity shards per [`spec_parity_count`] of the effective
    /// loss. The result is the run's shards in index order.
    pub fn encode(&self, measured_loss: u8, payloads: &Vec<Vec<u8>>) -> (r: Vec<Vec<u8>>)
        requires
            1 <= payloads@.len() <= MAX_DATA_SHARDS,
            forall|i: int|
                0 <= i < payloads@.len() ==> #[trigger] payloads@[i]@.len() <= MAX_PAYLOAD,
        ensures
            ({
                let ps = seq_views(payloads@);
                let loss = if measured_loss > self@ {
                    measured_loss as int
                } else {
                    self@ as int
                };
                let pc = spec_parity_count(ps.len() as int, loss);
                let len = max_payload_len(ps) + 2;
                &&& r@.len() == ps.len() + pc
                &&& coded_run(ps, pc, len, seq_views(r@))
            }),
    {
        let ghost ps = seq_views(payloads@);
        let data = payloads.len();
        let loss: usize = if measured_loss > self.target_loss {
            measured_loss as usize
        } else {
            self.target_loss as usize
        };
        assert(data * loss + 255 <= 16 * 255 + 255) by (nonlinear_arith)
            requires
                1 <= data <= 16,
                loss <= 255,
        ;
        let pc = (data * loss + 255) / 256;
        assert(pc <= data) by (nonlinear_arith)
            requires
                pc == (data * loss + 255) / 256,
                1 <= data,
                loss <= 255,
        ;
        let mut maxlen: usize = 0;
        let mut i: usize = 0;
        while i < data
            invariant
                i <= data,
                data == payloads@.len(),
                ps == seq_views(payloads@),
                forall|k: int| 0 <= k < data ==> #[trigger] payloads@[k]@.len() <= MAX_PAYLOAD,
                maxlen == max_payload_len(ps.take(i as int)),
                maxlen <= MAX_PAYLOAD,
            decreases data - i,
        {
            proof {
                assert(ps[i as int] == payloads@[i as int]@);
                assert(ps.take(i as int + 1).drop_last() =~= ps.take(i as int));
                assert(ps.take(i as int + 1).last() == payloads@[i as int]@);
            }
            if payloads[i].len() > maxlen {
                maxlen = payloads[i].len();
            }
            i = i + 1;
        }
        proof {
            assert(ps.take(data as int) =~= ps);
        }
        let shard_len = maxlen + 2;
        let mut shards: Vec<Vec<u8>> = Vec::new();
        let mut i: usize = 0;
        while i < data
            invariant
                i <= data,
                data == payloads@.len(),
                ps == seq_views(payloads@),
                forall|k: int| 0 <= k < data ==> #[trigger] payloads@[k]@.len() <= MAX_PAYLOAD,
                shard_len == max_payload_len(ps) + 2,
                2 <= shard_len <= MAX_PAYLOAD + 2,
                shards@.len() == i,
                forall|k: int|
                    0 <= k < i ==> #[trigger] shards@[k]@ == pad_spec(ps[k], shard_len as int),
                forall|k: int| 0 <= k < i ==> #[trigger] shards@[k]@.len() == shard_len,
            decreases data - i,
        {
            proof {
                lemma_max_payload_bound(ps, i as int);
                assert(ps[i as int] == payloads@[i as int]@);
            }
            let padded = pad(payloads[i].as_slice(), shard_len);
            shards.push(padded);
            i = i + 1;
        }
        if pc > 0 {
            let mut parity = rs_parity(&shards, pc);
            let ghost data_views = seq_views(shards@);
            let ghost parity_views = seq_views(parity@);
            shards.append(&mut parity);
            proof {
                let all = seq_views(shards@);
                assert(all.take(data as int) =~= data_views);
                assert(all.skip(data as int) =~= parity_views);
                assert forall|k: int| 0 <= k < all.len() implies (#[trigger] all[k]).len()
                    == shard_len by {
                    if k < data {
                        assert(all[k] == data_views[k]);
                    } else {
                        assert(all[k] == parity_views[k - data]);
                    }
                }
                assert forall|k: int| 0 <= k < data implies (#[trigger] ps[k]).len() + 2
                    <= shard_len && all[k] == pad_spec(ps[k], shard_len as int) by {
                    lemma_max_payload_bound(ps, k);
                }
                assert(coded_run(ps, pc as int, shard_len as int, all));
            }
        } else {
            proof {
                let all = seq_views(shards@);
                assert forall|k: int| 0 <= k < data implies (#[trigger] ps[k]).len() + 2
                    <= shard_len && all[k] == pad_spec(ps[k], shard_len as int) by {
                    lemma_max_payload_bound(ps, k);
                }
                assert(coded_run(ps, pc as int, shard_len as int, all));
            }
        }
        shards
    }
}

/// Mathematical state of a [`FrameDecoder`].
pub struct FrameDecoderModel {
    /// Systematic shard count of the run.
    pub data_shards: u8,
    /// Parity shard count of the run.
    pub parity_shards: u8,
    /// The shards received so far, by run index.
    pub shards: Seq<Option<Seq<u8>>>,
    /// Whether the run has already been emitted.
    pub done: bool,
}

/// Well-formedness of a decoder: one slot per shard of the run.
pub open spec fn decoder_wf(m: FrameDecoderModel) -> bool {
    m.shards.len() == m.data_shards as int + m.parity_shards as int
}

/// Hypothesis of the recovery law: the decoder's stored shards and the
/// newly arriving shard all come from one coded run of the batch `ps`, the
/// run has not been emitted yet, the arriving shard is new, and with it at
/// least `data_shards` shards are present.
pub open spec fn recovery_hyp(
    m: FrameDecoderModel,
    body: Seq<u8>,
    idx: int,
    ps: Seq<Seq<u8>>,
    len: int,
    enc: Seq<Seq<u8>>,
) -> bool {
    &&& coded_run(ps, m.parity_shards as int, len, enc)
    &&& ps.len() == m.data_shards as int
    &&& opt_matches(m.shards, enc)
    &&& 0 <= idx < enc.len()
    &&& body == enc[idx]
    &&& !m.done
    &&& m.shards[idx] is None
    &&& count_present(m.shards) + 1 >= ps.len()
}

/// Reassembles one FEC run from its shards, in any order.
pub struct FrameDecoder {
    data_shards: u8,
    parity_shards: u8,
    shards: Vec<Option<Vec<u8>>>,
    done: bool,
}

impl View for FrameDecoder {
    type V = FrameDecoderModel;

    closed spec fn view(&self) -> FrameDecoderModel {
        FrameDecoderModel {
            data_shards: self.data_shards,
            parity_shards: self.parity_shards,
            shards: opt_views(self.shards@),
            done: self.done,
        }
    }
}

/// Storing into an empty slot raises the present count by one.
proof fn lemma_count_present_update(s: Seq<Option<Seq<u8>>>, i: int, x: Seq<u8>)
    requires
        0 <= i < s.len(),
        s[i] is None,
    ensures
        count_present(s.update(i, Some(x))) == count_present(s) + 1,
    decreases s.len(),
{
    let u = s.update(i, Some(x));
    if i == s.len() - 1 {
        assert(u.drop_last() =~= s.drop_last());
    } else {
        assert(u.drop_last() =~= s.drop_last().update(i, Some(x)));
        lemma_count_present_update(s.drop_last(), i, x);
    }
}

/// A sequence whose every element is present has full count, and the other
/// way round.
pub proof fn lemma_count_present_full(s: Seq<Option<Seq<u8>>>)
    ensures
        count_present(s) <= s.len(),
        count_present(s) == s.len() <==> (forall|i: int|
            0 <= i < s.len() ==> (#[trigger] s[i]) is Some),
        count_present(s) >= 0,
    decreases s.len(),
{
    if s.len() > 0 {
        lemma_count_present_full(s.drop_last());
        if count_present(s) == s.len() {
            assert forall|i: int| 0 <= i < s.len() implies (#[trigger] s[i]) is Some by {
                if i < s.len() - 1 {
                    assert(s.drop_last()[i] == s[i]);
                }
            }
        }
        if forall|i: int| 0 <= i < s.len() ==> (#[trigger] s[i]) is Some {
            assert(forall|i: int| 0 <= i < s.len() - 1 ==> #[trigger] s.drop_last()[i] == s[i]);
        }
    }
}

/// Everything that follows from the recovery hypothesis once the arriving
/// shard has been stored: the updated store still matches the codeword,
/// enough shards are present, and (with parity) reconstruction applies.
proof fn lemma_hyp_facts(
    pre: FrameDecoderModel,
    body: Seq<u8>,
    idx: int,
    ps: Seq<Seq<u8>>,
    len: int,
    enc: Seq<Seq<u8>>,
)
    requires
        decoder_wf(pre),
        recovery_hyp(pre, body, idx, ps, len, enc),
    ensures
        enc.len() == pre.shards.len(),
        opt_matches(pre.shards.update(idx, Some(body)), enc),
        count_present(pre.shards.update(idx, Some(body))) >= ps.len(),
        2 <= len <= u16::MAX,
        1 <= ps.len(),
        ps.len() + pre.parity_shards as int <= MAX_TOTAL_SHARDS,
        pre.parity_shards > 0 ==> rs_recoverable(
            enc.take(ps.len() as int),
            ps.len() as int,
            pre.parity_shards as int,
            pre.shards.update(idx, Some(body)),
        ),
        pre.parity_shards > 0 ==> full_run(enc.take(ps.len() as int), pre.parity_shards as int)
            == enc,
{
    let upd = pre.shards.update(idx, Some(body));
    lemma_count_present_update(pre.shards, idx, body);
    assert(opt_matches(upd, enc));
    if pre.parity_shards > 0 {
        let d = enc.take(ps.len() as int);
        assert forall|i: int| 0 <= i < d.len() implies (#[trigger] d[i]).len() == d[0].len() by {
            assert(d[i] == enc[i]);
            assert(d[0] == enc[0]);
        }
        assert(d[0].len() == len);
        assert(full_run(d, pre.parity_shards as int) =~= enc);
    }
}

/// Counts the present shards among the first `upto` slots.
fn count_some(shards: &Vec<Option<Vec<u8>>>, upto: usize) -> (r: usize)
    requires
        upto <= shards@.len(),
    ensures
        r == count_present(opt_views(shards@).take(upto as int)),
        r <= upto,
{
    let ghost whole = opt_views(shards@);
    let mut n: usize = 0;
    let mut i: usize = 0;
    while i < upto
        invariant
            i <= upto <= shards@.len(),
            whole == opt_views(shards@),
            n == count_present(whole.take(i as int)),
            n <= i,
        decreases upto - i,
    {
        proof {
            assert(whole.take(i as int + 1).drop_last() =~= whole.take(i as int));
            assert(whole.take(i as int + 1).last() == whole[i as int]);
        }
        if shards[i].is_some() {
            n = n + 1;
        }
        i = i + 1;
    }
    n
}

impl FrameDecoder {
    /// A fresh decoder for a run of `data_shards` + `parity_shards` shards.
    pub fn new(data_shards: u8, parity_shards: u8) -> (r: FrameDecoder)
        ensures
            r@.data_shards == data_shards,
            r@.parity_shards == parity_shards,
            r@.shards =~= Seq::new(
                data_shards as nat + parity_shards as nat,
                |i: int| None::<Seq<u8>>,
            ),
            r@.done == false,
            decoder_wf(r@),
    {
        let total = data_shards as usize + parity_shards as usize;
        let shards: Vec<Option<Vec<u8>>> = vec![None; total];
        FrameDecoder { data_shards, parity_shards, shards, done: false }
    }

    /// How many systematic shards of the run have arrived.
    pub fn good_pkts(&self) -> (r: usize)
        requires
            decoder_wf(self@),
        ensures
            r == count_present(self@.shards.take(self@.data_shards as int)),
    {
        count_some(&self.shards, self.data_shards as usize)
    }

    /// How many systematic shards of the run are still missing.
    pub fn lost_pkts(&self) -> (r: usize)
        requires
            decoder_wf(self@),
        ensures
            r == self@.data_shards as int - count_present(
                self@.shards.take(self@.data_shards as int),
            ),
    {
        proof {
            lemma_count_present_full(self@.shards.take(self@.data_shards as int));
        }
        self.data_shards as usize - count_some(&self.shards, self.data_shards as usize)
    }

    /// Whether the run has already been emitted.
    pub fn is_done(&self) -> (r: bool)
        ensures
            r == self@.done,
    {
        self.done
    }

    /// Feeds the shard at run index `idx`. Emits the run's payloads, in
    /// index order, on the call that first makes the run recoverable: once
    /// at least `data_shards` shards of one coded run are present — in any
    /// order, systematic or parity — the batch is returned whole
    /// ([`recovery_hyp`] states the law's hypothesis exactly). Repeats,
    /// out-of-range indices and anything after emission are ignored.
    #[verifier::loop_isolation(false)]
    pub fn decode(&mut self, body: &[u8], idx: usize) -> (r: Option<Vec<Vec<u8>>>)
        requires
            decoder_wf(old(self)@),
        ensures
            decoder_wf(final(self)@),
            final(self)@.data_shards == old(self)@.data_shards,
            final(self)@.parity_shards == old(self)@.parity_shards,
            (old(self)@.done || idx >= old(self)@.shards.len() || old(self)@.shards[idx as int]
                is Some) ==> final(self)@ == old(self)@ && r is None,
            (!old(self)@.done && idx < old(self)@.shards.len() && old(self)@.shards[idx as int]
                is None) ==> {
                &&& final(self)@.shards == old(self)@.shards.update(idx as int, Some(body@))
                &&& final(self)@.done == (r is Some)
            },
            r is Some ==> !old(self)@.done,
            (!old(self)@.done && idx < old(self)@.shards.len() && old(self)@.shards[idx as int]
                is None && count_present(old(self)@.shards) + 1 < old(self)@.data_shards as int)
                ==> r is None,
            forall|ps: Seq<Seq<u8>>, len: int, enc: Seq<Seq<u8>>|
                #[trigger] recovery_hyp(old(self)@, body@, idx as int, ps, len, enc) ==> (
                r matches Some(out) && seq_views(out@) == ps),
    {
        let ghost pre = self@;
        if self.done {
            return None;
        }
        if idx >= self.shards.len() {
            return None;
        }
        if self.shards[idx].is_some() {
            return None;
        }
        let stored = vstd::slice::slice_to_vec(body);
        *vstd::std_specs::vec::vec_index_mut(&mut self.shards, idx) = Some(stored);
        proof {
            assert(self@.shards =~= pre.shards.update(idx as int, Some(body@)));
            lemma_count_present_update(pre.shards, idx as int, body@);
        }
        let ghost now = self@;
        let data = self.data_shards as usize;
        let total = self.shards.len();
        let present = count_some(&self.shards, total);
        proof {
            assert(now.shards.take(total as int) =~= now.shards);
        }
        if present < data {
            proof {
                assert forall|ps: Seq<Seq<u8>>, len: int, enc: Seq<Seq<u8>>|
                    #[trigger] recovery_hyp(pre, body@, idx as int, ps, len, enc)
                    implies false by {
                    lemma_hyp_facts(pre, body@, idx as int, ps, len, enc);
                }
            }
            return None;
        }
        let good = count_some(&self.shards, data);
        if good == data {
            // all systematic shards are here: unframe them directly
            proof {
                lemma_count_present_full(now.shards.take(data as int));
            }
            let mut out: Vec<Vec<u8>> = Vec::new();
            let mut i: usize = 0;
            while i < data
                invariant
                    i <= data,
                    out@.len() == i,
                    forall|k: int|
                        0 <= k < i ==> ((#[trigger] now.shards[k]) matches Some(s) && unpad_spec(s)
                            == Some(out@[k]@)),
                decreases data - i,
            {
                proof {
                    assert(now.shards.take(data as int)[i as int] == now.shards[i as int]);
                }
                let got = match &self.shards[i] {
                    Some(sh) => unpad(sh.as_slice()),
                    None => None,
                };
                match got {
                    Some(p) => {
                        out.push(p);
                    },
                    None => {
                        proof {
                            assert forall|ps: Seq<Seq<u8>>, len: int, enc: Seq<Seq<u8>>|
                                #[trigger] recovery_hyp(pre, body@, idx as int, ps, len, enc)
                                implies false by {
                                lemma_hyp_facts(pre, body@, idx as int, ps, len, enc);
                                assert(now.shards[i as int] matches Some(s) && s == enc[i as int]);
                                assert(enc[i as int] == pad_spec(ps[i as int], len));
                                lemma_pad_round_trip(ps[i as int], len);
                            }
                        }
                        return None;
                    },
                }
                i = i + 1;
            }
            self.done = true;
            proof {
                assert forall|ps: Seq<Seq<u8>>, len: int, enc: Seq<Seq<u8>>|
                    #[trigger] recovery_hyp(pre, body@, idx as int, ps, len, enc)
                    implies seq_views(out@) == ps by {
                    lemma_hyp_facts(pre, body@, idx as int, ps, len, enc);
                    assert forall|k: int| 0 <= k < data implies seq_views(out@)[k] == ps[k] by {
                        assert(now.shards[k] matches Some(s) && s == enc[k]);
                        assert(enc[k] == pad_spec(ps[k], len));
                        lemma_pad_round_trip(ps[k], len);
                    }
                    assert(seq_views(out@) =~= ps);
                }
            }
            return Some(out);
        }
        // a systematic shard is missing: recover through the parity code
        if data == 0 || self.parity_shards == 0 || total > MAX_TOTAL_SHARDS {
            proof {
                assert forall|ps: Seq<Seq<u8>>, len: int, enc: Seq<Seq<u8>>|
                    #[trigger] recovery_hyp(pre, body@, idx as int, ps, len, enc)
                    implies false by {
                    lemma_hyp_facts(pre, body@, idx as int, ps, len, enc);
                    if pre.parity_shards == 0 {
                        assert(now.shards.take(data as int) =~= now.shards);
                        lemma_count_present_full(now.shards);
                    }
                }
            }
            return None;
        }
        let rec = rs_reconstruct(data, self.parity_shards as usize, &self.shards);
        let full = match rec {
            Some(f) => f,
            None => {
                proof {
                    assert forall|ps: Seq<Seq<u8>>, len: int, enc: Seq<Seq<u8>>|
                        #[trigger] recovery_hyp(pre, body@, idx as int, ps, len, enc)
                        implies false by {
                        lemma_hyp_facts(pre, body@, idx as int, ps, len, enc);
                    }
                }
                return None;
            },
        };
        let ghost full0 = full@;
        let mut out: Vec<Vec<u8>> = Vec::new();
        let mut i: usize = 0;
        while i < data
            invariant
                i <= data,
                out@.len() == i,
                forall|k: int| 0 <= k < i ==> unpad_spec(#[trigger] full@[k]@) == Some(out@[k]@),
                forall|d: Seq<Seq<u8>>|
                    #[trigger] rs_recoverable(d, data as int, now.parity_shards as int, now.shards)
                        ==> seq_views(full@) == full_run(d, now.parity_shards as int),
            decreases data - i,
        {
            let got = unpad(full[i].as_slice());
            match got {
                Some(p) => {
                    out.push(p);
                },
                None => {
                    proof {
                        assert forall|ps: Seq<Seq<u8>>, len: int, enc: Seq<Seq<u8>>|
                            #[trigger] recovery_hyp(pre, body@, idx as int, ps, len, enc)
                            implies false by {
                            lemma_hyp_facts(pre, body@, idx as int, ps, len, enc);
                            assert(seq_views(full@) == enc);
                            assert(seq_views(full@)[i as int] == full@[i as int]@);
                            assert(enc[i as int] == pad_spec(ps[i as int], len));
                            lemma_pad_round_trip(ps[i as int], len);
                        }
                    }
                    return None;
                },
            }
            i = i + 1;
        }
        self.done = true;
        proof {
            assert forall|ps: Seq<Seq<u8>>, len: int, enc: Seq<Seq<u8>>|
                #[trigger] recovery_hyp(pre, body@, idx as int, ps, len, enc) implies seq_views(
                out@,
            ) == ps by {
                lemma_hyp_facts(pre, body@, idx as int, ps, len, enc);
                assert(seq_views(full@) == enc);
                assert forall|k: int| 0 <= k < data implies seq_views(out@)[k] == ps[k] by {
                    assert(seq_views(full@)[k] == full@[k]@);
                    assert(enc[k] == pad_spec(ps[k], len));
                    lemma_pad_round_trip(ps[k], len);
                }
                assert(seq_views(out@) =~= ps);
            }
        }
        Some(out)
    }
}

} // verus!
