//! The per-shard backhaul policy: sealing outgoing data frames, opening
//! incoming ones, and deciding when a shard must rebind its socket and
//! re-attach with a ClientResume.
//!
//! Each of the [`SHARDS`] backhaul actors owns one UDP socket. To bound the
//! lifetime of any single 4-tuple, a shard rebinds before its first send
//! and then whenever more than [`REBIND_INTERVAL_MS`] have passed since the
//! last rebind while it has something to send; the old socket is kept
//! draining for [`SOCKET_DRAIN_MS`] more.
use vstd::prelude::*;

verus! {

use crate::crypto::{
    aead_open_of,
    pad_decrypt,
    pad_encrypt,
    pad_spec,
    unpad_spec,
    PAD_TARGET,
    SEAL_OVERHEAD,
};
use crate::msg::{
    spec_decode_data_frame,
    spec_encode_data_frame,
    spec_encode_handshake,
    DataFrame,
    HandshakeFrame,
    HandshakeModel,
};

/// How many parallel backhaul shards carry one session.
pub const SHARDS: u8 = 2;

/// A shard rebinds its socket when more than this many milliseconds have
/// passed since its last rebind and it has a frame to send.
pub const REBIND_INTERVAL_MS: u64 = 5000;

/// How long a failed rebind waits before it is retried, in milliseconds.
pub const REBIND_RETRY_MS: u64 = 1000;

/// How long a replaced socket keeps draining late replies, in
/// milliseconds.
pub const SOCKET_DRAIN_MS: u64 = 5000;

/// Mathematical state of a [`ShardState`].
pub struct ShardModel {
    /// Which backhaul shard this is.
    pub shard_id: u8,
    /// Client-to-server session key.
    pub up_key: Seq<u8>,
    /// Server-to-client session key.
    pub dn_key: Seq<u8>,
    /// The first client-to-server cookie key, for ClientResume.
    pub c2s_key: Seq<u8>,
    /// The server's resume token.
    pub resume_token: Seq<u8>,
    /// Time of the last rebind, in milliseconds.
    pub last_resume_ms: u64,
    /// Whether the shard has rebound at least once.
    pub resumed_once: bool,
}

/// Whether the shard must rebind before its next send: it never has, or
/// the rebind interval has elapsed.
pub open spec fn rebind_due(m: ShardModel, now_ms: u64) -> bool {
    !m.resumed_once || now_ms - m.last_resume_ms > REBIND_INTERVAL_MS
}

/// The sealing/rebind policy of one backhaul shard.
#[derive(Clone)]
pub struct ShardState {
    shard_id: u8,
    up_key: [u8; 32],
    dn_key: [u8; 32],
    c2s_key: [u8; 32],
    resume_token: Vec<u8>,
    last_resume_ms: u64,
    resumed_once: bool,
}

impl View for ShardState {
    type V = ShardModel;

    closed spec fn view(&self) -> ShardModel {
        ShardModel {
            shard_id: self.shard_id,
            up_key: self.up_key@,
            dn_key: self.dn_key@,
            c2s_key: self.c2s_key@,
            resume_token: self.resume_token@,
            last_resume_ms: self.last_resume_ms,
            resumed_once: self.resumed_once,
        }
    }
}

/// What a shard does with one outgoing frame: possibly rebind (sending the
/// sealed ClientResume on the fresh socket first), then send the sealed
/// frame.
pub struct UpPlan {
    /// Whether the shard must bind a fresh socket now, keeping the old one
    /// draining for [`SOCKET_DRAIN_MS`].
    pub rebind: bool,
    /// The sealed ClientResume to send on the fresh socket, when
    /// rebinding.
    pub resume_datagram: Option<Vec<u8>>,
    /// The sealed data frame.
    pub datagram: Vec<u8>,
}

impl ShardState {
    /// A shard's policy state right after the handshake: it has never
    /// rebound, so its first send triggers one.
    pub fn new(
        shard_id: u8,
        up_key: [u8; 32],
        dn_key: [u8; 32],
        c2s_key: [u8; 32],
        resume_token: Vec<u8>,
    ) -> (r: ShardState)
        ensures
            r@.shard_id == shard_id,
            r@.up_key == up_key@,
            r@.dn_key == dn_key@,
            r@.c2s_key == c2s_key@,
            r@.resume_token == resume_token@,
            r@.resumed_once == false,
    {
        ShardState {
            shard_id,
            up_key,
            dn_key,
            c2s_key,
            resume_token,
            last_resume_ms: 0,
            resumed_once: false,
        }
    }

    /// Handles one frame bound upstream: decides the rebind per
    /// [`rebind_due`], builds the sealed ClientResume when one is due, and
    /// seals the frame under the upstream key, padded to the usual
    /// constant target.
    pub fn on_outgoing(&mut self, frame: &DataFrame, now_ms: u64) -> (r: UpPlan)
        requires
            frame.body@.len() + 35 <= u16::MAX,
            old(self)@.resume_token.len() + 4 <= u16::MAX,
        ensures
            r.rebind == rebind_due(old(self)@, now_ms),
            !r.rebind ==> final(self)@ == old(self)@ && r.resume_datagram is None,
            r.rebind ==> {
                &&& final(self)@ == (ShardModel {
                    last_resume_ms: now_ms,
                    resumed_once: true,
                    ..old(self)@
                })
                &&& (r.resume_datagram matches Some(d) && aead_open_of(old(self)@.c2s_key, d@)
                    == Some(
                    pad_spec(
                        spec_encode_handshake(
                            HandshakeModel::ClientResume {
                                resume_token: old(self)@.resume_token,
                                shard_id: old(self)@.shard_id,
                            },
                        ),
                        PAD_TARGET as int,
                    ),
                ) && d@.len() == SEAL_OVERHEAD + if old(self)@.resume_token.len() + 6
                    >= PAD_TARGET {
                    old(self)@.resume_token.len() as int + 6
                } else {
                    PAD_TARGET as int
                })
            },
            aead_open_of(old(self)@.up_key, r.datagram@) == Some(
                pad_spec(spec_encode_data_frame(frame@), PAD_TARGET as int),
            ),
            // length leaks nothing below the pad target: every frame whose
            // encoding fits it seals to exactly the same size
            r.datagram@.len() == SEAL_OVERHEAD + if 37 + frame.body@.len() >= PAD_TARGET {
                37 + frame.body@.len() as int
            } else {
                PAD_TARGET as int
            },
    {
        let rebind = !self.resumed_once || now_ms.saturating_sub(self.last_resume_ms)
            > REBIND_INTERVAL_MS;
        let resume_datagram = if rebind {
            self.resumed_once = true;
            self.last_resume_ms = now_ms;
            let resume = HandshakeFrame::ClientResume {
                resume_token: vstd::slice::slice_to_vec(self.resume_token.as_slice()),
                shard_id: self.shard_id,
            };
            proof {
                assert(resume@ == (HandshakeModel::ClientResume {
                    resume_token: old(self)@.resume_token,
                    shard_id: old(self)@.shard_id,
                }));
            }
            let encoded = resume.encode();
            proof {
                vstd::bytes::lemma_auto_spec_u16_to_from_le_bytes();
                assert(encoded@.len() == old(self)@.resume_token.len() + 4);
            }
            Some(pad_encrypt(&self.c2s_key, encoded.as_slice(), PAD_TARGET))
        } else {
            None
        };
        let encoded_frame = frame.encode();
        proof {
            assert(encoded_frame@.len() == 35 + frame.body@.len());
        }
        let datagram = pad_encrypt(&self.up_key, encoded_frame.as_slice(), PAD_TARGET);
        UpPlan { rebind, resume_datagram, datagram }
    }

    /// Opens one datagram received downstream: a frame sealed under the
    /// downstream key; anything else is dropped.
    pub fn on_incoming(&self, buf: &[u8]) -> (r: Option<DataFrame>)
        ensures
            r matches Some(df) ==> {
                &&& aead_open_of(self@.dn_key, buf@) matches Some(p)
                &&& unpad_spec(p) matches Some(m)
                &&& spec_decode_data_frame(m) == Some(df@)
            },
            r is None ==> (buf@.len() < 12 || aead_open_of(self@.dn_key, buf@) is None || (
            aead_open_of(self@.dn_key, buf@) matches Some(p) && (unpad_spec(p) is None || (
            unpad_spec(p) matches Some(m) && spec_decode_data_frame(m) is None)))),
    {
        let plain = pad_decrypt(&self.dn_key, buf);
        match plain {
            Some(p) => DataFrame::decode(p.as_slice()),
            None => None,
        }
    }
}

} // verus!
