//! Wire messages of the session: handshake frames and data frames, with
//! their byte encoding and verified round trips. Frames travel inside
//! pad-sealed datagrams (see [`crate::crypto`]); this module only fixes the
//! plaintext layout.
use vstd::prelude::*;

verus! {

use vstd::bytes::{
    lemma_auto_spec_u16_to_from_le_bytes,
    lemma_auto_spec_u64_to_from_le_bytes,
    spec_u16_from_le_bytes,
    spec_u16_to_le_bytes,
    spec_u64_from_le_bytes,
    spec_u64_to_le_bytes,
    u16_from_le_bytes,
    u16_to_le_bytes,
    u64_from_le_bytes,
    u64_to_le_bytes,
};

/// Length of a data frame's fixed header: five 8-byte counters and three
/// single-byte fields.
pub const DATA_FRAME_HEADER: usize = 35;

/// The in-session unit: one FEC shard plus reverse-path telemetry.
pub struct DataFrame {
    /// Monotonic per-session send counter.
    pub frame_no: u64,
    /// FEC batch id; increments once per batch.
    pub run_no: u64,
    /// Position inside the batch; below `data_shards` means systematic.
    pub run_idx: u8,
    /// Number of systematic shards in this frame's run.
    pub data_shards: u8,
    /// Number of parity shards in this frame's run.
    pub parity_shards: u8,
    /// Largest frame number the sender has observed on the reverse path.
    pub high_recv_frame_no: u64,
    /// Count of frames the sender has received on the reverse path.
    pub total_recv_frames: u64,
    /// The shard's bytes.
    pub body: Vec<u8>,
}

/// Mathematical image of a [`DataFrame`].
pub struct DataFrameModel {
    /// Monotonic per-session send counter.
    pub frame_no: u64,
    /// FEC batch id.
    pub run_no: u64,
    /// Position inside the batch.
    pub run_idx: u8,
    /// Number of systematic shards in the run.
    pub data_shards: u8,
    /// Number of parity shards in the run.
    pub parity_shards: u8,
    /// Largest reverse-path frame number seen by the sender.
    pub high_recv_frame_no: u64,
    /// Reverse-path frame count seen by the sender.
    pub total_recv_frames: u64,
    /// The shard's bytes.
    pub body: Seq<u8>,
}

impl View for DataFrame {
    type V = DataFrameModel;

    open spec fn view(&self) -> DataFrameModel {
        DataFrameModel {
            frame_no: self.frame_no,
            run_no: self.run_no,
            run_idx: self.run_idx,
            data_shards: self.data_shards,
            parity_shards: self.parity_shards,
            high_recv_frame_no: self.high_recv_frame_no,
            total_recv_frames: self.total_recv_frames,
            body: self.body@,
        }
    }
}

/// Byte layout of a data frame: the five counters little-endian, the three
/// byte fields in between, then the body.
pub open spec fn spec_encode_data_frame(df: DataFrameModel) -> Seq<u8> {
    spec_u64_to_le_bytes(df.frame_no) + spec_u64_to_le_bytes(df.run_no) + seq![
        df.run_idx,
        df.data_shards,
        df.parity_shards,
    ] + spec_u64_to_le_bytes(df.high_recv_frame_no) + spec_u64_to_le_bytes(df.total_recv_frames)
        + df.body
}

/// Parse of a data frame: defined on any buffer long enough to hold the
/// fixed header; the rest of the buffer is the body.
pub open spec fn spec_decode_data_frame(buf: Seq<u8>) -> Option<DataFrameModel> {
    if buf.len() < DATA_FRAME_HEADER {
        None
    } else {
        Some(
            DataFrameModel {
                frame_no: spec_u64_from_le_bytes(buf.subrange(0, 8)),
                run_no: spec_u64_from_le_bytes(buf.subrange(8, 16)),
                run_idx: buf[16],
                data_shards: buf[17],
                parity_shards: buf[18],
                high_recv_frame_no: spec_u64_from_le_bytes(buf.subrange(19, 27)),
                total_recv_frames: spec_u64_from_le_bytes(buf.subrange(27, 35)),
                body: buf.skip(35),
            },
        )
    }
}

/// Data-frame codec round trip: decoding an encoding yields the frame.
pub proof fn lemma_data_frame_round_trip(df: DataFrameModel)
    ensures
        spec_decode_data_frame(spec_encode_data_frame(df)) == Some(df),
{
    lemma_auto_spec_u64_to_from_le_bytes();
    let e = spec_encode_data_frame(df);
    assert(e.subrange(0, 8) =~= spec_u64_to_le_bytes(df.frame_no));
    assert(e.subrange(8, 16) =~= spec_u64_to_le_bytes(df.run_no));
    assert(e.subrange(19, 27) =~= spec_u64_to_le_bytes(df.high_recv_frame_no));
    assert(e.subrange(27, 35) =~= spec_u64_to_le_bytes(df.total_recv_frames));
    assert(e.skip(35) =~= df.body);
    assert(spec_decode_data_frame(e) == Some(df));
}

impl DataFrame {
    /// Serializes the frame per [`spec_encode_data_frame`].
    pub fn encode(&self) -> (r: Vec<u8>)
        ensures
            r@ == spec_encode_data_frame(self@),
            r@.len() == DATA_FRAME_HEADER + self.body@.len(),
    {
        proof {
            lemma_auto_spec_u64_to_from_le_bytes();
        }
        let mut out = u64_to_le_bytes(self.frame_no);
        let mut run_no_b = u64_to_le_bytes(self.run_no);
        out.append(&mut run_no_b);
        out.push(self.run_idx);
        out.push(self.data_shards);
        out.push(self.parity_shards);
        let mut high_b = u64_to_le_bytes(self.high_recv_frame_no);
        out.append(&mut high_b);
        let mut total_b = u64_to_le_bytes(self.total_recv_frames);
        out.append(&mut total_b);
        out.extend_from_slice(self.body.as_slice());
        proof {
            assert(out@ =~= spec_encode_data_frame(self@));
        }
        out
    }

    /// Parses a frame per [`spec_decode_data_frame`]: succeeds exactly on
    /// buffers that hold the full header.
    pub fn decode(buf: &[u8]) -> (r: Option<DataFrame>)
        ensures
            r matches Some(df) ==> spec_decode_data_frame(buf@) == Some(df@),
            r is None ==> spec_decode_data_frame(buf@) is None,
    {
        if buf.len() < DATA_FRAME_HEADER {
            return None;
        }
        proof {
            lemma_auto_spec_u64_to_from_le_bytes();
        }
        let frame_no = u64_from_le_bytes(&buf[0..8]);
        let run_no = u64_from_le_bytes(&buf[8..16]);
        let run_idx = buf[16];
        let data_shards = buf[17];
        let parity_shards = buf[18];
        let high_recv_frame_no = u64_from_le_bytes(&buf[19..27]);
        let total_recv_frames = u64_from_le_bytes(&buf[27..35]);
        let body = vstd::slice::slice_to_vec(&buf[35..buf.len()]);
        proof {
            assert(body@ =~= buf@.skip(35));
        }
        Some(
            DataFrame {
                frame_no,
                run_no,
                run_idx,
                data_shards,
                parity_shards,
                high_recv_frame_no,
                total_recv_frames,
                body,
            },
        )
    }
}

/// A handshake message, sealed under the rotating cookie keys rather than
/// the session keys.
pub enum HandshakeFrame {
    /// Client's opening: its long-term and ephemeral public keys.
    ClientHello {
        /// Client long-term public key.
        long_pk: [u8; 32],
        /// Client ephemeral public key.
        eph_pk: [u8; 32],
        /// Protocol version; currently 1.
        version: u64,
    },
    /// Server's answer: its keys and a token that lets shards re-attach.
    ServerHello {
        /// Server long-term public key; must match the expected one.
        long_pk: [u8; 32],
        /// Server ephemeral public key.
        eph_pk: [u8; 32],
        /// Opaque token for [`HandshakeFrame::ClientResume`].
        resume_token: Vec<u8>,
    },
    /// Re-attaches a rebound shard socket to the session.
    ClientResume {
        /// The token from the server's hello.
        resume_token: Vec<u8>,
        /// Which backhaul shard is rebinding.
        shard_id: u8,
    },
}

/// Mathematical image of a [`HandshakeFrame`].
pub enum HandshakeModel {
    /// Client's opening.
    ClientHello {
        /// Client long-term public key.
        long_pk: Seq<u8>,
        /// Client ephemeral public key.
        eph_pk: Seq<u8>,
        /// Protocol version.
        version: u64,
    },
    /// Server's answer.
    ServerHello {
        /// Server long-term public key.
        long_pk: Seq<u8>,
        /// Server ephemeral public key.
        eph_pk: Seq<u8>,
        /// Opaque resume token.
        resume_token: Seq<u8>,
    },
    /// Shard re-attachment.
    ClientResume {
        /// Opaque resume token.
        resume_token: Seq<u8>,
        /// Which backhaul shard is rebinding.
        shard_id: u8,
    },
}

impl View for HandshakeFrame {
    type V = HandshakeModel;

    open spec fn view(&self) -> HandshakeModel {
        match *self {
            HandshakeFrame::ClientHello { long_pk, eph_pk, version } => HandshakeModel::ClientHello {
                long_pk: long_pk@,
                eph_pk: eph_pk@,
                version,
            },
            HandshakeFrame::ServerHello { long_pk, eph_pk, ref resume_token } => HandshakeModel::ServerHello {
                long_pk: long_pk@,
                eph_pk: eph_pk@,
                resume_token: resume_token@,
            },
            HandshakeFrame::ClientResume { ref resume_token, shard_id } => HandshakeModel::ClientResume {
                resume_token: resume_token@,
                shard_id,
            },
        }
    }
}

/// A handshake frame is encodable when any variable-length token fits a
/// 16-bit length prefix; key fields are fixed 32-byte strings.
pub open spec fn handshake_encodable(m: HandshakeModel) -> bool {
    match m {
        HandshakeModel::ClientHello { long_pk, eph_pk, .. } => long_pk.len() == 32 && eph_pk.len()
            == 32,
        HandshakeModel::ServerHello { long_pk, eph_pk, resume_token } => long_pk.len() == 32
            && eph_pk.len() == 32 && resume_token.len() <= u16::MAX,
        HandshakeModel::ClientResume { resume_token, .. } => resume_token.len() <= u16::MAX,
    }
}

/// Byte layout of a handshake frame: a tag byte, then the variant's fields;
/// variable-length tokens carry a little-endian 16-bit length prefix.
pub open spec fn spec_encode_handshake(m: HandshakeModel) -> Seq<u8> {
    match m {
        HandshakeModel::ClientHello { long_pk, eph_pk, version } => seq![0u8] + long_pk + eph_pk
            + spec_u64_to_le_bytes(version),
        HandshakeModel::ServerHello { long_pk, eph_pk, resume_token } => seq![1u8] + long_pk
            + eph_pk + spec_u16_to_le_bytes(resume_token.len() as u16) + resume_token,
        HandshakeModel::ClientResume { resume_token, shard_id } => seq![2u8] + spec_u16_to_le_bytes(
            resume_token.len() as u16,
        ) + resume_token + seq![shard_id],
    }
}

/// Parse of a handshake frame: the exact inverse of
/// [`spec_encode_handshake`] on well-formed buffers, `None` elsewhere.
pub open spec fn spec_decode_handshake(buf: Seq<u8>) -> Option<HandshakeModel> {
    if buf.len() < 1 {
        None
    } else if buf[0] == 0u8 {
        if buf.len() == 73 {
            Some(
                HandshakeModel::ClientHello {
                    long_pk: buf.subrange(1, 33),
                    eph_pk: buf.subrange(33, 65),
                    version: spec_u64_from_le_bytes(buf.subrange(65, 73)),
                },
            )
        } else {
            None
        }
    } else if buf[0] == 1u8 {
        if buf.len() < 67 {
            None
        } else {
            let n = spec_u16_from_le_bytes(buf.subrange(65, 67)) as int;
            if buf.len() == 67 + n {
                Some(
                    HandshakeModel::ServerHello {
                        long_pk: buf.subrange(1, 33),
                        eph_pk: buf.subrange(33, 65),
                        resume_token: buf.subrange(67, 67 + n),
                    },
                )
            } else {
                None
            }
        }
    } else if buf[0] == 2u8 {
        if buf.len() < 3 {
            None
        } else {
            let n = spec_u16_from_le_bytes(buf.subrange(1, 3)) as int;
            if buf.len() == 3 + n + 1 {
                Some(
                    HandshakeModel::ClientResume {
                        resume_token: buf.subrange(3, 3 + n),
                        shard_id: buf[3 + n],
                    },
                )
            } else {
                None
            }
        }
    } else {
        None
    }
}

/// Handshake codec round trip: decoding an encoding yields the frame, for
/// every encodable frame.
pub proof fn lemma_handshake_round_trip(m: HandshakeModel)
    requires
        handshake_encodable(m),
    ensures
        spec_decode_handshake(spec_encode_handshake(m)) == Some(m),
{
    lemma_auto_spec_u16_to_from_le_bytes();
    lemma_auto_spec_u64_to_from_le_bytes();
    let e = spec_encode_handshake(m);
    match m {
        HandshakeModel::ClientHello { long_pk, eph_pk, version } => {
            assert(e.subrange(1, 33) =~= long_pk);
            assert(e.subrange(33, 65) =~= eph_pk);
            assert(e.subrange(65, 73) =~= spec_u64_to_le_bytes(version));
        },
        HandshakeModel::ServerHello { long_pk, eph_pk, resume_token } => {
            let n = resume_token.len() as int;
            assert(e.subrange(1, 33) =~= long_pk);
            assert(e.subrange(33, 65) =~= eph_pk);
            assert(e.subrange(65, 67) =~= spec_u16_to_le_bytes(resume_token.len() as u16));
            assert(e.subrange(67, 67 + n) =~= resume_token);
        },
        HandshakeModel::ClientResume { resume_token, shard_id } => {
            let n = resume_token.len() as int;
            assert(e.subrange(1, 3) =~= spec_u16_to_le_bytes(resume_token.len() as u16));
            assert(e.subrange(3, 3 + n) =~= resume_token);
            assert(e[3 + n] == shard_id);
        },
    }
}

impl HandshakeFrame {
    /// Serializes the frame per [`spec_encode_handshake`].
    pub fn encode(&self) -> (r: Vec<u8>)
        requires
            handshake_encodable(self@),
        ensures
            r@ == spec_encode_handshake(self@),
    {
        proof {
            lemma_auto_spec_u16_to_from_le_bytes();
            lemma_auto_spec_u64_to_from_le_bytes();
        }
        match self {
            HandshakeFrame::ClientHello { long_pk, eph_pk, version } => {
                let mut out: Vec<u8> = Vec::new();
                out.push(0u8);
                out.extend_from_slice(long_pk);
                out.extend_from_slice(eph_pk);
                let mut ver = u64_to_le_bytes(*version);
                out.append(&mut ver);
                proof {
                    assert(out@ =~= spec_encode_handshake(self@));
                }
                out
            },
            HandshakeFrame::ServerHello { long_pk, eph_pk, resume_token } => {
                let mut out: Vec<u8> = Vec::new();
                out.push(1u8);
                out.extend_from_slice(long_pk);
                out.extend_from_slice(eph_pk);
                let mut len_b = u16_to_le_bytes(resume_token.len() as u16);
                out.append(&mut len_b);
                out.extend_from_slice(resume_token.as_slice());
                proof {
                    assert(out@ =~= spec_encode_handshake(self@));
                }
                out
            },
            HandshakeFrame::ClientResume { resume_token, shard_id } => {
                let mut out: Vec<u8> = Vec::new();
                out.push(2u8);
                let mut len_b = u16_to_le_bytes(resume_token.len() as u16);
                out.append(&mut len_b);
                out.extend_from_slice(resume_token.as_slice());
                out.push(*shard_id);
                proof {
                    assert(out@ =~= spec_encode_handshake(self@));
                }
                out
            },
        }
    }

    /// Parses a handshake frame per [`spec_decode_handshake`].
    pub fn decode(buf: &[u8]) -> (r: Option<HandshakeFrame>)
        ensures
            r matches Some(f) ==> spec_decode_handshake(buf@) == Some(f@),
            r is None ==> spec_decode_handshake(buf@) is None,
    {
        proof {
            lemma_auto_spec_u16_to_from_le_bytes();
            lemma_auto_spec_u64_to_from_le_bytes();
        }
        if buf.len() < 1 {
            return None;
        }
        let tag = buf[0];
        if tag == 0u8 {
            if buf.len() != 73 {
                return None;
            }
            let long_pk = read_key(buf, 1);
            let eph_pk = read_key(buf, 33);
            let version = u64_from_le_bytes(&buf[65..73]);
            Some(HandshakeFrame::ClientHello { long_pk, eph_pk, version })
        } else if tag == 1u8 {
            if buf.len() < 67 {
                return None;
            }
            let n = u16_from_le_bytes(&buf[65..67]) as usize;
            if buf.len() != 67 + n {
                return None;
            }
            let long_pk = read_key(buf, 1);
            let eph_pk = read_key(buf, 33);
            let resume_token = vstd::slice::slice_to_vec(&buf[67..67 + n]);
            Some(HandshakeFrame::ServerHello { long_pk, eph_pk, resume_token })
        } else if tag == 2u8 {
            if buf.len() < 3 {
                return None;
            }
            let n = u16_from_le_bytes(&buf[1..3]) as usize;
            if buf.len() != 3 + n + 1 {
                return None;
            }
            let resume_token = vstd::slice::slice_to_vec(&buf[3..3 + n]);
            let shard_id = buf[3 + n];
            Some(HandshakeFrame::ClientResume { resume_token, shard_id })
        } else {
            None
        }
    }
}

/// Copies 32 bytes out of a buffer into a key array.
fn read_key(buf: &[u8], start: usize) -> (r: [u8; 32])
    requires
        start + 32 <= buf@.len(),
        start + 32 <= usize::MAX,
    ensures
        r@ == buf@.subrange(start as int, start as int + 32),
{
    let mut out = [0u8; 32];
    let mut i: usize = 0;
    while i < 32
        invariant
            i <= 32,
            start + 32 <= buf@.len(),
            start + 32 <= usize::MAX,
            forall|j: int| 0 <= j < i ==> out@[j] == buf@[start + j],
        decreases 32 - i,
    {
        out[i] = buf[start + i];
        i = i + 1;
    }
    proof {
        assert(out@ =~= buf@.subrange(start as int, start as int + 32));
    }
    out
}

} // verus!
