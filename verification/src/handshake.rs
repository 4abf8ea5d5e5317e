//! The client's side of the UDP handshake: cookie key derivation, the
//! sealed ClientHello, candidate-key decryption of the server's answer,
//! the public-key check, session key derivation, and the exponential
//! retransmit schedule.
use vstd::prelude::*;

verus! {

use crate::crypto::{
    aead_open_of,
    blake3_hash,
    blake3_keyed,
    blake3_keyed_of,
    blake3_of,
    gen_secret,
    pad_decrypt,
    pad_encrypt,
    pad_spec,
    unpad_spec,
    x25519_mul,
    x25519_of,
    PAD_TARGET,
    SEAL_OVERHEAD,
};
use crate::msg::{
    spec_decode_handshake,
    spec_encode_handshake,
    HandshakeFrame,
    HandshakeModel,
};

/// How many candidate cookie keys each direction rotates through.
pub const COOKIE_CANDIDATES: u8 = 3;

/// Protocol version stamped into the ClientHello.
pub const HANDSHAKE_VERSION: u64 = 1;

/// The X25519 base point, the generator public keys are derived from.
pub const BASEPOINT: [u8; 32] = [
    9, 0, 0, 0, 0, 0, 0, 0, 0, 0, 0, 0, 0, 0, 0, 0, 0, 0, 0, 0, 0, 0, 0, 0, 0, 0, 0, 0, 0, 0, 0,
    0,
];

/// Keyed-hash tag of the client-to-server cookie stream.
pub const C2S_TAG: [u8; 32] = [
    67, 67, 67, 67, 67, 67, 67, 67, 67, 67, 67, 67, 67, 67, 67, 67, 67, 67, 67, 67, 67, 67, 67,
    67, 67, 67, 67, 67, 67, 67, 67, 67,
];

/// Keyed-hash tag of the server-to-client cookie stream.
pub const S2C_TAG: [u8; 32] = [
    83, 83, 83, 83, 83, 83, 83, 83, 83, 83, 83, 83, 83, 83, 83, 83, 83, 83, 83, 83, 83, 83, 83,
    83, 83, 83, 83, 83, 83, 83, 83, 83,
];

/// Keyed-hash tag of the client-to-server session key.
pub const UP_TAG: [u8; 32] = [
    85, 85, 85, 85, 85, 85, 85, 85, 85, 85, 85, 85, 85, 85, 85, 85, 85, 85, 85, 85, 85, 85, 85,
    85, 85, 85, 85, 85, 85, 85, 85, 85,
];

/// Keyed-hash tag of the server-to-client session key.
pub const DN_TAG: [u8; 32] = [
    68, 68, 68, 68, 68, 68, 68, 68, 68, 68, 68, 68, 68, 68, 68, 68, 68, 68, 68, 68, 68, 68, 68,
    68, 68, 68, 68, 68, 68, 68, 68, 68,
];

/// The public key of an X25519 secret.
pub open spec fn pub_key_of(sk: Seq<u8>) -> Seq<u8> {
    x25519_of(sk, BASEPOINT@)
}

/// One cookie key: the tagged keyed hash of the server's public key and
/// the key's index in the stream.
pub open spec fn cookie_key_of(tag: Seq<u8>, server_pk: Seq<u8>, i: u8) -> Seq<u8> {
    blake3_keyed_of(tag, server_pk.push(i))
}

/// The session's shared secret: the hash of the three Diffie-Hellman
/// products of (client long, client ephemeral) with (server long, server
/// ephemeral).
pub open spec fn shared_secret_of(
    long_sk: Seq<u8>,
    eph_sk: Seq<u8>,
    server_long: Seq<u8>,
    server_eph: Seq<u8>,
) -> Seq<u8> {
    blake3_of(
        x25519_of(long_sk, server_long) + x25519_of(eph_sk, server_long) + x25519_of(
            eph_sk,
            server_eph,
        ),
    )
}

/// The upstream (client-to-server) session key.
pub open spec fn up_key_of(shared: Seq<u8>) -> Seq<u8> {
    blake3_keyed_of(UP_TAG@, shared)
}

/// The downstream (server-to-client) session key.
pub open spec fn dn_key_of(shared: Seq<u8>) -> Seq<u8> {
    blake3_keyed_of(DN_TAG@, shared)
}

/// The rotating cookie of one server: derives the candidate handshake keys
/// of both directions from the server's long-term public key alone.
pub struct Cookie {
    server_pk: [u8; 32],
}

impl View for Cookie {
    type V = Seq<u8>;

    closed spec fn view(&self) -> Seq<u8> {
        self.server_pk@
    }
}

/// Derives one cookie key.
fn derive_cookie_key(tag: &[u8; 32], server_pk: &[u8; 32], i: u8) -> (r: [u8; 32])
    ensures
        r@ == cookie_key_of(tag@, server_pk@, i),
{
    let mut data: Vec<u8> = Vec::new();
    data.extend_from_slice(server_pk);
    data.push(i);
    proof {
        assert(data@ =~= server_pk@.push(i));
    }
    blake3_keyed(tag, data.as_slice())
}

impl Cookie {
    /// The cookie of the server with the given long-term public key.
    pub fn new(server_pk: [u8; 32]) -> (r: Cookie)
        ensures
            r@ == server_pk@,
    {
        Cookie { server_pk }
    }

    /// The `i`-th client-to-server cookie key; the client seals with the
    /// first one.
    pub fn c2s_key(&self, i: u8) -> (r: [u8; 32])
        ensures
            r@ == cookie_key_of(C2S_TAG@, self@, i),
    {
        derive_cookie_key(&C2S_TAG, &self.server_pk, i)
    }

    /// The `i`-th server-to-client cookie key; the client tries each
    /// candidate on a received datagram.
    pub fn s2c_key(&self, i: u8) -> (r: [u8; 32])
        ensures
            r@ == cookie_key_of(S2C_TAG@, self@, i),
    {
        derive_cookie_key(&S2C_TAG, &self.server_pk, i)
    }
}

/// Whether two 32-byte keys hold the same bytes.
pub fn bytes32_eq(a: &[u8; 32], b: &[u8; 32]) -> (r: bool)
    ensures
        r <==> a@ == b@,
{
    let mut i: usize = 0;
    while i < 32
        invariant
            i <= 32,
            forall|k: int| 0 <= k < i ==> a@[k] == b@[k],
        decreases 32 - i,
    {
        if a[i] != b[i] {
            return false;
        }
        i = i + 1;
    }
    proof {
        assert(a@ =~= b@);
    }
    true
}

/// The session keys and resume token a completed handshake yields.
pub struct SessionKeys {
    /// Client-to-server data key.
    pub up_key: [u8; 32],
    /// Server-to-client data key.
    pub dn_key: [u8; 32],
    /// The server's token that lets rebound shard sockets re-attach.
    pub resume_token: Vec<u8>,
}

/// What one received datagram did to the handshake.
pub enum HandshakeOutcome {
    /// Not a ServerHello under any candidate key: keep waiting.
    Ignored,
    /// A ServerHello whose long-term key is not the expected server key.
    BadPubkey,
    /// A ServerHello from the right server: the session is keyed.
    Established(SessionKeys),
}

/// The ServerHello a datagram holds under the `i`-th candidate key, if
/// any: the sealed bytes must open, unpad, and decode to that variant.
pub open spec fn hello_under_key(server_pk: Seq<u8>, buf: Seq<u8>, i: u8) -> Option<
    HandshakeModel,
> {
    if buf.len() < 12 {
        None
    } else {
        match aead_open_of(cookie_key_of(S2C_TAG@, server_pk, i), buf) {
            Some(p) => match unpad_spec(p) {
                Some(m) => match spec_decode_handshake(m) {
                    Some(f) => if f is ServerHello {
                        Some(f)
                    } else {
                        None
                    },
                    None => None,
                },
                None => None,
            },
            None => None,
        }
    }
}

/// The first candidate key (lowest index below `upto`) under which the
/// datagram is a ServerHello, with that frame.
pub open spec fn first_server_hello(server_pk: Seq<u8>, buf: Seq<u8>, upto: u8) -> Option<
    HandshakeModel,
>
    decreases upto,
{
    if upto == 0 {
        None
    } else {
        match first_server_hello(server_pk, buf, (upto - 1) as u8) {
            Some(f) => Some(f),
            None => hello_under_key(server_pk, buf, (upto - 1) as u8),
        }
    }
}

/// A client handshake in flight: the expected server key and the client's
/// two fresh secrets.
pub struct ClientHandshake {
    server_pk: [u8; 32],
    long_sk: [u8; 32],
    eph_sk: [u8; 32],
}

/// Mathematical state of a [`ClientHandshake`].
pub struct ClientHandshakeModel {
    /// The server's expected long-term public key.
    pub server_pk: Seq<u8>,
    /// The client's long-term secret.
    pub long_sk: Seq<u8>,
    /// The client's ephemeral secret.
    pub eph_sk: Seq<u8>,
}

impl View for ClientHandshake {
    type V = ClientHandshakeModel;

    closed spec fn view(&self) -> ClientHandshakeModel {
        ClientHandshakeModel {
            server_pk: self.server_pk@,
            long_sk: self.long_sk@,
            eph_sk: self.eph_sk@,
        }
    }
}

impl ClientHandshake {
    /// Starts a handshake towards the server with the given key, drawing
    /// two fresh secrets.
    pub fn start(server_pk: [u8; 32]) -> (r: ClientHandshake)
        ensures
            r@.server_pk == server_pk@,
    {
        ClientHandshake { server_pk, long_sk: gen_secret(), eph_sk: gen_secret() }
    }

    /// A handshake from explicit secrets.
    pub fn with_secrets(server_pk: [u8; 32], long_sk: [u8; 32], eph_sk: [u8; 32]) -> (r:
        ClientHandshake)
        ensures
            r@.server_pk == server_pk@,
            r@.long_sk == long_sk@,
            r@.eph_sk == eph_sk@,
    {
        ClientHandshake { server_pk, long_sk, eph_sk }
    }

    /// The ClientHello announcing the client's two public keys.
    pub fn hello_frame(&self) -> (r: HandshakeFrame)
        ensures
            r@ == (HandshakeModel::ClientHello {
                long_pk: pub_key_of(self@.long_sk),
                eph_pk: pub_key_of(self@.eph_sk),
                version: HANDSHAKE_VERSION,
            }),
    {
        HandshakeFrame::ClientHello {
            long_pk: x25519_mul(&self.long_sk, &BASEPOINT),
            eph_pk: x25519_mul(&self.eph_sk, &BASEPOINT),
            version: HANDSHAKE_VERSION,
        }
    }

    /// The sealed, padded ClientHello datagram: a constant-length
    /// ciphertext under the first client-to-server cookie key.
    pub fn hello_datagram(&self) -> (r: Vec<u8>)
        ensures
            ({
                let hello = HandshakeModel::ClientHello {
                    long_pk: pub_key_of(self@.long_sk),
                    eph_pk: pub_key_of(self@.eph_sk),
                    version: HANDSHAKE_VERSION,
                };
                let key = cookie_key_of(C2S_TAG@, self@.server_pk, 0);
                &&& aead_open_of(key, r@) == Some(
                    pad_spec(spec_encode_handshake(hello), PAD_TARGET as int),
                )
                &&& r@.len() == PAD_TARGET + SEAL_OVERHEAD
            }),
    {
        let cookie = Cookie::new(self.server_pk);
        let key = cookie.c2s_key(0);
        let frame = self.hello_frame();
        let encoded = frame.encode();
        proof {
            vstd::bytes::lemma_auto_spec_u64_to_from_le_bytes();
        }
        assert(encoded@.len() == 73);
        pad_encrypt(&key, encoded.as_slice(), PAD_TARGET)
    }

    /// Handles one datagram received while waiting for the server: tries
    /// every candidate server-to-client cookie key for a ServerHello. A
    /// hello from a key other than the expected server is refused; the
    /// right one yields the derived session keys and the resume token.
    #[verifier::loop_isolation(false)]
    pub fn handle_datagram(&self, buf: &[u8]) -> (r: HandshakeOutcome)
        ensures
            ({
                match first_server_hello(self@.server_pk, buf@, COOKIE_CANDIDATES) {
                    None => r is Ignored,
                    Some(f) => {
                        let long_pk = f->ServerHello_long_pk;
                        if long_pk != self@.server_pk {
                            r is BadPubkey
                        } else {
                            r matches HandshakeOutcome::Established(keys) && {
                                let shared = shared_secret_of(
                                    self@.long_sk,
                                    self@.eph_sk,
                                    long_pk,
                                    f->ServerHello_eph_pk,
                                );
                                &&& keys.up_key@ == up_key_of(shared)
                                &&& keys.dn_key@ == dn_key_of(shared)
                                &&& keys.resume_token@ == f->ServerHello_resume_token
                            }
                        }
                    },
                }
            }),
    {
        if buf.len() < 12 {
            proof {
                lemma_no_hello_short(self@.server_pk, buf@, COOKIE_CANDIDATES);
            }
            return HandshakeOutcome::Ignored;
        }
        let cookie = Cookie::new(self.server_pk);
        let mut i: u8 = 0;
        while i < COOKIE_CANDIDATES
            invariant
                i <= COOKIE_CANDIDATES,
                buf@.len() >= 12,
                first_server_hello(self@.server_pk, buf@, i) is None,
            decreases COOKIE_CANDIDATES - i,
        {
            let ghost huk = hello_under_key(self@.server_pk, buf@, i);
            let key = cookie.s2c_key(i);
            let plain = pad_decrypt(&key, buf);
            match plain {
                Some(p) => {
                    let hello = HandshakeFrame::decode(p.as_slice());
                    match hello {
                        Some(HandshakeFrame::ServerHello { long_pk, eph_pk, resume_token }) => {
                            proof {
                                assert(huk matches Some(f) && f == (HandshakeModel::ServerHello {
                                    long_pk: long_pk@,
                                    eph_pk: eph_pk@,
                                    resume_token: resume_token@,
                                }));
                                lemma_first_hello_step(self@.server_pk, buf@, i);
                                lemma_first_hello_persists(
                                    self@.server_pk,
                                    buf@,
                                    (i + 1) as u8,
                                    COOKIE_CANDIDATES,
                                );
                            }
                            if !bytes32_eq(&long_pk, &self.server_pk) {
                                return HandshakeOutcome::BadPubkey;
                            }
                            let dh_long = x25519_mul(&self.long_sk, &long_pk);
                            let dh_eph_long = x25519_mul(&self.eph_sk, &long_pk);
                            let dh_eph_eph = x25519_mul(&self.eph_sk, &eph_pk);
                            let mut material: Vec<u8> = Vec::new();
                            material.extend_from_slice(&dh_long);
                            material.extend_from_slice(&dh_eph_long);
                            material.extend_from_slice(&dh_eph_eph);
                            proof {
                                assert(material@ =~= x25519_of(self@.long_sk, long_pk@)
                                    + x25519_of(self@.eph_sk, long_pk@) + x25519_of(
                                    self@.eph_sk,
                                    eph_pk@,
                                ));
                            }
                            let shared = blake3_hash(material.as_slice());
                            let up_key = blake3_keyed(&UP_TAG, &shared);
                            let dn_key = blake3_keyed(&DN_TAG, &shared);
                            return HandshakeOutcome::Established(
                                SessionKeys { up_key, dn_key, resume_token },
                            );
                        },
                        _ => {
                            proof {
                                assert(huk is None);
                                lemma_first_hello_step(self@.server_pk, buf@, i);
                            }
                        },
                    }
                },
                None => {
                    proof {
                        assert(huk is None);
                        lemma_first_hello_step(self@.server_pk, buf@, i);
                    }
                },
            }
            i = i + 1;
        }
        HandshakeOutcome::Ignored
    }
}

/// A datagram too short to hold a seal is a ServerHello under no key.
proof fn lemma_no_hello_short(server_pk: Seq<u8>, buf: Seq<u8>, upto: u8)
    requires
        buf.len() < 12,
    ensures
        first_server_hello(server_pk, buf, upto) is None,
    decreases upto,
{
    if upto > 0 {
        lemma_no_hello_short(server_pk, buf, (upto - 1) as u8);
    }
}

/// Unrolls the candidate scan by one key.
proof fn lemma_first_hello_step(server_pk: Seq<u8>, buf: Seq<u8>, i: u8)
    requires
        i < u8::MAX,
        first_server_hello(server_pk, buf, i) is None,
    ensures
        first_server_hello(server_pk, buf, (i + 1) as u8) == hello_under_key(server_pk, buf, i),
{
}

/// Once a candidate matched, scanning more keys changes nothing.
proof fn lemma_first_hello_persists(server_pk: Seq<u8>, buf: Seq<u8>, i: u8, upto: u8)
    requires
        i <= upto,
        first_server_hello(server_pk, buf, i) is Some,
    ensures
        first_server_hello(server_pk, buf, upto) == first_server_hello(server_pk, buf, i),
    decreases upto,
{
    if upto > i {
        lemma_first_hello_persists(server_pk, buf, i, (upto - 1) as u8);
    }
}

/// How many whole seconds the client waits for a reply to its `attempt`-th
/// ClientHello before retransmitting: it doubles every attempt.
pub open spec fn spec_hello_timeout(attempt: u32) -> int
    decreases attempt,
{
    if attempt == 0 {
        1
    } else {
        2 * spec_hello_timeout((attempt - 1) as u32)
    }
}

/// The schedule is exactly a power of two.
proof fn lemma_hello_timeout_pow2(attempt: u32)
    ensures
        spec_hello_timeout(attempt) == vstd::arithmetic::power2::pow2(attempt as nat),
    decreases attempt,
{
    vstd::arithmetic::power2::lemma2_to64();
    if attempt > 0 {
        lemma_hello_timeout_pow2((attempt - 1) as u32);
        vstd::arithmetic::power2::lemma_pow2_unfold(attempt as nat);
    }
}

/// The retransmit timeout of the `attempt`-th ClientHello, in seconds.
pub fn hello_timeout_secs(attempt: u32) -> (r: u64)
    requires
        attempt < 63,
    ensures
        r == spec_hello_timeout(attempt),
        r >= 1,
{
    let mut r: u64 = 1;
    let mut k: u32 = 0;
    while k < attempt
        invariant
            k <= attempt < 63,
            r == spec_hello_timeout(k),
            r >= 1,
        decreases attempt - k,
    {
        proof {
            lemma_hello_timeout_pow2(k);
            vstd::arithmetic::power2::lemma2_to64();
            vstd::arithmetic::power2::lemma2_to64_rest();
            if k < 62 {
                vstd::arithmetic::power2::lemma_pow2_strictly_increases(k as nat, 62);
            }
        }
        r = r * 2;
        k = k + 1;
    }
    r
}

} // verus!
