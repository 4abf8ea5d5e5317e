//! Keys, hashing and packet protection.
//!
//! Every datagram on the wire is length-padded and then sealed with an AEAD,
//! so that ciphertext length does not leak plaintext length below the pad
//! target. The padding and its inverse are verified here; the AEAD itself,
//! the hash and the Diffie-Hellman primitive are outside crates behind
//! trusted wrappers.
use vstd::prelude::*;

verus! {

use chacha20poly1305::aead::{Aead, Generate, KeyInit};
use chacha20poly1305::{ChaCha20Poly1305, Nonce};
use rand::Rng;

/// Bytes a seal adds to its plaintext: a 12-byte nonce plus a 16-byte tag.
pub const SEAL_OVERHEAD: usize = 28;

/// Target ciphertext length for handshake and data frames: plaintexts are
/// padded so that any message of at most `PAD_TARGET - 2` bytes seals to the
/// same length.
pub const PAD_TARGET: usize = 1000;

/// What `blake3::hash` returns on the given bytes.
pub uninterp spec fn blake3_of(data: Seq<u8>) -> Seq<u8>;

/// What `blake3::keyed_hash` returns for the given key and bytes.
pub uninterp spec fn blake3_keyed_of(key: Seq<u8>, data: Seq<u8>) -> Seq<u8>;

/// What `x25519_dalek::x25519` returns: the scalar product of the clamped
/// scalar and the Montgomery point.
pub uninterp spec fn x25519_of(scalar: Seq<u8>, point: Seq<u8>) -> Seq<u8>;

/// What [`aead_open`] returns for the given key and sealed bytes: the unique
/// plaintext the ciphertext authenticates to, if any.
pub uninterp spec fn aead_open_of(key: Seq<u8>, sealed: Seq<u8>) -> Option<Seq<u8>>;

/// Relies on `blake3::hash`: a 32-byte digest that depends on the input bytes
/// alone.
#[verifier::external_body]
pub fn blake3_hash(data: &[u8]) -> (r: [u8; 32])
    ensures
        r@ == blake3_of(data@),
{
    *blake3::hash(data).as_bytes()
}

/// Relies on `blake3::keyed_hash`: a 32-byte digest that depends on the key
/// and input bytes alone.
#[verifier::external_body]
pub fn blake3_keyed(key: &[u8; 32], data: &[u8]) -> (r: [u8; 32])
    ensures
        r@ == blake3_keyed_of(key@, data@),
{
    *blake3::keyed_hash(key, data).as_bytes()
}

/// Relies on `x25519_dalek::x25519`: the RFC 7748 scalar multiplication, a
/// function of its two arguments alone.
#[verifier::external_body]
pub fn x25519_mul(scalar: &[u8; 32], point: &[u8; 32]) -> (r: [u8; 32])
    ensures
        r@ == x25519_of(scalar@, point@),
{
    x25519_dalek::x25519(*scalar, *point)
}

/// Relies on `rand::Rng::fill` on the thread rng: 32 fresh random bytes.
/// Nothing is promised of the value.
#[verifier::external_body]
pub fn gen_secret() -> (r: [u8; 32]) {
    let mut bytes = [0u8; 32];
    rand::thread_rng().fill(&mut bytes);
    bytes
}

/// Relies on `chacha20poly1305::ChaCha20Poly1305`: seals the plaintext under
/// a fresh random nonce, prepending the nonce. The nonce is random, so only
/// length and decryptability are promised of the result.
#[verifier::external_body]
pub fn aead_seal(key: &[u8; 32], plaintext: &[u8]) -> (r: Vec<u8>)
    ensures
        r@.len() == plaintext@.len() + SEAL_OVERHEAD,
        aead_open_of(key@, r@) == Some(plaintext@),
{
    let cipher = ChaCha20Poly1305::new(key.into());
    let nonce = Nonce::generate();
    let mut out: Vec<u8> = nonce.as_slice().to_vec();
    let ct = cipher.encrypt(&nonce, plaintext).expect("aead seal");
    out.extend_from_slice(&ct);
    out
}

/// Relies on `chacha20poly1305::ChaCha20Poly1305`: opens a sealed message
/// (nonce prefix, then ciphertext and tag); deterministic in key and bytes.
/// Opening anything [`aead_seal`] produced under the same key returns its
/// plaintext.
#[verifier::external_body]
pub fn aead_open(key: &[u8; 32], sealed: &[u8]) -> (r: Option<Vec<u8>>)
    requires
        sealed@.len() >= 12,
    ensures
        r matches Some(p) ==> aead_open_of(key@, sealed@) == Some(p@),
        r is None ==> aead_open_of(key@, sealed@) is None,
{
    let cipher = ChaCha20Poly1305::new(key.into());
    let nonce = Nonce::try_from(&sealed[..12]).ok()?;
    cipher.decrypt(&nonce, &sealed[12..]).ok()
}

/// The padded form of a message: a little-endian 16-bit length, the message,
/// then zeros up to the target (or nothing, past the target).
pub open spec fn pad_spec(msg: Seq<u8>, target: int) -> Seq<u8> {
    let framed = vstd::bytes::spec_u16_to_le_bytes(msg.len() as u16) + msg;
    if framed.len() < target {
        framed + Seq::new((target - framed.len()) as nat, |i: int| 0u8)
    } else {
        framed
    }
}

/// What unpadding yields: the length-prefixed message, if the buffer is long
/// enough to hold it.
pub open spec fn unpad_spec(buf: Seq<u8>) -> Option<Seq<u8>> {
    if buf.len() < 2 {
        None
    } else {
        let n = vstd::bytes::spec_u16_from_le_bytes(buf.take(2)) as int;
        if buf.len() < 2 + n {
            None
        } else {
            Some(buf.subrange(2, 2 + n))
        }
    }
}

/// Pads a message out to the target length (or to its natural framed length,
/// if that is larger), prefixing the message's own length.
pub fn pad(msg: &[u8], target: usize) -> (r: Vec<u8>)
    requires
        msg@.len() <= u16::MAX,
        target <= usize::MAX - 2,
    ensures
        r@ == pad_spec(msg@, target as int),
        r@.len() == if msg@.len() + 2 >= target {
            msg@.len() as int + 2
        } else {
            target as int
        },
{
    let mut out = vstd::bytes::u16_to_le_bytes(msg.len() as u16);
    proof {
        vstd::bytes::lemma_auto_spec_u16_to_from_le_bytes();
    }
    out.extend_from_slice(msg);
    while out.len() < target
        invariant
            msg@.len() + 2 <= out@.len(),
            out@.len() <= vstd::math::max(msg@.len() as int + 2, target as int),
            out@ == (vstd::bytes::spec_u16_to_le_bytes(msg@.len() as u16) + msg@) + Seq::new(
                (out@.len() - msg@.len() - 2) as nat,
                |i: int| 0u8,
            ),
        decreases target as int - out@.len(),
    {
        out.push(0u8);
        proof {
            assert(out@ =~= (vstd::bytes::spec_u16_to_le_bytes(msg@.len() as u16) + msg@)
                + Seq::new((out@.len() - msg@.len() - 2) as nat, |i: int| 0u8));
        }
    }
    proof {
        assert(out@ =~= pad_spec(msg@, target as int));
    }
    out
}

/// Recovers the message from a padded buffer, if its length prefix fits.
pub fn unpad(buf: &[u8]) -> (r: Option<Vec<u8>>)
    ensures
        r matches Some(m) ==> unpad_spec(buf@) == Some(m@),
        r is None ==> unpad_spec(buf@) is None,
{
    if buf.len() < 2 {
        return None;
    }
    let n16 = vstd::bytes::u16_from_le_bytes(&buf[0..2]);
    proof {
        vstd::bytes::lemma_auto_spec_u16_to_from_le_bytes();
        assert(buf@.subrange(0, 2) =~= buf@.take(2));
    }
    let n = n16 as usize;
    if n > buf.len() - 2 {
        return None;
    }
    let body = vstd::slice::slice_to_vec(&buf[2..2 + n]);
    Some(body)
}

/// Padding round trip: unpadding a padded message gives the message back,
/// for any message short enough to carry a 16-bit length prefix.
pub proof fn lemma_pad_round_trip(msg: Seq<u8>, target: int)
    requires
        msg.len() <= u16::MAX,
    ensures
        unpad_spec(pad_spec(msg, target)) == Some(msg),
{
    vstd::bytes::lemma_auto_spec_u16_to_from_le_bytes();
    let p = pad_spec(msg, target);
    assert(p.take(2) =~= vstd::bytes::spec_u16_to_le_bytes(msg.len() as u16));
    assert(p.subrange(2, 2 + msg.len() as int) =~= msg);
}

/// Pad-then-seal: the sealed form of a message under a key, at a pad target.
pub fn pad_encrypt(key: &[u8; 32], msg: &[u8], target: usize) -> (r: Vec<u8>)
    requires
        msg@.len() <= u16::MAX,
        target <= usize::MAX - 2,
    ensures
        aead_open_of(key@, r@) == Some(pad_spec(msg@, target as int)),
        r@.len() == SEAL_OVERHEAD + if msg@.len() + 2 >= target {
            msg@.len() as int + 2
        } else {
            target as int
        },
{
    let padded = pad(msg, target);
    aead_seal(key, padded.as_slice())
}

/// Open-then-unpad: the message sealed by [`pad_encrypt`], if the key opens
/// the bytes and the padding is well formed.
pub fn pad_decrypt(key: &[u8; 32], sealed: &[u8]) -> (r: Option<Vec<u8>>)
    ensures
        r matches Some(m) ==> {
            &&& aead_open_of(key@, sealed@) matches Some(p)
            &&& unpad_spec(p) == Some(m@)
        },
        r is None ==> (sealed@.len() < 12 || aead_open_of(key@, sealed@) is None || (
        aead_open_of(key@, sealed@) matches Some(p) && unpad_spec(p) is None)),
{
    if sealed.len() < 12 {
        return None;
    }
    let plain = aead_open(key, sealed)?;
    unpad(plain.as_slice())
}

/// Pad length is constant: any two messages that both fit under the pad
/// target seal to ciphertexts of exactly the same length, `target` plus the
/// seal overhead.
pub proof fn lemma_pad_length_constant(a: Seq<u8>, b: Seq<u8>, target: int)
    requires
        a.len() + 2 <= target,
        b.len() + 2 <= target,
    ensures
        pad_spec(a, target).len() == pad_spec(b, target).len(),
        pad_spec(a, target).len() == target,
{
    vstd::bytes::lemma_auto_spec_u16_to_from_le_bytes();
}

} // verus!
