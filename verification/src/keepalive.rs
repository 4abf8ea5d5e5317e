//! The session-keeper's decisions: its timeouts, the authentication
//! message, the bridge race, and the verdicts that end one life of the
//! actor. The actor's body — channels, timers, sockets — lives outside
//! this crate and consults these functions.
use vstd::prelude::*;

verus! {

use vstd::bytes::{
    lemma_auto_spec_u16_to_from_le_bytes,
    spec_u16_from_le_bytes,
    spec_u16_to_le_bytes,
    u16_from_le_bytes,
    u16_to_le_bytes,
};

/// The exit servers' fixed UDP port for direct connections.
pub const EXIT_PORT: u16 = 19831;

/// Without bridges, the direct path gets this long before the bridge
/// fallback starts, in seconds.
pub const DIRECT_FALLBACK_SECS: u64 = 5;

/// Overall deadline for forming a session, in seconds.
pub const CONNECT_DEADLINE_SECS: u64 = 10;

/// Deadline for the authentication exchange, in seconds.
pub const AUTH_TIMEOUT_SECS: u64 = 5;

/// The watchdog opens a probe stream this often, in seconds.
pub const WATCHDOG_PERIOD_SECS: u64 = 200;

/// Deadline of the watchdog's probe stream, in seconds.
pub const PROBE_DEADLINE_SECS: u64 = 15;

/// Deadline of each requested stream open, in seconds.
pub const OPEN_TIMEOUT_SECS: u64 = 15;

/// How long a failed actor body waits before its restart, in seconds.
pub const RESTART_DELAY_SECS: u64 = 1;

/// An authentication token as the cache hands it over.
pub struct AuthToken {
    /// The unblinded digest.
    pub unblinded_digest: Vec<u8>,
    /// The unblinded signature.
    pub unblinded_signature: Vec<u8>,
    /// The account level.
    pub level: Vec<u8>,
}

/// Byte layout of the authentication message: the token's three fields in
/// order, each with a little-endian 16-bit length prefix.
pub open spec fn spec_encode_auth(d: Seq<u8>, s: Seq<u8>, l: Seq<u8>) -> Seq<u8> {
    spec_u16_to_le_bytes(d.len() as u16) + d + spec_u16_to_le_bytes(s.len() as u16) + s
        + spec_u16_to_le_bytes(l.len() as u16) + l
}

/// Serializes the authentication message written on the first stream.
pub fn encode_auth(token: &AuthToken) -> (r: Vec<u8>)
    requires
        token.unblinded_digest@.len() <= u16::MAX,
        token.unblinded_signature@.len() <= u16::MAX,
        token.level@.len() <= u16::MAX,
    ensures
        r@ == spec_encode_auth(
            token.unblinded_digest@,
            token.unblinded_signature@,
            token.level@,
        ),
{
    proof {
        lemma_auto_spec_u16_to_from_le_bytes();
    }
    let mut out = u16_to_le_bytes(token.unblinded_digest.len() as u16);
    out.extend_from_slice(token.unblinded_digest.as_slice());
    let mut sig_len = u16_to_le_bytes(token.unblinded_signature.len() as u16);
    out.append(&mut sig_len);
    out.extend_from_slice(token.unblinded_signature.as_slice());
    let mut lvl_len = u16_to_le_bytes(token.level.len() as u16);
    out.append(&mut lvl_len);
    out.extend_from_slice(token.level.as_slice());
    proof {
        assert(out@ =~= spec_encode_auth(
            token.unblinded_digest@,
            token.unblinded_signature@,
            token.level@,
        ));
    }
    out
}

/// What the server's authentication reply holds: one length-prefixed byte.
pub open spec fn spec_parse_auth_reply(buf: Seq<u8>) -> Option<u8> {
    if buf.len() == 3 && spec_u16_from_le_bytes(buf.take(2)) == 1 {
        Some(buf[2])
    } else {
        None
    }
}

/// Parses the server's authentication reply.
pub fn parse_auth_reply(buf: &[u8]) -> (r: Option<u8>)
    ensures
        r == spec_parse_auth_reply(buf@),
{
    proof {
        lemma_auto_spec_u16_to_from_le_bytes();
    }
    if buf.len() != 3 {
        return None;
    }
    let n = u16_from_le_bytes(&buf[0..2]);
    proof {
        assert(buf@.subrange(0, 2) =~= buf@.take(2));
    }
    if n != 1 {
        return None;
    }
    Some(buf[2])
}

/// Picks the session from the bridge race: the earliest bridge attempt
/// that succeeded, in arrival order; when every attempt failed or none was
/// made, the race has run out of bridges.
pub fn first_success(outcomes: &Vec<bool>) -> (r: Result<usize, crate::NetError>)
    ensures
        r matches Ok(i) ==> i < outcomes@.len() && outcomes@[i as int] && (forall|j: int|
            0 <= j < i ==> !outcomes@[j]),
        r matches Err(e) ==> e == crate::NetError::NoBridges && (forall|j: int|
            0 <= j < outcomes@.len() ==> !outcomes@[j]),
        (r is Err) <==> (forall|j: int| 0 <= j < outcomes@.len() ==> !outcomes@[j]),
{
    let mut i: usize = 0;
    while i < outcomes.len()
        invariant
            i <= outcomes@.len(),
            forall|j: int| 0 <= j < i ==> !outcomes@[j],
        decreases outcomes@.len() - i,
    {
        if outcomes[i] {
            return Ok(i);
        }
        i = i + 1;
    }
    Err(crate::NetError::NoBridges)
}

/// One thing that happened to the running keepalive body.
pub enum KeepaliveEvent {
    /// The watchdog's probe stream came back within its deadline, or not.
    WatchdogProbe {
        /// Whether the probe completed before [`PROBE_DEADLINE_SECS`].
        completed: bool,
    },
    /// A requested stream open came back within its deadline, or not.
    OpenRequest {
        /// Whether the open completed before [`OPEN_TIMEOUT_SECS`].
        completed: bool,
    },
    /// An explicit stop signal arrived.
    StopSignal,
}

/// What the supervisor does next.
#[derive(PartialEq, Eq, Structural, Debug, Clone, Copy)]
pub enum KeepaliveVerdict {
    /// The body keeps running.
    Continue,
    /// The body ends; the supervisor rebuilds the whole session after
    /// [`RESTART_DELAY_SECS`].
    Restart,
}

/// Judges one event: a watchdog probe timeout ends the body, a requested
/// open's timeout is treated as a session failure too (deliberately
/// aggressive), and a stop signal always ends it; anything that completed
/// lets the body continue.
pub fn keepalive_step(ev: &KeepaliveEvent) -> (r: KeepaliveVerdict)
    ensures
        r == KeepaliveVerdict::Restart <==> (ev matches KeepaliveEvent::WatchdogProbe {
            completed: false,
        } || ev matches KeepaliveEvent::OpenRequest { completed: false } || ev
            matches KeepaliveEvent::StopSignal),
{
    match ev {
        KeepaliveEvent::WatchdogProbe { completed } => if *completed {
            KeepaliveVerdict::Continue
        } else {
            KeepaliveVerdict::Restart
        },
        KeepaliveEvent::OpenRequest { completed } => if *completed {
            KeepaliveVerdict::Continue
        } else {
            KeepaliveVerdict::Restart
        },
        KeepaliveEvent::StopSignal => KeepaliveVerdict::Restart,
    }
}

} // verus!
