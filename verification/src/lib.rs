//! Client core of an obfuscated, loss-resilient UDP transport: replay
//! filtering, loss measurement, FEC run reassembly, batched frame encoding,
//! the client handshake, backhaul rebind policy, and the keepalive actor's
//! decisions, all with verified contracts. Socket I/O and task plumbing live
//! outside this crate and drive these state machines with plain values.
pub mod backhaul;
pub mod crypto;
pub mod exits;
pub mod handshake;
pub mod keepalive;
pub mod decoder;
pub mod fec;
pub mod loss;
pub mod msg;
pub mod replay;
pub mod session;

use vstd::prelude::*;

verus! {

/// Errors of the transport core. Every fallible operation of this crate
/// reports one of these; the I/O layer translates them at its boundary.
#[derive(Clone, Copy, PartialEq, Eq, Structural, Debug)]
pub enum NetError {
    /// A channel or peer went away mid-operation.
    ConnectionReset,
    /// An operation exceeded its deadline.
    TimedOut,
    /// The server presented a long-term key other than the expected one.
    BadPubkey,
    /// No exit servers were available to pick from.
    NoExits,
    /// No bridge relays were available for the chosen exit.
    NoBridges,
}

/// Maps any boundary failure (a closed channel, a lost peer) to the uniform
/// connection-reset error surfaced by the multiplex facade.
pub fn to_ioerror<T>(val: T) -> (r: NetError)
    ensures
        r == NetError::ConnectionReset,
{
    let _ = val;
    NetError::ConnectionReset
}

/// The multiplex facade's reply rule: a stream-open reply that arrives is
/// the opened stream; a reply channel that closes without one surfaces as
/// a timeout.
pub fn open_reply<T>(reply: Option<T>) -> (r: Result<T, NetError>)
    ensures
        reply matches Some(t) ==> r == Ok::<T, NetError>(t),
        reply is None ==> r == Err::<T, NetError>(NetError::TimedOut),
{
    match reply {
        Some(t) => Ok(t),
        None => Err(NetError::TimedOut),
    }
}

} // verus!
