//! The encrypted channel: one `Sealer`/`Opener` pair bound together so that
//! everything sent is sealed and everything received is opened, with an
//! explicit, caller-chosen policy for per-packet receive failures. The caller
//! owns the packet interface and the wire: it hands incoming ciphertext in and
//! carries outgoing ciphertext out, so no plaintext can bypass the ciphers.

use vstd::prelude::*;
use crate::cipher::{
    Key, Sealer, Opener, SealError, OpenError, opens_at, authentic_at, in_probe_window, nonce_of,
    siv_sealed, TAG_LEN,
};

verus! {

/// What the channel does when an incoming packet is rejected: either the
/// rejection is surfaced and the session continues, or the first rejection
/// ends the session. An explicit configuration, not a hidden default.
#[derive(Clone, Copy, PartialEq, Eq, Structural, Debug)]
pub enum FailurePolicy {
    /// Report the rejected packet and keep the session alive.
    SurfaceAndContinue,
    /// Treat the first rejected packet as fatal to the session.
    AbortOnFailure,
}

/// What came of one incoming ciphertext when the session goes on.
#[derive(Debug)]
pub enum Delivery {
    /// The packet authenticated at the expected sequence number: its plaintext.
    Accepted(Vec<u8>),
    /// The packet was rejected; under `SurfaceAndContinue` the session
    /// nevertheless continues, and the expected counter is unchanged.
    Rejected(OpenError),
}

/// A bidirectional packet channel whose wire form is ciphertext: a sealer for
/// the egress direction and an opener for the ingress direction, built from
/// one session key with both counters starting synchronized at zero.
pub struct EncryptedChannel {
    sealer: Sealer,
    opener: Opener,
    policy: FailurePolicy,
}

impl EncryptedChannel {
    /// Both halves are well formed and run under one and the same key.
    pub closed spec fn wf(self) -> bool {
        &&& self.sealer.wf()
        &&& self.opener.wf()
        &&& self.opener.key_bytes() == self.sealer.key_bytes()
    }

    /// The key both directions run under.
    pub closed spec fn key_bytes(self) -> Seq<u8> {
        self.sealer.key_bytes()
    }

    /// The sequence number the next outgoing packet is sealed at.
    pub closed spec fn send_counter(self) -> u64 {
        self.sealer.counter()
    }

    /// The sequence number the next incoming packet is expected at.
    pub closed spec fn recv_counter(self) -> u64 {
        self.opener.counter()
    }

    /// The configured receive-failure policy.
    pub closed spec fn policy(self) -> FailurePolicy {
        self.policy
    }

    /// Bind both directions of a session to one key, counters synchronized at
    /// zero as the two ends of a fresh session require.
    pub fn from_key(key: &Key, policy: FailurePolicy) -> (c: EncryptedChannel)
        requires
            key.wf(),
        ensures
            c.wf(),
            c.key_bytes() == key@,
            c.send_counter() == 0 && c.recv_counter() == 0,
            c.policy() == policy,
    {
        EncryptedChannel { sealer: Sealer::new(key), opener: Opener::new(key), policy }
    }

    /// The sequence number the next outgoing packet is sealed at.
    pub fn current_send_counter(&self) -> (n: u64)
        ensures
            n == self.send_counter(),
    {
        self.sealer.current_counter()
    }

    /// The sequence number the next incoming packet is expected at.
    pub fn current_recv_counter(&self) -> (n: u64)
        ensures
            n == self.recv_counter(),
    {
        self.opener.current_counter()
    }

    /// Seal one outgoing plaintext packet and return its wire form. Fails only
    /// with `CounterExhaustion`, which is fatal to the session; the caller
    /// writes the returned ciphertext to the wire as one packet.
    pub fn send_plaintext(&mut self, plaintext: &Vec<u8>) -> (r: Result<Vec<u8>, SealError>)
        requires
            old(self).wf(),
        ensures
            final(self).wf(),
            final(self).key_bytes() == old(self).key_bytes(),
            final(self).recv_counter() == old(self).recv_counter(),
            final(self).policy() == old(self).policy(),
            old(self).send_counter() < u64::MAX ==> {
                &&& r matches Ok(c) && c@ == siv_sealed(
                    old(self).key_bytes(),
                    nonce_of(old(self).send_counter()),
                    plaintext@,
                ) && c@.len() == plaintext@.len() + TAG_LEN
                &&& final(self).send_counter() == old(self).send_counter() + 1
            },
            old(self).send_counter() == u64::MAX ==> {
                &&& r matches Err(e) && e == SealError::CounterExhaustion
                &&& final(self).send_counter() == old(self).send_counter()
            },
    {
        self.sealer.seal_next(plaintext)
    }

    /// Open one incoming wire packet. The packet sealed at the expected
    /// counter is accepted and the counter advances. A rejected packet leaves
    /// the counter in place and is surfaced according to the configured
    /// policy: as a `Delivery::Rejected` the caller may continue past, or as
    /// an error that ends the session.
    pub fn receive_ciphertext(&mut self, ciphertext: &Vec<u8>) -> (r: Result<Delivery, OpenError>)
        requires
            old(self).wf(),
        ensures
            final(self).wf(),
            final(self).key_bytes() == old(self).key_bytes(),
            final(self).send_counter() == old(self).send_counter(),
            final(self).policy() == old(self).policy(),
            r matches Ok(d) ==> (d matches Delivery::Accepted(p) ==> {
                &&& old(self).recv_counter() < u64::MAX
                &&& opens_at(old(self).key_bytes(), old(self).recv_counter(), ciphertext@, p@)
                &&& final(self).recv_counter() == old(self).recv_counter() + 1
            }),
            forall|p: Seq<u8>|
                (old(self).recv_counter() < u64::MAX && opens_at(
                    old(self).key_bytes(),
                    old(self).recv_counter(),
                    ciphertext@,
                    p,
                )) ==> (r matches Ok(d) && d matches Delivery::Accepted(q) && q@ == p),
            r matches Ok(d) ==> (d matches Delivery::Rejected(e) ==> {
                &&& old(self).policy() == FailurePolicy::SurfaceAndContinue
                &&& final(self).recv_counter() == old(self).recv_counter()
                &&& rejection_reason(old(self).key_bytes(), old(self).recv_counter(), ciphertext@, e)
            }),
            r matches Err(e) ==> {
                &&& old(self).policy() == FailurePolicy::AbortOnFailure
                &&& final(self).recv_counter() == old(self).recv_counter()
                &&& rejection_reason(old(self).key_bytes(), old(self).recv_counter(), ciphertext@, e)
            },
    {
        match self.opener.open_next(ciphertext) {
            Ok(p) => Ok(Delivery::Accepted(p)),
            Err(e) => match self.policy {
                FailurePolicy::SurfaceAndContinue => Ok(Delivery::Rejected(e)),
                FailurePolicy::AbortOnFailure => Err(e),
            },
        }
    }
}

/// Why a packet was rejected: `SequenceMismatch` exactly when it authenticates
/// at a sequence number in the probe window around the expected counter (it
/// arrived out of order), `AuthenticationFailed` when it authenticates nowhere.
pub open spec fn rejection_reason(key: Seq<u8>, expected: u64, c: Seq<u8>, e: OpenError) -> bool {
    &&& !(expected < u64::MAX && authentic_at(key, expected, c))
    &&& (e == OpenError::SequenceMismatch <==> exists|m: u64|
        in_probe_window(expected, m) && authentic_at(key, m, c))
}

} // verus!
