//! Data plane of a point-to-point encrypted tunnel.
//!
//! Plaintext packets are authenticated and encrypted for transmission over an
//! untrusted channel, and incoming ciphertext is checked and decrypted, under
//! a strict per-direction sequence-counter discipline. The crate provides
//! the sequenced cipher pair ([`cipher::Sealer`] / [`cipher::Opener`]), their
//! composition into an [`channel::EncryptedChannel`], and the state machine of
//! the bidirectional [`forwarder::Forwarder`] that relays packets between two
//! channels. Device and socket I/O stay outside the crate: callers hand in the
//! bytes that arrived and carry out the writes the library decides on.

pub mod cipher;
pub mod channel;
pub mod forwarder;
