//! The sequenced authenticated cipher: a `Sealer` for outgoing packets and an
//! `Opener` for incoming ones, each built from one `Key` and owning a
//! monotonic sequence counter from which every packet nonce is derived.

use vstd::prelude::*;
use aes_siv::aead::{Aead, KeyInit};

verus! {

/// Length in bytes of a session key (two 128-bit halves for AES-SIV).
pub const KEY_LEN: usize = 32;

/// Bytes the authentication tag adds to a sealed packet.
pub const TAG_LEN: usize = 16;

/// How far to either side of its expected counter an opener probes to tell a
/// skipped or repeated packet from a forged one.
pub const SEQ_PROBE_WINDOW: u64 = 8;

/// The ciphertext that the AES-SIV cipher produces from a key, a nonce and a
/// plaintext. The cipher is deterministic: its output depends on these three
/// arguments alone, so the result can be given a name.
pub uninterp spec fn siv_sealed(key: Seq<u8>, nonce: Seq<u8>, plaintext: Seq<u8>) -> Seq<u8>;

/// The nonce under which the packet with sequence number `n` is sealed:
/// an all-zero eight-byte prefix followed by `n` in big-endian byte order.
///
/// The prefix is fixed for every session, so nonce uniqueness rests on the
/// counter alone: the key layer above must give every session, and every
/// direction of it, a fresh key, or nonces repeat across them. Hardening the
/// prefix (a per-session negotiated value) would need a handshake this core
/// deliberately does not have.
pub open spec fn nonce_of(n: u64) -> Seq<u8> {
    seq![
        0u8, 0u8, 0u8, 0u8, 0u8, 0u8, 0u8, 0u8,
        (n >> 56) as u8, (n >> 48) as u8, (n >> 40) as u8, (n >> 32) as u8,
        (n >> 24) as u8, (n >> 16) as u8, (n >> 8) as u8, n as u8,
    ]
}

/// Ciphertext `c` opens at sequence number `m` to plaintext `p` exactly when
/// sealing `p` at `m` under `key` yields `c`.
pub open spec fn opens_at(key: Seq<u8>, m: u64, c: Seq<u8>, p: Seq<u8>) -> bool {
    c == siv_sealed(key, nonce_of(m), p)
}

/// Some plaintext opens `c` at sequence number `m` under `key`.
pub open spec fn authentic_at(key: Seq<u8>, m: u64, c: Seq<u8>) -> bool {
    exists|p: Seq<u8>| opens_at(key, m, c, p)
}

/// The sequence numbers near `n` (but not `n` itself) that an opener probes
/// when a packet does not open at `n`.
pub open spec fn in_probe_window(n: u64, m: u64) -> bool {
    m != n && n - SEQ_PROBE_WINDOW <= m <= n + SEQ_PROBE_WINDOW
}

/// Relies on `aes_siv::Aes128SivAead` (`KeyInit::new_from_slice`,
/// `aead::Aead::encrypt`): deterministic AES-SIV sealing of `plaintext` under
/// `key` and `nonce`, with the 16-byte synthetic IV (the authentication tag)
/// prepended, so the result is `TAG_LEN` bytes longer than the plaintext.
#[verifier::external_body]
fn siv_seal(key: &Vec<u8>, nonce: &Vec<u8>, plaintext: &Vec<u8>) -> (r: Vec<u8>)
    requires
        key@.len() == KEY_LEN,
        nonce@.len() == 16,
    ensures
        r@ == siv_sealed(key@, nonce@, plaintext@),
        r@.len() == plaintext@.len() + TAG_LEN,
{
    let cipher = aes_siv::Aes128SivAead::new_from_slice(key.as_slice()).unwrap();
    let n = aes_siv::Nonce::try_from(nonce.as_slice()).unwrap();
    cipher.encrypt(&n, plaintext.as_slice()).unwrap()
}

/// Relies on `aes_siv::Aes128SivAead` (`aead::Aead::decrypt`): AES-SIV
/// decryption succeeds on exactly the byte strings that sealing under the same
/// key and nonce produces, and then returns the plaintext that was sealed;
/// everything else is rejected as unauthentic.
#[verifier::external_body]
fn siv_open(key: &Vec<u8>, nonce: &Vec<u8>, ciphertext: &Vec<u8>) -> (r: Option<Vec<u8>>)
    requires
        key@.len() == KEY_LEN,
        nonce@.len() == 16,
    ensures
        r matches Some(p) ==> ciphertext@ == siv_sealed(key@, nonce@, p@),
        r matches Some(p) ==> forall|q: Seq<u8>|
            ciphertext@ == siv_sealed(key@, nonce@, q) ==> q == p@,
        r is None ==> forall|p: Seq<u8>| ciphertext@ != siv_sealed(key@, nonce@, p),
{
    let cipher = aes_siv::Aes128SivAead::new_from_slice(key.as_slice()).unwrap();
    let n = aes_siv::Nonce::try_from(nonce.as_slice()).unwrap();
    match cipher.decrypt(&n, ciphertext.as_slice()) {
        Ok(p) => Some(p),
        Err(_) => None,
    }
}

/// Relies on `keybob::Key::new` with `KeyType::Aes128`: a freshly generated
/// random key of 32 bytes; nothing is assumed of its value.
#[verifier::external_body]
fn random_key_bytes() -> (r: Vec<u8>)
    ensures
        r@.len() == KEY_LEN,
{
    keybob::Key::new(keybob::KeyType::Aes128).as_slice().to_vec()
}

/// A session key: a fixed-length secret byte string, supplied pre-validated by
/// the (external) handshake layer or generated fresh.
pub struct Key {
    bytes: Vec<u8>,
}

impl View for Key {
    type V = Seq<u8>;

    closed spec fn view(&self) -> Seq<u8> {
        self.bytes@
    }
}

impl Key {
    /// A key is well formed when it has exactly `KEY_LEN` bytes.
    pub closed spec fn wf(self) -> bool {
        self.bytes@.len() == KEY_LEN
    }

    /// Generate a fresh random key.
    pub fn generate() -> (k: Key)
        ensures
            k.wf(),
    {
        Key { bytes: random_key_bytes() }
    }

    /// Adopt externally supplied key material; rejected unless it has exactly
    /// `KEY_LEN` bytes.
    pub fn from_bytes(bytes: Vec<u8>) -> (r: Option<Key>)
        ensures
            bytes@.len() == KEY_LEN ==> (r matches Some(k) && k@ == bytes@ && k.wf()),
            bytes@.len() != KEY_LEN ==> r is None,
    {
        if bytes.len() == KEY_LEN {
            Some(Key { bytes })
        } else {
            None
        }
    }

    /// Overwrite the key material with zeros, in place; to be called when the
    /// session releases the key.
    pub fn clear(&mut self)
        ensures
            final(self)@.len() == old(self)@.len(),
            forall|i: int| 0 <= i < final(self)@.len() ==> final(self)@[i] == 0u8,
    {
        let n = self.bytes.len();
        let mut i: usize = 0;
        while i < n
            invariant
                i <= n,
                self.bytes@.len() == n,
                forall|j: int| 0 <= j < i ==> self.bytes@[j] == 0u8,
            decreases n - i,
        {
            self.bytes[i] = 0u8;
            i = i + 1;
        }
    }
}

/// The error a `Sealer` reports: its counter has reached the last sequence
/// number and sealing one more packet would reuse a nonce. Fatal: the session
/// needs a new key.
#[derive(Clone, Copy, PartialEq, Eq, Structural, Debug)]
pub enum SealError {
    CounterExhaustion,
}

/// Why an `Opener` rejected a packet.
#[derive(Clone, Copy, PartialEq, Eq, Structural, Debug)]
pub enum OpenError {
    /// The packet does not authenticate at the expected sequence number nor
    /// anywhere in the probe window: it was tampered with or sealed under
    /// another key.
    AuthenticationFailed,
    /// The packet authenticates at a nearby sequence number, not the expected
    /// one: it arrived out of order. The expected counter is unchanged.
    SequenceMismatch,
}

/// The egress half of the sequenced cipher: seals each outgoing packet under
/// the next nonce and advances its counter by exactly one per packet.
pub struct Sealer {
    key: Vec<u8>,
    ctr: u64,
}

impl Sealer {
    pub closed spec fn wf(self) -> bool {
        self.key@.len() == KEY_LEN
    }

    /// The key this sealer seals under.
    pub closed spec fn key_bytes(self) -> Seq<u8> {
        self.key@
    }

    /// The sequence number the next packet will be sealed at.
    pub closed spec fn counter(self) -> u64 {
        self.ctr
    }

    /// A sealer whose counter starts at zero, as both ends of a fresh session
    /// must agree to.
    pub fn new(key: &Key) -> (s: Sealer)
        requires
            key.wf(),
        ensures
            s.wf(),
            s.key_bytes() == key@,
            s.counter() == 0,
    {
        Sealer { key: vstd::slice::slice_to_vec(key.bytes.as_slice()), ctr: 0 }
    }

    /// A sealer starting at an arbitrary counter, for resuming or examining a
    /// session at a chosen point in its nonce space.
    pub fn with_counter(key: &Key, counter: u64) -> (s: Sealer)
        requires
            key.wf(),
        ensures
            s.wf(),
            s.key_bytes() == key@,
            s.counter() == counter,
    {
        Sealer { key: vstd::slice::slice_to_vec(key.bytes.as_slice()), ctr: counter }
    }

    /// The sequence number the next packet will be sealed at.
    pub fn current_counter(&self) -> (n: u64)
        ensures
            n == self.counter(),
    {
        self.ctr
    }

    /// Seal one packet: authenticate and encrypt it under the nonce derived
    /// from the current counter, then advance the counter. Refused only when
    /// the counter would wrap, which must never silently happen.
    pub fn seal_next(&mut self, plaintext: &Vec<u8>) -> (r: Result<Vec<u8>, SealError>)
        requires
            old(self).wf(),
        ensures
            final(self).wf(),
            final(self).key_bytes() == old(self).key_bytes(),
            old(self).counter() < u64::MAX ==> {
                &&& r matches Ok(c) && c@ == siv_sealed(
                    old(self).key_bytes(),
                    nonce_of(old(self).counter()),
                    plaintext@,
                ) && c@.len() == plaintext@.len() + TAG_LEN
                &&& final(self).counter() == old(self).counter() + 1
            },
            old(self).counter() == u64::MAX ==> {
                &&& r matches Err(e) && e == SealError::CounterExhaustion
                &&& final(self).counter() == old(self).counter()
            },
    {
        if self.ctr == u64::MAX {
            return Err(SealError::CounterExhaustion);
        }
        let nonce = nonce_bytes(self.ctr);
        let sealed = siv_seal(&self.key, &nonce, plaintext);
        self.ctr = self.ctr + 1;
        Ok(sealed)
    }
}

/// The ingress half of the sequenced cipher: accepts exactly the packet sealed
/// at its expected counter, and classifies everything else without moving the
/// counter.
pub struct Opener {
    key: Vec<u8>,
    ctr: u64,
}

impl Opener {
    pub closed spec fn wf(self) -> bool {
        self.key@.len() == KEY_LEN
    }

    /// The key this opener opens under.
    pub closed spec fn key_bytes(self) -> Seq<u8> {
        self.key@
    }

    /// The sequence number the next packet is expected at.
    pub closed spec fn counter(self) -> u64 {
        self.ctr
    }

    /// An opener whose counter starts at zero, synchronized with a fresh
    /// sealer on the far side.
    pub fn new(key: &Key) -> (o: Opener)
        requires
            key.wf(),
        ensures
            o.wf(),
            o.key_bytes() == key@,
            o.counter() == 0,
    {
        Opener { key: vstd::slice::slice_to_vec(key.bytes.as_slice()), ctr: 0 }
    }

    /// An opener starting at an arbitrary counter.
    pub fn with_counter(key: &Key, counter: u64) -> (o: Opener)
        requires
            key.wf(),
        ensures
            o.wf(),
            o.key_bytes() == key@,
            o.counter() == counter,
    {
        Opener { key: vstd::slice::slice_to_vec(key.bytes.as_slice()), ctr: counter }
    }

    /// The sequence number the next packet is expected at.
    pub fn current_counter(&self) -> (n: u64)
        ensures
            n == self.counter(),
    {
        self.ctr
    }

    /// Open one packet. The packet sealed at the expected counter — and only
    /// that packet — is accepted, and the counter advances by one. A packet
    /// that instead authenticates at a nearby sequence number arrived out of
    /// order and is rejected as `SequenceMismatch`; one that authenticates
    /// nowhere is rejected as `AuthenticationFailed`. A rejected packet never
    /// yields a plaintext and never moves the counter.
    pub fn open_next(&mut self, ciphertext: &Vec<u8>) -> (r: Result<Vec<u8>, OpenError>)
        requires
            old(self).wf(),
        ensures
            final(self).wf(),
            final(self).key_bytes() == old(self).key_bytes(),
            r matches Ok(p) ==> {
                &&& old(self).counter() < u64::MAX
                &&& opens_at(old(self).key_bytes(), old(self).counter(), ciphertext@, p@)
                &&& final(self).counter() == old(self).counter() + 1
            },
            forall|p: Seq<u8>|
                (old(self).counter() < u64::MAX && opens_at(
                    old(self).key_bytes(),
                    old(self).counter(),
                    ciphertext@,
                    p,
                )) ==> (r matches Ok(q) && q@ == p),
            r is Err ==> final(self).counter() == old(self).counter(),
            r is Err ==> !(old(self).counter() < u64::MAX && authentic_at(
                old(self).key_bytes(),
                old(self).counter(),
                ciphertext@,
            )),
            r matches Err(e) ==> (e == OpenError::SequenceMismatch <==> exists|m: u64|
                in_probe_window(old(self).counter(), m) && authentic_at(
                    old(self).key_bytes(),
                    m,
                    ciphertext@,
                )),
    {
        let expected = self.ctr;
        if expected < u64::MAX {
            let nonce = nonce_bytes(expected);
            match siv_open(&self.key, &nonce, ciphertext) {
                Some(p) => {
                    self.ctr = expected + 1;
                    return Ok(p);
                },
                None => {
                    proof {
                        assert forall|p: Seq<u8>| !opens_at(self.key@, expected, ciphertext@, p) by {
                            if ciphertext@ == siv_sealed(self.key@, nonce_of(expected), p) {
                                assert(false);
                            }
                        }
                    }
                },
            }
        }
        let found = probe_window(&self.key, expected, ciphertext);
        proof {
            if found {
                let m0 = choose|m: u64|
                    in_probe_window(expected, m) && authentic_at(self.key@, m, ciphertext@);
                assert(in_probe_window(old(self).counter(), m0));
                assert(authentic_at(old(self).key_bytes(), m0, ciphertext@));
            } else {
                assert forall|m: u64|
                    !(in_probe_window(old(self).counter(), m) && authentic_at(
                        old(self).key_bytes(),
                        m,
                        ciphertext@,
                    )) by {
                    if in_probe_window(expected, m) && authentic_at(self.key@, m, ciphertext@) {
                        assert(false);
                    }
                }
            }
        }
        if found {
            Err(OpenError::SequenceMismatch)
        } else {
            Err(OpenError::AuthenticationFailed)
        }
    }
}

/// Law: the round trip. The packet sealed at sequence number `n` opens at `n`
/// to exactly the plaintext that was sealed. Together with the contracts of
/// `Sealer::seal_next` (which returns `siv_sealed(key, nonce_of(n), p)` and
/// advances to `n + 1`) and `Opener::open_next` (which accepts a ciphertext
/// satisfying `opens_at` at its own counter, returns exactly the sealed
/// plaintext, and advances in step), this gives `open(seal(p)) == p` for every
/// counter-synchronized pair under one key.
pub proof fn lemma_seal_open_round_trip(key: Seq<u8>, n: u64, p: Seq<u8>)
    ensures
        opens_at(key, n, siv_sealed(key, nonce_of(n), p), p),
{
}

/// Build the nonce for sequence number `n`.
fn nonce_bytes(n: u64) -> (r: Vec<u8>)
    ensures
        r@ == nonce_of(n),
        r@.len() == 16,
{
    let mut r: Vec<u8> = Vec::new();
    r.push(0u8);
    r.push(0u8);
    r.push(0u8);
    r.push(0u8);
    r.push(0u8);
    r.push(0u8);
    r.push(0u8);
    r.push(0u8);
    r.push((n >> 56) as u8);
    r.push((n >> 48) as u8);
    r.push((n >> 40) as u8);
    r.push((n >> 32) as u8);
    r.push((n >> 24) as u8);
    r.push((n >> 16) as u8);
    r.push((n >> 8) as u8);
    r.push(n as u8);
    proof {
        assert(r@ =~= nonce_of(n));
    }
    r
}

/// Try every sequence number in the probe window around `expected`: reports
/// whether the packet authenticates at any of them.
fn probe_window(key: &Vec<u8>, expected: u64, ciphertext: &Vec<u8>) -> (found: bool)
    requires
        key@.len() == KEY_LEN,
    ensures
        found <==> exists|m: u64|
            in_probe_window(expected, m) && authentic_at(key@, m, ciphertext@),
{
    let lo: u64 = if expected >= SEQ_PROBE_WINDOW {
        expected - SEQ_PROBE_WINDOW
    } else {
        0
    };
    let hi: u64 = if expected <= u64::MAX - SEQ_PROBE_WINDOW {
        expected + SEQ_PROBE_WINDOW
    } else {
        u64::MAX
    };
    let mut m: u64 = lo;
    loop
        invariant
            key@.len() == KEY_LEN,
            lo <= m <= hi,
            lo == if expected >= SEQ_PROBE_WINDOW { (expected - SEQ_PROBE_WINDOW) as u64 } else { 0u64 },
            hi == if expected <= u64::MAX - SEQ_PROBE_WINDOW { (expected + SEQ_PROBE_WINDOW) as u64 } else { u64::MAX },
            forall|j: u64| lo <= j < m && j != expected ==> !authentic_at(key@, j, ciphertext@),
        ensures
            forall|j: u64| lo <= j <= hi && j != expected ==> !authentic_at(key@, j, ciphertext@),
        decreases hi - m,
    {
        if m != expected {
            let nonce = nonce_bytes(m);
            match siv_open(key, &nonce, ciphertext) {
                Some(p) => {
                    proof {
                        assert(opens_at(key@, m, ciphertext@, p@));
                        assert(authentic_at(key@, m, ciphertext@));
                        assert(in_probe_window(expected, m));
                    }
                    return true;
                },
                None => {
                    proof {
                        assert forall|p: Seq<u8>| !opens_at(key@, m, ciphertext@, p) by {
                            if ciphertext@ == siv_sealed(key@, nonce_of(m), p) {
                                assert(false);
                            }
                        }
                        assert(!authentic_at(key@, m, ciphertext@));
                    }
                },
            }
        }
        if m == hi {
            break;
        }
        m = m + 1;
    }
    proof {
        assert forall|j: u64|
            in_probe_window(expected, j) implies !authentic_at(key@, j, ciphertext@) by {
            assert(lo <= j <= hi);
        }
    }
    false
}

} // verus!
