use hmac::Mac;
use sha3::Digest;
use vstd::prelude::*;

use crate::principal::Principal;

verus! {

/// SHA3-256 of `data`.
pub uninterp spec fn sha3_of(data: Seq<u8>) -> Seq<u8>;

/// HMAC with SHA3-256 of `msg` under `key`.
pub uninterp spec fn hmac_sha3_of(key: Seq<u8>, msg: Seq<u8>) -> Seq<u8>;

/// `v` as `n` big-endian bytes.
pub open spec fn be_bytes(v: nat, n: nat) -> Seq<u8>
    decreases n,
{
    if n == 0 {
        Seq::empty()
    } else {
        be_bytes(v / 256, (n - 1) as nat).push((v % 256) as u8)
    }
}

/// A CBOR head of major type `major` (below 8) with argument `v`, in its
/// shortest form.
pub open spec fn cbor_head(major: u8, v: u64) -> Seq<u8> {
    let m = major as int * 32;
    if v <= 23 {
        seq![(m + v) as u8]
    } else if v <= 0xff {
        seq![(m + 24) as u8] + be_bytes(v as nat, 1)
    } else if v <= 0xffff {
        seq![(m + 25) as u8] + be_bytes(v as nat, 2)
    } else if v <= 0xffff_ffff {
        seq![(m + 26) as u8] + be_bytes(v as nat, 4)
    } else {
        seq![(m + 27) as u8] + be_bytes(v as nat, 8)
    }
}

/// The CBOR encoding of an unsigned integer.
pub open spec fn cbor_u64_of(v: u64) -> Seq<u8> {
    cbor_head(0, v)
}

/// The CBOR encoding of the pair (timestamp, byte string): an array of two.
pub open spec fn cbor_challenge_of(ts: u64, mac: Seq<u8>) -> Seq<u8> {
    seq![0x82u8] + cbor_head(0, ts) + cbor_head(2, mac.len() as u64) + mac
}

/// The (timestamp, byte string) pair that CBOR bytes decode to, if any.
pub uninterp spec fn cbor_decoded_of(b: Seq<u8>) -> Option<(u64, Seq<u8>)>;

/// A decoded pair, with the bytes as a sequence.
pub open spec fn pair_view(r: Option<(u64, Vec<u8>)>) -> Option<(u64, Seq<u8>)> {
    match r {
        Some(p) => Some((p.0, p.1@)),
        None => None,
    }
}

/// Relies on sha3::Sha3_256: the 32-byte digest of `data`.
#[verifier::external_body]
pub fn sha3_256(data: &[u8]) -> (r: [u8; 32])
    ensures
        r@ == sha3_of(data@),
{
    let mut hasher = sha3::Sha3_256::new();
    hasher.update(data);
    hasher.finalize().into()
}

/// Relies on hmac::Hmac over sha3::Sha3_256, which takes a key of any length:
/// feeding `add1` then `add2` authenticates their concatenation.
#[verifier::external_body]
pub fn mac_256_2(key: &[u8], add1: &[u8], add2: &[u8]) -> (r: [u8; 32])
    ensures
        r@ == hmac_sha3_of(key@, add1@ + add2@),
{
    let mut mac = hmac::Hmac::<sha3::Sha3_256>::new_from_slice(key).expect(
        "HMAC can take key of any size",
    );
    mac.update(add1);
    mac.update(add2);
    mac.finalize().into_bytes().into()
}

/// Relies on ciborium::into_writer: a timestamp is written as the shortest
/// CBOR head of major type 0. Writing into a `Vec` cannot fail.
#[verifier::external_body]
fn cbor_u64(v: u64) -> (r: Vec<u8>)
    ensures
        r@ == cbor_u64_of(v),
{
    let mut buf: Vec<u8> = Vec::new();
    ciborium::into_writer(&v, &mut buf).expect("failed to encode in CBOR format");
    buf
}

/// Relies on ciborium::into_writer: (timestamp, bytes) is written as an array
/// head of length two, the timestamp, and a byte string (head and bytes);
/// ciborium::from_reader decodes it back to the same pair.
#[verifier::external_body]
fn cbor_challenge(ts: u64, mac: &[u8]) -> (r: Vec<u8>)
    ensures
        r@ == cbor_challenge_of(ts, mac@),
        cbor_decoded_of(r@) == Some((ts, mac@)),
{
    let mut buf: Vec<u8> = Vec::new();
    ciborium::into_writer(&(ts, serde_bytes::ByteBuf::from(mac)), &mut buf).expect(
        "failed to encode in CBOR format",
    );
    buf
}

/// Relies on ciborium::from_reader: decodes (timestamp, bytes).
#[verifier::external_body]
fn decode_challenge(b: &[u8]) -> (r: Option<(u64, Vec<u8>)>)
    ensures
        pair_view(r) == cbor_decoded_of(b@),
{
    match ciborium::from_reader::<(u64, serde_bytes::ByteBuf), &[u8]>(b) {
        Ok((t, m)) => Some((t, m.into_vec())),
        Err(_) => None,
    }
}

/// The keyed hash of a payload and timestamp, truncated to 16 bytes.
pub open spec fn mac16(key: Seq<u8>, payload: Seq<u8>, ts: u64) -> Seq<u8> {
    hmac_sha3_of(key, payload + cbor_u64_of(ts)).take(16)
}

/// The challenge issued for a payload at time `ts`.
pub open spec fn challenge_of(key: Seq<u8>, payload: Seq<u8>, ts: u64) -> Seq<u8> {
    cbor_challenge_of(ts, mac16(key, payload, ts))
}

/// A challenge is accepted: it decodes, and its pair is accepted.
pub open spec fn verifies(key: Seq<u8>, payload: Seq<u8>, expire_at: u64, challenge: Seq<u8>) -> bool {
    match cbor_decoded_of(challenge) {
        Some(p) => accepts(key, payload, expire_at, p.0, p.1),
        None => false,
    }
}

/// The decision on a challenge: refused as malformed where it does not decode,
/// as expired where it was issued before the cutoff, as a mismatch where its
/// mac is not the one the key gives for the payload; accepted otherwise.
pub open spec fn verify_result(key: Seq<u8>, payload: Seq<u8>, expire_at: u64, challenge: Seq<u8>) -> Result<(), ChallengeError> {
    match cbor_decoded_of(challenge) {
        None => Err(ChallengeError::Malformed),
        Some(p) => if p.0 < expire_at {
            Err(ChallengeError::Expired)
        } else if p.1 != mac16(key, payload, p.0) {
            Err(ChallengeError::Mismatch)
        } else {
            Ok(())
        },
    }
}

/// The message shown for a refusal.
pub open spec fn challenge_message(e: ChallengeError) -> Seq<char> {
    match e {
        ChallengeError::Malformed => "failed to decode the challenge"@,
        ChallengeError::Expired => "the challenge is expired"@,
        ChallengeError::Mismatch => "failed to verify the challenge"@,
    }
}

/// A decoded challenge (ts, mac) is accepted: not issued before `expire_at`,
/// and its mac is the one the key gives for the payload and `ts`.
pub open spec fn accepts(key: Seq<u8>, payload: Seq<u8>, expire_at: u64, ts: u64, mac: Seq<u8>) -> bool {
    ts >= expire_at && mac == mac16(key, payload, ts)
}

/// Why a challenge was refused.
#[derive(Clone, Copy, Debug, PartialEq, Eq, Structural)]
pub enum ChallengeError {
    Malformed,
    Expired,
    Mismatch,
}

impl ChallengeError {
    /// The message shown for this refusal.
    pub fn message(&self) -> (r: String)
        ensures
            r@ == challenge_message(*self),
    {
        match self {
            ChallengeError::Malformed => "failed to decode the challenge".to_string(),
            ChallengeError::Expired => "the challenge is expired".to_string(),
            ChallengeError::Mismatch => "failed to verify the challenge".to_string(),
        }
    }
}

/// Whether two byte strings are equal.
pub fn bytes_eq(a: &[u8], b: &[u8]) -> (r: bool)
    ensures
        r == (a@ == b@),
{
    if a.len() != b.len() {
        return false;
    }
    let mut i: usize = 0;
    while i < a.len()
        invariant
            a@.len() == b@.len(),
            i <= a@.len(),
            forall|k: int| 0 <= k < i ==> a@[k] == b@[k],
        decreases a@.len() - i,
    {
        if a[i] != b[i] {
            return false;
        }
        i = i + 1;
    }
    assert(a@ =~= b@);
    true
}

/// The decision on a decoded challenge, given the mac expected for its timestamp.
pub fn check_challenge(expire_at: u64, ts: u64, mac: &[u8], expected: &[u8]) -> (r: Result<
    (),
    ChallengeError,
>)
    ensures
        r == if ts < expire_at {
            Err(ChallengeError::Expired)
        } else if mac@ != expected@ {
            Err(ChallengeError::Mismatch)
        } else {
            Ok::<(), ChallengeError>(())
        },
{
    if ts < expire_at {
        return Err(ChallengeError::Expired);
    }
    if !bytes_eq(mac, expected) {
        return Err(ChallengeError::Mismatch);
    }
    Ok(())
}

/// The bytes of a digest, as a vector.
pub fn digest_bytes(a: &[u8; 32]) -> (r: Vec<u8>)
    ensures
        r@ == a@,
{
    let mut v: Vec<u8> = Vec::new();
    let mut i: usize = 0;
    while i < 32
        invariant
            i <= 32,
            a@.len() == 32,
            v@ == a@.take(i as int),
        decreases 32 - i,
    {
        v.push(a[i]);
        i = i + 1;
        assert(v@ =~= a@.take(i as int));
    }
    assert(a@.take(32) =~= a@);
    v
}

/// The first 16 bytes of `a`.
fn first16(a: &[u8; 32]) -> (r: Vec<u8>)
    ensures
        r@ == a@.take(16),
{
    let mut v: Vec<u8> = Vec::new();
    let mut i: usize = 0;
    while i < 16
        invariant
            i <= 16,
            a@.len() == 32,
            v@ == a@.take(i as int),
        decreases 16 - i,
    {
        v.push(a[i]);
        i = i + 1;
        assert(v@ =~= a@.take(i as int));
    }
    v
}

/// Issues the challenge for `payload` at time `timestamp`: the timestamp and
/// the truncated keyed hash of payload and timestamp, encoded together.
pub fn issue_challenge(key: &[u8], payload: &[u8], timestamp: u64) -> (r: Vec<u8>)
    ensures
        r@ == challenge_of(key@, payload@, timestamp),
        cbor_decoded_of(r@) == Some((timestamp, mac16(key@, payload@, timestamp))),
{
    let ts = cbor_u64(timestamp);
    let full = mac_256_2(key, payload, ts.as_slice());
    let mac = first16(&full);
    cbor_challenge(timestamp, mac.as_slice())
}

/// Verifies a challenge for `payload`: decodes it, refuses one issued before
/// `expire_at`, and recomputes the keyed hash.
pub fn verify_challenge(key: &[u8], payload: &[u8], expire_at: u64, challenge: &[u8]) -> (r: Result<
    (),
    ChallengeError,
>)
    ensures
        r == verify_result(key@, payload@, expire_at, challenge@),
        r is Ok <==> verifies(key@, payload@, expire_at, challenge@),
{
    match decode_challenge(challenge) {
        None => Err(ChallengeError::Malformed),
        Some((ts, mac)) => {
            if ts < expire_at {
                return Err(ChallengeError::Expired);
            }
            let tsb = cbor_u64(ts);
            let full = mac_256_2(key, payload, tsb.as_slice());
            let expected = first16(&full);
            check_challenge(expire_at, ts, mac.as_slice(), expected.as_slice())
        },
    }
}

/// A challenge issued at `t` verifies exactly while `t` is not before the
/// cutoff; a challenge that decodes to another mac for `t` never verifies.
pub proof fn lemma_challenge_round_trip(
    key: Seq<u8>,
    payload: Seq<u8>,
    t: u64,
    expire_at: u64,
    issued: Seq<u8>,
    altered: Seq<u8>,
)
    requires
        cbor_decoded_of(issued) == Some((t, mac16(key, payload, t))),
        cbor_decoded_of(altered) matches Some(p) && p.0 == t && p.1 != mac16(key, payload, t),
    ensures
        verifies(key, payload, expire_at, issued) <==> t >= expire_at,
        !verifies(key, payload, expire_at, altered),
{
}

/// The request a challenge authorizes: an author and the hash of its asset.
#[derive(Clone, Debug)]
pub struct SecretArg {
    pub author: Principal,
    pub asset_hash: Vec<u8>,
}

/// The canonical bytes of a request: the author's length, the author, the hash.
pub open spec fn secret_payload(author: Seq<u8>, hash: Seq<u8>) -> Seq<u8> {
    seq![(author.len() % 256) as u8] + author + hash
}

/// Issuing and checking challenges for a request.
pub trait Secret {
    spec fn payload(&self) -> Seq<u8>;

    fn secret(&self, key: &[u8], timestamp: u64) -> (r: Vec<u8>)
        ensures
            r@ == challenge_of(key@, self.payload(), timestamp),
            cbor_decoded_of(r@) == Some((timestamp, mac16(key@, self.payload(), timestamp))),
    ;

    fn verify(&self, key: &[u8], expire_at: u64, challenge: &[u8]) -> (r: Result<(), ChallengeError>)
        ensures
            r == verify_result(key@, self.payload(), expire_at, challenge@),
            r is Ok <==> verifies(key@, self.payload(), expire_at, challenge@),
    ;
}

impl SecretArg {
    /// The canonical bytes of this request.
    pub fn payload_bytes(&self) -> (r: Vec<u8>)
        ensures
            r@ == secret_payload(self.author@, self.asset_hash@),
    {
        let mut v: Vec<u8> = Vec::new();
        v.push((self.author.0.len() % 256) as u8);
        let mut i: usize = 0;
        while i < self.author.0.len()
            invariant
                i <= self.author@.len(),
                v@ == seq![(self.author@.len() % 256) as u8] + self.author@.take(i as int),
            decreases self.author@.len() - i,
        {
            v.push(self.author.0[i]);
            i = i + 1;
            assert(v@ =~= seq![(self.author@.len() % 256) as u8] + self.author@.take(i as int));
        }
        let mut j: usize = 0;
        while j < self.asset_hash.len()
            invariant
                j <= self.asset_hash@.len(),
                v@ == seq![(self.author@.len() % 256) as u8] + self.author@ + self.asset_hash@.take(
                    j as int,
                ),
            decreases self.asset_hash@.len() - j,
        {
            v.push(self.asset_hash[j]);
            j = j + 1;
            assert(v@ =~= seq![(self.author@.len() % 256) as u8] + self.author@
                + self.asset_hash@.take(j as int));
        }
        assert(self.author@.take(self.author@.len() as int) =~= self.author@);
        assert(self.asset_hash@.take(self.asset_hash@.len() as int) =~= self.asset_hash@);
        v
    }
}

impl Secret for SecretArg {
    open spec fn payload(&self) -> Seq<u8> {
        secret_payload(self.author@, self.asset_hash@)
    }

    fn secret(&self, key: &[u8], timestamp: u64) -> (r: Vec<u8>) {
        let p = self.payload_bytes();
        issue_challenge(key, p.as_slice(), timestamp)
    }

    fn verify(&self, key: &[u8], expire_at: u64, challenge: &[u8]) -> (r: Result<(), ChallengeError>) {
        let p = self.payload_bytes();
        verify_challenge(key, p.as_slice(), expire_at, challenge)
    }
}

} // verus!
