use icrc7_ledger::challenge::{
    check_challenge, issue_challenge, mac_256_2, sha3_256, verify_challenge, ChallengeError, Secret,
    SecretArg,
};
use icrc7_ledger::principal::Principal;

fn hex(b: &[u8]) -> String {
    b.iter().map(|x| format!("{:02x}", x)).collect()
}

#[test]
fn sha3_known_vector() {
    assert_eq!(
        hex(&sha3_256(b"abc")),
        "3a985da74fe225b2045c172d6bd390bd855f086e3e9d525b46bfe24511431532"
    );
}

#[test]
fn hmac_depends_on_key_and_message() {
    let a = mac_256_2(b"key", b"ab", b"c");
    assert_eq!(a, mac_256_2(b"key", b"a", b"bc"));
    assert_ne!(a, mac_256_2(b"other", b"ab", b"c"));
    assert_ne!(a, mac_256_2(b"key", b"ab", b"d"));
    assert_ne!(&a[..3], b"abc");
}

#[test]
fn challenge_verifies_at_issue_time() {
    let c = issue_challenge(b"secret", b"payload", 1000);
    assert_eq!(c[0], 0x82);
    assert_eq!(verify_challenge(b"secret", b"payload", 1000, &c), Ok(()));
    assert_eq!(verify_challenge(b"secret", b"payload", 400, &c), Ok(()));
}

#[test]
fn challenge_expires() {
    let c = issue_challenge(b"secret", b"payload", 1000);
    assert_eq!(verify_challenge(b"secret", b"payload", 1001, &c), Err(ChallengeError::Expired));
}

#[test]
fn challenge_altered_payload_or_key_fails() {
    let c = issue_challenge(b"secret", b"payload", 1000);
    assert_eq!(verify_challenge(b"secret", b"paylobd", 1000, &c), Err(ChallengeError::Mismatch));
    assert_eq!(verify_challenge(b"secreT", b"payload", 1000, &c), Err(ChallengeError::Mismatch));
    let mut bad = c.clone();
    let n = bad.len();
    bad[n - 1] ^= 1;
    assert_eq!(verify_challenge(b"secret", b"payload", 1000, &bad), Err(ChallengeError::Mismatch));
}

#[test]
fn challenge_malformed() {
    assert_eq!(verify_challenge(b"secret", b"payload", 0, &[0xff, 0x00]), Err(ChallengeError::Malformed));
    assert_eq!(ChallengeError::Malformed.message(), "failed to decode the challenge");
}

#[test]
fn check_challenge_decisions() {
    assert_eq!(check_challenge(10, 9, b"ab", b"ab"), Err(ChallengeError::Expired));
    assert_eq!(check_challenge(10, 10, b"ab", b"ac"), Err(ChallengeError::Mismatch));
    assert_eq!(check_challenge(10, 11, b"ab", b"ab"), Ok(()));
}

#[test]
fn secret_trait_round_trip() {
    let arg = SecretArg { author: Principal(vec![1, 2, 3]), asset_hash: vec![9u8; 32] };
    let c = arg.secret(b"k", 500);
    assert_eq!(arg.verify(b"k", 500, &c), Ok(()));
    let other = SecretArg { author: Principal(vec![1, 2, 4]), asset_hash: vec![9u8; 32] };
    assert_eq!(other.verify(b"k", 500, &c), Err(ChallengeError::Mismatch));
}

#[test]
fn challenge_framing_bytes() {
    let c = issue_challenge(b"secret", b"payload", 1000);
    assert_eq!(c.len(), 21);
    assert_eq!(&c[..5], &[0x82, 0x19, 0x03, 0xe8, 0x50]);
    let small = issue_challenge(b"secret", b"payload", 5);
    assert_eq!(small.len(), 19);
    assert_eq!(&small[..3], &[0x82, 0x05, 0x50]);
    let big = issue_challenge(b"secret", b"payload", 1u64 << 40);
    assert_eq!(&big[..2], &[0x82, 0x1b]);
    assert_eq!(big.len(), 2 + 8 + 1 + 16);
}
