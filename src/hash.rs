//! Hashing a message and testing a digest against a difficulty.
use sha2::Digest;
use sha2::Sha256;
use vstd::prelude::*;

verus! {

/// Length of a SHA-256 digest in bytes.
pub const DIGEST_LEN: usize = 32;

/// Length of a SHA-256 digest in hex characters: the largest difficulty that
/// any candidate can meet.
pub const DIGEST_HEX_LEN: usize = 64;

/// ASCII code of the hex character `0`.
pub const HEX_ZERO: u8 = 48;

/// ASCII code of the hex character `a`.
pub const HEX_A: u8 = 97;

/// The SHA-256 digest of `data`.
pub uninterp spec fn sha256_of(data: Seq<u8>) -> Seq<u8>;

/// The lowercase hex character of a value below 16.
pub open spec fn hex_char(v: u8) -> u8 {
    if v < 10 {
        (HEX_ZERO + v) as u8
    } else {
        (HEX_A + (v - 10)) as u8
    }
}

/// Lowercase hex form of `bytes`: two characters per byte, high nibble first.
pub open spec fn hex_lower(bytes: Seq<u8>) -> Seq<u8> {
    Seq::new(
        2 * bytes.len(),
        |i: int|
            if i % 2 == 0 {
                hex_char(bytes[i / 2] / 16)
            } else {
                hex_char(bytes[i / 2] % 16)
            },
    )
}

/// `text` starts with at least `count` characters `0`.
pub open spec fn zero_prefix(text: Seq<u8>, count: nat) -> bool {
    &&& count <= text.len()
    &&& forall|i: int| 0 <= i < count ==> text[i] == HEX_ZERO
}

/// The hex form of `digest` starts with `difficulty` zeros, and `difficulty`
/// fits in the hex form of a SHA-256 digest.
pub open spec fn meets_difficulty(digest: Seq<u8>, difficulty: nat) -> bool {
    &&& difficulty <= DIGEST_HEX_LEN
    &&& zero_prefix(hex_lower(digest), difficulty)
}

/// Relies on `sha2::Sha256::digest` (through `digest::Digest`): the SHA-256
/// hash of `data`, which has 32 bytes.
#[verifier::external_body]
pub(crate) fn sha256(data: &[u8]) -> (r: Vec<u8>)
    ensures
        r@ == sha256_of(data@),
        r@.len() == DIGEST_LEN,
{
    Sha256::digest(data).to_vec()
}

/// Relies on `hex::encode`: each byte becomes two characters of
/// `0123456789abcdef`, the high nibble first. The `String` it returns is
/// handed back as its bytes.
#[verifier::external_body]
fn hex_encode(bytes: &[u8]) -> (r: Vec<u8>)
    ensures
        r@ == hex_lower(bytes@),
{
    hex::encode(bytes).into_bytes()
}

/// Tells whether the hex form of `digest` starts with `difficulty` zeros.
/// A difficulty beyond the hex length of a SHA-256 digest is never met.
pub fn digest_meets_difficulty(digest: &[u8], difficulty: usize) -> (r: bool)
    ensures
        r == meets_difficulty(digest@, difficulty as nat),
{
    if difficulty > DIGEST_HEX_LEN {
        return false;
    }
    let text = hex_encode(digest);
    if difficulty > text.len() {
        return false;
    }
    let mut i: usize = 0;
    while i < difficulty
        invariant
            text@ == hex_lower(digest@),
            difficulty <= DIGEST_HEX_LEN,
            difficulty <= text@.len(),
            i <= difficulty,
            forall|j: int| 0 <= j < i ==> text@[j] == HEX_ZERO,
        decreases difficulty - i,
    {
        if text[i] != HEX_ZERO {
            return false;
        }
        i += 1;
    }
    true
}

} // verus!
