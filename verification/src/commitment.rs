//! Commitments: the digest a player stores before the reveal, and the check
//! of a revealed choice against it.

use vstd::prelude::*;
use crate::types::{bytes_equal, Choice, GameError};

verus! {

/// The SHA-256 digest of a byte string.
pub uninterp spec fn sha256_digest(data: Seq<u8>) -> Seq<u8>;

/// Hashes `data` with `sha2::Sha256` through `Digest::digest`, which feeds the
/// whole input to a fresh hasher and finalises it. Not proved: that the 32
/// bytes returned are the SHA-256 digest of exactly the bytes passed in.
#[verifier::external_body]
fn sha256(data: &Vec<u8>) -> (out: [u8; 32])
    ensures
        out@ == sha256_digest(data@),
{
    <sha2::Sha256 as sha2::Digest>::digest(data.as_slice()).into()
}

/// The byte that stands for a choice inside a commitment. Only Rock, Paper
/// and Scissors have one.
pub open spec fn code_of(choice: Choice) -> Option<u8> {
    match choice {
        Choice::Rock => Some(1u8),
        Choice::Paper => Some(2u8),
        Choice::Scissors => Some(3u8),
        _ => None,
    }
}

/// The 64 bytes that are hashed: the salt, the choice's code, 31 zero bytes.
pub open spec fn preimage(salt: Seq<u8>, code: u8) -> Seq<u8> {
    Seq::new(
        64,
        |i: int|
            if i < 32 {
                salt[i]
            } else if i == 32 {
                code
            } else {
                0u8
            },
    )
}

/// The commitment that binds `choice` under `salt`, where the choice has a code.
pub open spec fn commitment_of(choice: Choice, salt: [u8; 32]) -> Option<Seq<u8>> {
    match code_of(choice) {
        Some(code) => Some(sha256_digest(preimage(salt@, code))),
        None => None,
    }
}

/// The verdict on a reveal: the choice must have a code, and the digest of
/// salt and code must be the stored one.
pub open spec fn reveal_verdict(choice: Choice, salt: [u8; 32], stored: [u8; 32]) -> Result<
    (),
    GameError,
> {
    match commitment_of(choice, salt) {
        None => Err(GameError::InvalidChoice),
        Some(digest) => if digest == stored@ {
            Ok(())
        } else {
            Err(GameError::CommitmentMismatch)
        },
    }
}

/// The code of a choice, if it has one.
pub fn choice_code(choice: Choice) -> (code: Option<u8>)
    ensures
        code == code_of(choice),
{
    match choice {
        Choice::Rock => Some(1u8),
        Choice::Paper => Some(2u8),
        Choice::Scissors => Some(3u8),
        _ => None,
    }
}

/// Lays out the bytes to hash for a salt and a choice's code.
pub fn commitment_input(salt: &[u8; 32], code: u8) -> (buf: Vec<u8>)
    ensures
        buf@ == preimage(salt@, code),
{
    let mut buf: Vec<u8> = Vec::new();
    let mut i: usize = 0;
    while i < 64
        invariant
            i <= 64,
            buf.len() == i,
            forall|k: int| 0 <= k < i ==> buf[k] == preimage(salt@, code)[k],
        decreases 64 - i,
    {
        let b: u8 = if i < 32 {
            salt[i]
        } else if i == 32 {
            code
        } else {
            0u8
        };
        buf.push(b);
        i += 1;
    }
    assert(buf@ =~= preimage(salt@, code));
    buf
}

/// Compares a computed digest with the stored commitment.
pub fn digests_match(computed: &[u8; 32], stored: &[u8; 32]) -> (r: bool)
    ensures
        r == (computed@ == stored@),
{
    let r = bytes_equal(computed, stored);
    assert(r == (computed@ == stored@)) by {
        if computed@ == stored@ {
            assert(*computed =~= *stored);
        }
    }
    r
}

/// The commitment a player submits for `choice` under `salt`; `None` for a
/// choice that cannot be committed to.
pub fn commit_to(choice: Choice, salt: &[u8; 32]) -> (digest: Option<[u8; 32]>)
    ensures
        match digest {
            Some(d) => commitment_of(choice, *salt) == Some(d@),
            None => commitment_of(choice, *salt).is_none(),
        },
{
    match choice_code(choice) {
        Some(code) => {
            let buf = commitment_input(salt, code);
            Some(sha256(&buf))
        },
        None => None,
    }
}

/// Checks a revealed choice and salt against the stored commitment.
pub fn verify_commitment(choice: Choice, salt: &[u8; 32], stored: &[u8; 32]) -> (r: Result<
    (),
    GameError,
>)
    ensures
        r == reveal_verdict(choice, *salt, *stored),
{
    match commit_to(choice, salt) {
        None => Err(GameError::InvalidChoice),
        Some(digest) => {
            if digests_match(&digest, stored) {
                Ok(())
            } else {
                Err(GameError::CommitmentMismatch)
            }
        },
    }
}

} // verus!
