use vstd::prelude::*;

use crate::hashing::{hash_with_fractal_salt, sha256_digest};
use crate::target::{get_target, target_spec};
use crate::validate::{accepts_spec, validate_proof};
use vstd::bytes::{spec_u64_to_le_bytes, u64_to_le_bytes};
use vstd::slice::slice_to_vec;

verus! {

/// The byte string a trial nonce is hashed over: the payload bytes followed
/// by the nonce's 8-byte little-endian encoding (the salt follows as the
/// hasher's second chunk).
pub open spec fn mining_input(data: Seq<u8>, nonce: u64) -> Seq<u8> {
    data + spec_u64_to_le_bytes(nonce)
}

/// Whether a trial nonce wins for the given payload, salt and difficulty:
/// its digest satisfies the difficulty's target.
pub open spec fn nonce_wins(data: Seq<u8>, salt: Seq<u8>, difficulty: u32, nonce: u64) -> bool {
    accepts_spec(sha256_digest(mining_input(data, nonce), salt), target_spec(difficulty))
}

pub struct Miner {
    pub address: String,
    pub hash_rate: u64,
}

impl Miner {
    /// Sequential search: try nonces 0, 1, 2, ... until a digest satisfies
    /// the difficulty's target, and return the winning nonce with its digest.
    /// The returned nonce is the first winner: every smaller nonce loses.
    /// If the whole 64-bit nonce space is exhausted without a hit — possible
    /// only for a target so strict that no trial digest ever falls under it —
    /// the search reports failure rather than looping forever.
    pub fn mine(&self, data: &[u8], salt: &[u8], difficulty: u32) -> (r: Option<(u64, Vec<u8>)>)
        ensures
            match r {
                Some(p) => {
                    &&& p.1@ == sha256_digest(mining_input(data@, p.0), salt@)
                    &&& accepts_spec(p.1@, target_spec(difficulty))
                    &&& forall|m: u64| m < p.0 ==> !nonce_wins(data@, salt@, difficulty, m)
                },
                None => forall|m: u64| !nonce_wins(data@, salt@, difficulty, m),
            },
    {
        let target = get_target(difficulty);
        let mut nonce: u64 = 0;
        loop
            invariant
                target@ == target_spec(difficulty),
                forall|m: u64| m < nonce ==> !nonce_wins(data@, salt@, difficulty, m),
            decreases u64::MAX - nonce,
        {
            let mut input: Vec<u8> = slice_to_vec(data);
            let mut nonce_bytes = u64_to_le_bytes(nonce);
            input.append(&mut nonce_bytes);
            assert(input@ == mining_input(data@, nonce));
            let hash = hash_with_fractal_salt(input.as_slice(), salt);
            if validate_proof(hash.as_slice(), target.as_slice()) {
                return Some((nonce, hash));
            }
            if nonce == u64::MAX {
                return None;
            }
            nonce = nonce + 1;
        }
    }
}

/// Law: verification is idempotent — for any (nonce, digest) pair that the
/// search returns for (data, salt, difficulty), the independent check any
/// consumer runs succeeds: recomputing the digest of (data, nonce, salt)
/// reproduces the returned digest, and that digest satisfies the
/// difficulty's target.
pub proof fn lemma_verification_idempotent(
    data: Seq<u8>,
    salt: Seq<u8>,
    difficulty: u32,
    nonce: u64,
    digest: Seq<u8>,
)
    requires
        digest == sha256_digest(mining_input(data, nonce), salt),
        accepts_spec(digest, target_spec(difficulty)),
    ensures
        sha256_digest(mining_input(data, nonce), salt) == digest,
        accepts_spec(sha256_digest(mining_input(data, nonce), salt), target_spec(difficulty)),
{
}

} // verus!
