use vstd::prelude::*;

verus! {

/// The 32-byte SHA-256 digest of the bytes fed to the hasher in order: first
/// `data`, then `salt`. The digest is a pure function of those bytes, the
/// same in every process and on every machine, so it is given a name here
/// rather than written out.
pub uninterp spec fn sha256_digest(data: Seq<u8>, salt: Seq<u8>) -> Seq<u8>;

/// Relies on `sha2::Sha256` through the `Digest` trait (`new`, one `update`
/// per chunk, `finalize`): a deterministic streaming hash of the bytes fed
/// in, with a fixed 32-byte output.
#[verifier::external_body]
pub fn hash_with_fractal_salt(data: &[u8], salt: &[u8]) -> (r: Vec<u8>)
    ensures
        r@ == sha256_digest(data@, salt@),
        r@.len() == 32,
{
    let mut hasher = <sha2::Sha256 as sha2::Digest>::new();
    sha2::Digest::update(&mut hasher, data);
    sha2::Digest::update(&mut hasher, salt);
    sha2::Digest::finalize(hasher).to_vec()
}

/// Law: the digest is deterministic — two digests of the same (data, salt)
/// pair are byte-for-byte identical.
pub proof fn lemma_digest_deterministic(data: Seq<u8>, salt: Seq<u8>, a: Seq<u8>, b: Seq<u8>)
    requires
        a == sha256_digest(data, salt),
        b == sha256_digest(data, salt),
    ensures
        a == b,
{
}

} // verus!
