use vstd::prelude::*;

verus! {

/// Byte-wise lexicographic comparison from index `i` upward: at the first
/// index where the bytes differ, the digest is accepted exactly when its byte
/// is the smaller one; if no index up to the shorter length differs, it is
/// accepted. Equivalent, for equal-length sequences, to reading both as
/// big-endian unsigned integers and testing `digest <= target`.
pub open spec fn lex_le_from(digest: Seq<u8>, target: Seq<u8>, i: int) -> bool
    decreases digest.len() - i,
{
    if i >= digest.len() || i >= target.len() {
        true
    } else if digest[i] < target[i] {
        true
    } else if digest[i] > target[i] {
        false
    } else {
        lex_le_from(digest, target, i + 1)
    }
}

/// Whether a digest satisfies a target threshold: the byte-wise comparison
/// starting at index 0.
pub open spec fn accepts_spec(digest: Seq<u8>, target: Seq<u8>) -> bool {
    lex_le_from(digest, target, 0)
}

/// Decide whether a digest satisfies a target, scanning from the first byte
/// and short-circuiting at the first differing pair.
pub fn validate_proof(hash: &[u8], target: &[u8]) -> (r: bool)
    ensures
        r == accepts_spec(hash@, target@),
{
    let n: usize = if hash.len() < target.len() {
        hash.len()
    } else {
        target.len()
    };
    let mut i: usize = 0;
    while i < n
        invariant
            i <= n,
            n <= hash@.len(),
            n <= target@.len(),
            n == hash@.len() || n == target@.len(),
            accepts_spec(hash@, target@) == lex_le_from(hash@, target@, i as int),
        decreases n - i,
    {
        let h = hash[i];
        let t = target[i];
        if h < t {
            return true;
        }
        if h > t {
            return false;
        }
        i += 1;
    }
    true
}

/// 256 to the power `e`: the weight of a byte `e` positions above the least
/// significant one.
pub open spec fn pow256(e: nat) -> int
    decreases e,
{
    if e == 0 {
        1
    } else {
        256 * pow256((e - 1) as nat)
    }
}

/// The number a byte sequence denotes when read as a big-endian unsigned
/// integer: the byte at index 0 is the most significant.
pub open spec fn be_val(s: Seq<u8>) -> int
    decreases s.len(),
{
    if s.len() == 0 {
        0
    } else {
        s[0] * pow256((s.len() - 1) as nat) + be_val(s.skip(1))
    }
}

proof fn lemma_pow256_positive(e: nat)
    ensures
        pow256(e) > 0,
    decreases e,
{
    if e > 0 {
        lemma_pow256_positive((e - 1) as nat);
    }
}

proof fn lemma_be_val_bounds(s: Seq<u8>)
    ensures
        0 <= be_val(s) < pow256(s.len()),
    decreases s.len(),
{
    if s.len() > 0 {
        lemma_be_val_bounds(s.skip(1));
        let p = pow256((s.len() - 1) as nat);
        lemma_pow256_positive((s.len() - 1) as nat);
        vstd::arithmetic::mul::lemma_mul_inequality(s[0] as int, 255, p);
        assert(255 * p + p == 256 * p) by (nonlinear_arith);
    }
}

proof fn lemma_lex_le_from_is_be_le(d: Seq<u8>, t: Seq<u8>, i: int)
    requires
        d.len() == t.len(),
        0 <= i <= d.len(),
    ensures
        lex_le_from(d, t, i) <==> be_val(d.skip(i)) <= be_val(t.skip(i)),
    decreases d.len() - i,
{
    if i == d.len() {
        assert(d.skip(i) =~= Seq::<u8>::empty());
        assert(t.skip(i) =~= Seq::<u8>::empty());
    } else {
        let ds = d.skip(i);
        let ts = t.skip(i);
        assert(ds.skip(1) =~= d.skip(i + 1));
        assert(ts.skip(1) =~= t.skip(i + 1));
        let p = pow256((ds.len() - 1) as nat);
        lemma_pow256_positive((ds.len() - 1) as nat);
        lemma_be_val_bounds(d.skip(i + 1));
        lemma_be_val_bounds(t.skip(i + 1));
        lemma_lex_le_from_is_be_le(d, t, i + 1);
        if d[i] < t[i] {
            vstd::arithmetic::mul::lemma_mul_inequality(d[i] + 1, t[i] as int, p);
            assert(d[i] * p + p == (d[i] + 1) * p) by (nonlinear_arith);
        } else if d[i] > t[i] {
            vstd::arithmetic::mul::lemma_mul_inequality(t[i] + 1, d[i] as int, p);
            assert(t[i] * p + p == (t[i] + 1) * p) by (nonlinear_arith);
        }
    }
}

/// The byte-wise rule read numerically: for a digest and a target of equal
/// length, the comparator accepts exactly when the digest, read as a
/// big-endian unsigned integer, is at most the target read the same way.
pub proof fn lemma_accepts_is_numeric_le(digest: Seq<u8>, target: Seq<u8>)
    requires
        digest.len() == target.len(),
    ensures
        accepts_spec(digest, target) <==> be_val(digest) <= be_val(target),
{
    lemma_lex_le_from_is_be_le(digest, target, 0);
    assert(digest.skip(0) =~= digest);
    assert(target.skip(0) =~= target);
}

/// Law: the comparator is reflexive — a digest always satisfies a target made
/// of exactly the same bytes.
pub proof fn lemma_accepts_reflexive(x: Seq<u8>)
    ensures
        accepts_spec(x, x),
{
    lemma_lex_le_from_reflexive(x, 0);
}

proof fn lemma_lex_le_from_reflexive(x: Seq<u8>, i: int)
    ensures
        lex_le_from(x, x, i),
    decreases x.len() - i,
{
    if i < x.len() {
        lemma_lex_le_from_reflexive(x, i + 1);
    }
}

} // verus!
