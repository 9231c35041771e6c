use vstd::prelude::*;

verus! {

/// The 32-byte threshold derived from a difficulty: every byte is zero except
/// the one at index `difficulty / 8`, which holds `255 >> (difficulty % 8)`.
/// For `difficulty >= 256` that index lies outside the array, so the whole
/// target is zero: the strictest threshold, matched only by an all-zero digest.
pub open spec fn target_spec(difficulty: u32) -> Seq<u8> {
    Seq::new(
        32,
        |i: int|
            if i == difficulty as int / 8 {
                (255u8 >> (difficulty % 8)) as u8
            } else {
                0u8
            },
    )
}

/// Derive the threshold for a difficulty; see `target_spec` for its shape.
pub fn get_target(difficulty: u32) -> (r: Vec<u8>)
    ensures
        r@ == target_spec(difficulty),
        r@.len() == 32,
{
    let mut target: Vec<u8> = Vec::new();
    let mut i: usize = 0;
    while i < 32
        invariant
            i <= 32,
            target@.len() == i,
            forall|j: int| 0 <= j < i ==> target@[j] == 0u8,
        decreases 32 - i,
    {
        target.push(0u8);
        i += 1;
    }
    let cut: usize = (difficulty / 8) as usize;
    if cut < 32 {
        let value: u8 = (255u8 >> (difficulty % 8)) as u8;
        target.set(cut, value);
    }
    assert(target@ =~= target_spec(difficulty));
    target
}

/// Law: target derivation is deterministic — two targets derived from the
/// same difficulty are byte-for-byte identical.
pub proof fn lemma_target_deterministic(difficulty: u32, a: Seq<u8>, b: Seq<u8>)
    requires
        a == target_spec(difficulty),
        b == target_spec(difficulty),
    ensures
        a == b,
{
}

} // verus!
