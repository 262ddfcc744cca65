//! The number of distinct bytes of a secret, from which the strength of the
//! secret is estimated.

use vstd::prelude::*;

verus! {

/// The number of distinct bytes of `secret`.
pub fn distinct_bytes(secret: &[u8]) -> (r: usize)
    ensures
        r == secret@.to_set().len(),
{
    let mut seen: Vec<bool> = Vec::new();
    let mut k: usize = 0;
    while k < 256
        invariant
            k <= 256,
            seen@.len() == k,
            forall|j: int| 0 <= j < k ==> !#[trigger] seen@[j],
        decreases 256 - k,
    {
        seen.push(false);
        k = k + 1;
    }
    let mut count: usize = 0;
    let mut i: usize = 0;
    assert(secret@.take(0).to_set() =~= Set::<u8>::empty());
    while i < secret.len()
        invariant
            i <= secret@.len(),
            seen@.len() == 256,
            forall|b: int| 0 <= b < 256 ==> #[trigger] seen@[b] == secret@.take(i as int).to_set().contains(b as u8),
            count == secret@.take(i as int).to_set().len(),
            count <= i,
        decreases secret@.len() - i,
    {
        let b = secret[i];
        let ghost before = secret@.take(i as int).to_set();
        assert(secret@.take(i + 1) =~= secret@.take(i as int).push(b));
        proof {
            secret@.take(i as int).lemma_push_to_set_commute(b);
            vstd::seq_lib::seq_to_set_is_finite(secret@.take(i as int));
        }
        if !seen[b as usize] {
            seen.set(b as usize, true);
            count = count + 1;
            proof {
                assert(!before.contains(b));
            }
        } else {
            proof {
                assert(before.contains(b));
                assert(before.insert(b) =~= before);
            }
        }
        proof {
            assert forall|c: int| 0 <= c < 256 implies #[trigger] seen@[c] == secret@.take(i + 1).to_set().contains(
                c as u8,
            ) by {
                if c != b as int {
                    assert((c as u8) != b);
                }
            }
        }
        i = i + 1;
    }
    assert(secret@.take(i as int) =~= secret@);
    count
}

} // verus!
