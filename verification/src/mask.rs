//! Mask compositing: writing convolved pixels back selectively.
//!
//! A mask is a boolean per pixel: `true` means the pixel takes its convolved
//! value, `false` means it keeps the value it had before the call. Passing
//! no mask means writing every pixel, which is the same as an all-true mask;
//! that equivalence, and the pixel-for-pixel complement law, are proved
//! here, not just asserted.
//!
//! A mask whose length differs from the pixel count is rejected before any
//! pixel is touched.

use vstd::prelude::*;

use crate::error::BlurError;

verus! {

/// The image that results from writing `convolved` over `original` wherever
/// `mask` is true, pixel for pixel.
pub open spec fn composited<T>(original: Seq<T>, convolved: Seq<T>, mask: Seq<bool>) -> Seq<T> {
    Seq::new(
        original.len(),
        |p: int|
            if mask[p] {
                convolved[p]
            } else {
                original[p]
            },
    )
}

/// The mask that selects every pixel — what passing no mask means.
pub open spec fn full_mask(n: int) -> Seq<bool> {
    Seq::new(n as nat, |p: int| true)
}

/// Mask complement law: under any mask, a masked blur gives each selected
/// pixel exactly the value the unmasked blur would give it, and leaves each
/// unselected pixel exactly as it was.
pub proof fn lemma_mask_complement<T>(original: Seq<T>, convolved: Seq<T>, mask: Seq<bool>)
    requires
        convolved.len() == original.len(),
        mask.len() == original.len(),
    ensures
        forall|p: int|
            0 <= p < original.len() && mask[p] ==> #[trigger] composited(
                original,
                convolved,
                mask,
            )[p] == composited(original, convolved, full_mask(original.len() as int))[p],
        forall|p: int|
            0 <= p < original.len() && !mask[p] ==> #[trigger] composited(
                original,
                convolved,
                mask,
            )[p] == original[p],
{
}

/// All-true mask equivalence: compositing under the mask that selects every
/// pixel is the unmasked write-back — the convolved image itself.
pub proof fn lemma_full_mask_is_unmasked<T>(original: Seq<T>, convolved: Seq<T>)
    requires
        convolved.len() == original.len(),
    ensures
        composited(original, convolved, full_mask(original.len() as int)) == convolved,
{
    assert(composited(original, convolved, full_mask(original.len() as int)) =~= convolved);
}

/// Writes `convolved` over `original` wherever `mask` is true, leaving the
/// other pixels untouched. Rejects mismatched lengths before touching any
/// pixel.
#[verifier::loop_isolation(false)]
pub fn composite<T: Copy>(original: &mut Vec<T>, convolved: &Vec<T>, mask: &Vec<bool>) -> (r:
    Result<(), BlurError>)
    ensures
        r is Ok <==> (convolved@.len() == old(original)@.len() && mask@.len() == old(
            original,
        )@.len()),
        r is Ok ==> final(original)@ == composited(old(original)@, convolved@, mask@),
        r is Err ==> final(original)@ == old(original)@ && r == Err::<(), BlurError>(
            BlurError::Dimension,
        ),
{
    let n = original.len();
    if convolved.len() != n || mask.len() != n {
        return Err(BlurError::Dimension);
    }
    let mut p: usize = 0;
    while p < n
        invariant
            p <= n,
            original@.len() == n,
            forall|q: int|
                0 <= q < p ==> original@[q] == #[trigger] composited(
                    old(original)@,
                    convolved@,
                    mask@,
                )[q],
            forall|q: int| p <= q < n ==> original@[q] == old(original)@[q],
        decreases n - p,
    {
        if mask[p] {
            original[p] = convolved[p];
        }
        p = p + 1;
    }
    proof {
        assert(original@ =~= composited(old(original)@, convolved@, mask@));
    }
    Ok(())
}

/// Writes every pixel of `convolved` over `original` — the unmasked
/// write-back. Rejects mismatched lengths before touching any pixel.
pub fn write_back<T: Copy>(original: &mut Vec<T>, convolved: &Vec<T>) -> (r: Result<
    (),
    BlurError,
>)
    ensures
        r is Ok <==> convolved@.len() == old(original)@.len(),
        r is Ok ==> final(original)@ == convolved@,
        r is Err ==> final(original)@ == old(original)@ && r == Err::<(), BlurError>(
            BlurError::Dimension,
        ),
{
    let n = original.len();
    let mut mask: Vec<bool> = Vec::new();
    let mut p: usize = 0;
    while p < n
        invariant
            p <= n,
            mask@.len() == p,
            forall|q: int| 0 <= q < p ==> mask@[q],
        decreases n - p,
    {
        mask.push(true);
        p = p + 1;
    }
    let r = composite(original, convolved, &mask);
    proof {
        if convolved@.len() == old(original)@.len() {
            assert(mask@ =~= full_mask(old(original)@.len() as int));
            lemma_full_mask_is_unmasked(old(original)@, convolved@);
        }
    }
    r
}

} // verus!
