//! Random positions for workloads that read an array out of order.

use rand::Rng;
use vstd::prelude::*;

verus! {

/// rand's `thread_rng().gen_range(0..bound)`: a number drawn from the
/// thread-local generator. The call panics on an empty range, so `bound`
/// must be positive; of the number drawn only its range is known.
#[verifier::external_body]
fn random_below(bound: usize) -> (index: usize)
    requires
        bound > 0,
    ensures
        index < bound,
{
    rand::thread_rng().gen_range(0..bound)
}

/// `count` random positions in an array of `bound` elements. Which
/// positions come out differs from call to call; each of them lies inside
/// the array.
pub fn random_indices(count: usize, bound: usize) -> (indices: Vec<usize>)
    requires
        count == 0 || bound > 0,
    ensures
        indices@.len() == count,
        forall|i: int| 0 <= i < indices@.len() ==> #[trigger] indices@[i] < bound,
{
    let mut indices: Vec<usize> = Vec::new();
    let mut i: usize = 0;
    while i < count
        invariant
            i <= count,
            count == 0 || bound > 0,
            indices@.len() == i,
            forall|k: int| 0 <= k < indices@.len() ==> #[trigger] indices@[k] < bound,
        decreases count - i,
    {
        indices.push(random_below(bound));
        i += 1;
    }
    indices
}

} // verus!
