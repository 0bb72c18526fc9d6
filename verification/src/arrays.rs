//! Arrays filled from their indices.

use vstd::prelude::*;

verus! {

/// An array whose element at each index is what the initializer returns for
/// that index. Wraps `array_init::array_init`, which calls the initializer
/// once for each index of the array, in rising order, and stores what it
/// returns at that index.
#[verifier::external_body]
pub(crate) fn array_from_fn<T, F: Fn(usize) -> T, const N: usize>(initializer: F) -> (array: [T; N])
    requires
        forall|i: usize| i < N ==> call_requires(initializer, (i,)),
    ensures
        forall|i: usize| i < N ==> call_ensures(initializer, (i,), #[trigger] array@[i as int]),
{
    array_init::array_init(initializer)
}

} // verus!
