//! Shared handles on stored values.

use std::sync::Arc;
use vstd::prelude::*;

verus! {

/// `Arc::clone`: a second handle on the value that `handle` points to. The
/// value itself is not copied.
#[verifier::external_body]
pub(crate) fn share<T>(handle: &Arc<T>) -> (other: Arc<T>)
    ensures
        *other == **handle,
{
    Arc::clone(handle)
}

} // verus!
