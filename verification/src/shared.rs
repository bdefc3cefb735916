//! Handles that the nodes of a volume share.

use std::sync::Arc;
use vstd::prelude::*;

verus! {

/// Another handle to the same value, through `Arc::clone`: what the new
/// handle points at is what the old one points at.
#[verifier::external_body]
pub(crate) fn share<T>(handle: &Arc<T>) -> (r: Arc<T>)
    ensures
        r == *handle,
{
    Arc::clone(handle)
}

} // verus!
