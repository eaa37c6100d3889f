//! A shared value that is copied only when written: a thin wrapper around `Arc`.
use vstd::prelude::*;
use std::sync::Arc;

verus! {

/// A shared value; clones share it.
#[derive(Clone, Debug, Hash)]
pub struct Cow<T> {
    data: Arc<T>,
}

impl<T> View for Cow<T> {
    type V = T;

    closed spec fn view(&self) -> T {
        *self.data
    }
}

/// Whether two `Arc`s point to the same allocation (`Arc::ptr_eq`).
/// Claimed: when they do, they hold the same value. When it answers `true` is not
/// claimed: that depends on addresses, which Verus does not model.
#[verifier::external_body]
fn arc_ptr_eq<T>(a: &Arc<T>, b: &Arc<T>) -> (same: bool)
    ensures
        same ==> **a == **b,
{
    Arc::ptr_eq(a, b)
}

impl<T> Cow<T> {
    /// A new shared value.
    pub fn new(inner: T) -> (cow: Self)
        ensures
            cow@ == inner,
    {
        Cow { data: Arc::new(inner) }
    }

    /// Whether two shared values are one and the same allocation; if they are, they
    /// hold the same value.
    pub fn same_identity(&self, other: &Self) -> (same: bool)
        ensures
            same ==> self@ == other@,
    {
        arc_ptr_eq(&self.data, &other.data)
    }
}

impl<T> std::ops::Deref for Cow<T> {
    type Target = T;

    fn deref(&self) -> (value: &T)
        ensures
            *value == self@,
    {
        &*self.data
    }
}

} // verus!
