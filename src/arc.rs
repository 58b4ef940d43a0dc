use vstd::prelude::*;

verus! {

/// Relies on `std::sync::Arc::clone`: the new handle points to the same
/// allocation, hence to the same value.
#[verifier::external_body]
fn share<T>(arc: &std::sync::Arc<T>) -> (r: std::sync::Arc<T>)
    ensures
        *r == **arc,
{
    std::sync::Arc::clone(arc)
}

/// Relies on `std::sync::Arc::strong_count`: the number of live handles to the
/// allocation, `arc` among them. Other threads may change the count at any
/// time, but never below one while `arc` is alive.
#[verifier::external_body]
fn live_handles<T>(arc: &std::sync::Arc<T>) -> (r: usize)
    ensures
        r >= 1,
{
    std::sync::Arc::strong_count(arc)
}

/// Shared-ownership handle that may be cloned, read and dropped on many
/// threads at once. All handles cloned from one another refer to one
/// allocation holding the value and an atomic count of live handles; the
/// value is dropped when the last handle goes away.
pub struct Arc<T> {
    inner: std::sync::Arc<T>,
}

impl<T> View for Arc<T> {
    type V = T;

    /// The shared value.
    closed spec fn view(&self) -> T {
        *self.inner
    }
}

impl<T> Arc<T> {
    /// Moves `value` into a new allocation with one live handle, this one.
    pub fn new(value: T) -> (r: Self)
        ensures
            r@ == value,
    {
        Arc { inner: std::sync::Arc::new(value) }
    }

    /// Number of live handles to this handle's allocation.
    pub fn count(&self) -> (r: usize)
        ensures
            r >= 1,
    {
        live_handles(&self.inner)
    }

    /// Read access to the shared value.
    pub fn deref(&self) -> (r: &T)
        ensures
            *r == self@,
    {
        &*self.inner
    }
}

impl<T> Clone for Arc<T> {
    /// A new handle to the same allocation; the count goes up by one.
    fn clone(&self) -> (r: Self)
        ensures
            r@ == self@,
    {
        Arc { inner: share(&self.inner) }
    }
}

} // verus!
