use vstd::prelude::*;

verus! {

/// Relies on `std::rc::Rc::clone`: the new handle points to the same
/// allocation, hence to the same value.
#[verifier::external_body]
fn share<T>(rc: &std::rc::Rc<T>) -> (r: std::rc::Rc<T>)
    ensures
        *r == **rc,
{
    std::rc::Rc::clone(rc)
}

/// Relies on `std::rc::Rc::strong_count`: the number of live handles to the
/// allocation, `rc` among them.
#[verifier::external_body]
fn live_handles<T>(rc: &std::rc::Rc<T>) -> (r: usize)
    ensures
        r >= 1,
{
    std::rc::Rc::strong_count(rc)
}

/// Shared-ownership handle for use on one thread. All handles cloned from
/// one another refer to one allocation holding the value and the count of
/// live handles; the value is dropped when the last handle goes away.
pub struct Rc<T> {
    inner: std::rc::Rc<T>,
}

impl<T> View for Rc<T> {
    type V = T;

    /// The shared value.
    closed spec fn view(&self) -> T {
        *self.inner
    }
}

impl<T> Rc<T> {
    /// Moves `value` into a new allocation with one live handle, this one.
    pub fn new(value: T) -> (r: Self)
        ensures
            r@ == value,
    {
        Rc { inner: std::rc::Rc::new(value) }
    }

    /// Number of live handles to this handle's allocation.
    pub fn count(&self) -> (r: usize)
        ensures
            r >= 1,
    {
        live_handles(&self.inner)
    }

    /// Read access to the shared value.
    pub fn deref(&self) -> (r: &T)
        ensures
            *r == self@,
    {
        &*self.inner
    }
}

impl<T> Clone for Rc<T> {
    /// A new handle to the same allocation; the count goes up by one.
    fn clone(&self) -> (r: Self)
        ensures
            r@ == self@,
    {
        Rc { inner: share(&self.inner) }
    }
}

} // verus!
