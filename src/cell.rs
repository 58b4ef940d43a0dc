use vstd::prelude::*;

verus! {

/// A memory location holding one value that is read by copy and replaced
/// as a whole. Only copies enter and leave the cell: no reference to the
/// value is ever handed out.
#[derive(Debug, Default)]
pub struct Cell<T> {
    value: T,
}

impl<T> View for Cell<T> {
    type V = T;

    closed spec fn view(&self) -> T {
        self.value
    }
}

impl<T> Cell<T> {
    /// Returns a new cell holding `value`.
    pub fn new(value: T) -> (r: Self)
        ensures
            r@ == value,
    {
        Cell { value }
    }

    /// Replaces the value in the cell with `value`.
    pub fn set(&mut self, value: T) where T: Copy
        ensures
            final(self)@ == value,
    {
        self.value = value;
    }

    /// Copies out the value held in the cell.
    pub fn get(&self) -> (r: T) where T: Copy
        ensures
            r == self@,
    {
        self.value
    }
}

impl<T: Copy> Clone for Cell<T> {
    fn clone(&self) -> (r: Self)
        ensures
            r@ == self@,
    {
        Self::new(self.get())
    }
}

impl<T> From<T> for Cell<T> {
    fn from(value: T) -> (r: Self) {
        Self::new(value)
    }
}

impl<T> vstd::std_specs::convert::FromSpecImpl<T> for Cell<T> {
    open spec fn obeys_from_spec() -> bool {
        true
    }

    closed spec fn from_spec(v: T) -> Self {
        Cell { value: v }
    }
}

/// Borrow state of a [`RefCell`]: no access granted, one write access, or
/// `n` read accesses.
#[derive(Debug, Clone, Copy, PartialEq, Eq, Structural, Default)]
pub enum RefState {
    #[default]
    Unshared,
    Exclusive,
    Shared(usize),
}

/// State after granting one more read access, or `None` when a writer holds
/// the cell.
pub open spec fn after_shared_borrow(s: RefState) -> Option<RefState> {
    match s {
        RefState::Unshared => Some(RefState::Shared(1)),
        RefState::Exclusive => None,
        RefState::Shared(n) => Some(RefState::Shared((n + 1) as usize)),
    }
}

/// State after granting write access, or `None` unless the cell is unshared.
pub open spec fn after_exclusive_borrow(s: RefState) -> Option<RefState> {
    match s {
        RefState::Unshared => Some(RefState::Exclusive),
        _ => None,
    }
}

/// State after one reader leaves: the last reader makes the cell unshared.
pub open spec fn after_shared_release(s: RefState) -> RefState {
    match s {
        RefState::Shared(n) => if n > 1 {
            RefState::Shared((n - 1) as usize)
        } else {
            RefState::Unshared
        },
        _ => RefState::Unshared,
    }
}

/// A shared count is never zero.
pub open spec fn valid_state(s: RefState) -> bool {
    s matches RefState::Shared(n) ==> n >= 1
}

/// A value with run-time tracked borrowing: any number of readers or one
/// writer at a time. Access is granted as a token ([`Ref`], [`RefMut`]) that
/// goes back to the cell exactly once, when it is released.
#[derive(Debug, Default)]
pub struct RefCell<T> {
    value: T,
    state: Cell<RefState>,
}

impl<T> View for RefCell<T> {
    type V = T;

    closed spec fn view(&self) -> T {
        self.value
    }
}

/// Token for read access to a [`RefCell`]; only the cell hands these out.
pub struct Ref {
    granted: (),
}

/// Token for write access to a [`RefCell`]; only the cell hands these out.
pub struct RefMut {
    granted: (),
}

impl<T> RefCell<T> {
    /// Current borrow state.
    pub closed spec fn borrow_state(&self) -> RefState {
        self.state@
    }

    pub open spec fn wf(&self) -> bool {
        valid_state(self.borrow_state())
    }

    /// Current borrow state.
    pub fn state(&self) -> (r: RefState)
        ensures
            r == self.borrow_state(),
    {
        self.state.get()
    }

    /// Returns an unshared cell holding `value`.
    pub fn new(value: T) -> (r: Self)
        ensures
            r.wf(),
            r@ == value,
            r.borrow_state() == RefState::Unshared,
    {
        RefCell { value, state: Cell::new(RefState::Unshared) }
    }

    /// Grants read access unless a writer holds the cell.
    pub fn try_borrow(&mut self) -> (r: Option<Ref>)
        requires
            old(self).wf(),
            old(self).borrow_state() != RefState::Shared(usize::MAX),
        ensures
            final(self).wf(),
            final(self)@ == old(self)@,
            r is Some <==> after_shared_borrow(old(self).borrow_state()) is Some,
            final(self).borrow_state() == match after_shared_borrow(old(self).borrow_state()) {
                Some(s) => s,
                None => old(self).borrow_state(),
            },
    {
        match self.state.get() {
            RefState::Unshared => {
                self.state.set(RefState::Shared(1));
                Some(Ref { granted: () })
            },
            RefState::Exclusive => None,
            RefState::Shared(count) => {
                self.state.set(RefState::Shared(count + 1));
                Some(Ref { granted: () })
            },
        }
    }

    /// Grants write access if no access is granted.
    pub fn try_borrow_mut(&mut self) -> (r: Option<RefMut>)
        requires
            old(self).wf(),
        ensures
            final(self).wf(),
            final(self)@ == old(self)@,
            r is Some <==> after_exclusive_borrow(old(self).borrow_state()) is Some,
            final(self).borrow_state() == match after_exclusive_borrow(old(self).borrow_state()) {
                Some(s) => s,
                None => old(self).borrow_state(),
            },
    {
        match self.state.get() {
            RefState::Unshared => {
                self.state.set(RefState::Exclusive);
                Some(RefMut { granted: () })
            },
            _ => None,
        }
    }

    /// Grants read access; the cell must not be held by a writer.
    pub fn borrow(&mut self) -> (r: Ref)
        requires
            old(self).wf(),
            old(self).borrow_state() != RefState::Exclusive,
            old(self).borrow_state() != RefState::Shared(usize::MAX),
        ensures
            final(self).wf(),
            final(self)@ == old(self)@,
            Some(final(self).borrow_state()) == after_shared_borrow(old(self).borrow_state()),
    {
        self.try_borrow().expect("already exclusively borrowed")
    }

    /// Grants write access; no access may be granted at the time.
    pub fn borrow_mut(&mut self) -> (r: RefMut)
        requires
            old(self).wf(),
            old(self).borrow_state() == RefState::Unshared,
        ensures
            final(self).wf(),
            final(self)@ == old(self)@,
            final(self).borrow_state() == RefState::Exclusive,
    {
        self.try_borrow_mut().expect("already borrowed")
    }
}

impl Ref {
    /// Reads the value of the cell this token was granted by.
    pub fn deref<'a, T>(&self, cell: &'a RefCell<T>) -> (r: &'a T)
        requires
            cell.borrow_state() is Shared,
        ensures
            *r == cell@,
    {
        &cell.value
    }

    /// Gives the read access back: the shared count drops by one, and the
    /// last reader leaves the cell unshared.
    pub fn release<T>(self, cell: &mut RefCell<T>)
        requires
            old(cell).wf(),
            old(cell).borrow_state() is Shared,
        ensures
            final(cell).wf(),
            final(cell)@ == old(cell)@,
            final(cell).borrow_state() == after_shared_release(old(cell).borrow_state()),
    {
        match cell.state.get() {
            RefState::Shared(1) => cell.state.set(RefState::Unshared),
            RefState::Shared(count) => cell.state.set(RefState::Shared(count - 1)),
            _ => {},
        }
    }
}

impl RefMut {
    /// Reads the value of the cell this token was granted by.
    pub fn deref<'a, T>(&self, cell: &'a RefCell<T>) -> (r: &'a T)
        requires
            cell.borrow_state() == RefState::Exclusive,
        ensures
            *r == cell@,
    {
        &cell.value
    }

    /// Write access to the value of the cell this token was granted by.
    pub fn deref_mut<'a, T>(&mut self, cell: &'a mut RefCell<T>) -> (r: &'a mut T)
        requires
            old(cell).borrow_state() == RefState::Exclusive,
        ensures
            *r == old(cell)@,
            final(cell)@ == *final(r),
            final(cell).borrow_state() == old(cell).borrow_state(),
    {
        &mut cell.value
    }

    /// Gives the write access back, leaving the cell unshared.
    pub fn release<T>(self, cell: &mut RefCell<T>)
        requires
            old(cell).borrow_state() == RefState::Exclusive,
        ensures
            final(cell).wf(),
            final(cell)@ == old(cell)@,
            final(cell).borrow_state() == RefState::Unshared,
    {
        cell.state.set(RefState::Unshared);
    }
}

/// State after granting `k` read accesses one after another, starting from
/// `s`; `None` once a grant is refused.
pub open spec fn after_shared_borrows(s: RefState, k: nat) -> Option<RefState>
    decreases k,
{
    if k == 0 {
        Some(s)
    } else {
        match after_shared_borrow(s) {
            Some(t) => after_shared_borrows(t, (k - 1) as nat),
            None => None,
        }
    }
}

/// State after `k` readers leave, starting from `s`.
pub open spec fn after_shared_releases(s: RefState, k: nat) -> RefState
    decreases k,
{
    if k == 0 {
        s
    } else {
        after_shared_releases(after_shared_release(s), (k - 1) as nat)
    }
}

proof fn lemma_grants_count_up(j: nat, k: nat)
    requires
        1 <= j,
        j + k <= usize::MAX,
    ensures
        after_shared_borrows(RefState::Shared(j as usize), k) == Some(
            RefState::Shared((j + k) as usize),
        ),
    decreases k,
{
    if k > 0 {
        lemma_grants_count_up(j + 1, (k - 1) as nat);
    }
}

proof fn lemma_releases_reach_unshared(j: nat)
    requires
        1 <= j <= usize::MAX,
    ensures
        after_shared_releases(RefState::Shared(j as usize), j) == RefState::Unshared,
    decreases j,
{
    if j > 1 {
        lemma_releases_reach_unshared((j - 1) as nat);
    } else {
        reveal_with_fuel(after_shared_releases, 2);
    }
}

/// Readers exclude a writer and only a writer: starting from an unshared
/// cell, any `k >= 1` read accesses are all granted and may be held at once;
/// while they are held, write access is refused; once all `k` have been
/// released the cell is unshared again and write access is granted. While a
/// writer holds the cell, read and write access are both refused.
pub proof fn lemma_readers_exclude_writer(k: nat)
    requires
        1 <= k <= usize::MAX,
    ensures
        after_shared_borrows(RefState::Unshared, k) == Some(RefState::Shared(k as usize)),
        after_exclusive_borrow(RefState::Shared(k as usize)) is None,
        after_shared_releases(RefState::Shared(k as usize), k) == RefState::Unshared,
        after_exclusive_borrow(RefState::Unshared) == Some(RefState::Exclusive),
        after_shared_borrow(RefState::Exclusive) is None,
        after_exclusive_borrow(RefState::Exclusive) is None,
{
    lemma_grants_count_up(1, (k - 1) as nat);
    lemma_releases_reach_unshared(k);
}

} // verus!
