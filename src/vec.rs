use vstd::layout::size_of;
use vstd::prelude::*;

verus! {

/// Capacity after one growth step: one slot for an empty region, twice as
/// many slots otherwise.
pub open spec fn next_capacity(cap: nat) -> nat {
    if cap == 0 {
        1
    } else {
        2 * cap
    }
}

/// `n` is one of 1, 2, 4, 8, ...
pub open spec fn is_power_of_two(n: nat) -> bool
    decreases n,
{
    if n <= 1 {
        n == 1
    } else {
        n % 2 == 0 && is_power_of_two(n / 2)
    }
}

/// A region of `cap` slots of `T` stays below the largest allocation size.
pub open spec fn layout_fits<T>(cap: nat) -> bool {
    cap * size_of::<T>() < isize::MAX
}

/// A growable contiguous buffer.
///
/// The buffer owns a region of `capacity` slots. The first `len` slots hold
/// the live values; the others are empty and never handed out.
pub struct Vec<T> {
    slots: std::vec::Vec<Option<T>>,
    len: usize,
}

impl<T> View for Vec<T> {
    type V = Seq<T>;

    /// The live values, in index order.
    closed spec fn view(&self) -> Seq<T> {
        Seq::new(self.len as nat, |i: int| self.slots@[i]->0)
    }
}

impl<T> Vec<T> {
    /// Number of slots in the owned region.
    pub closed spec fn spec_capacity(&self) -> nat {
        self.slots@.len()
    }

    /// The live prefix is filled, the rest of the region is empty, and the
    /// region's size follows the growth policy.
    pub closed spec fn wf(&self) -> bool {
        &&& size_of::<T>() > 0
        &&& self.len <= self.slots@.len()
        &&& forall|i: int| 0 <= i < self.len ==> (#[trigger] self.slots@[i]) is Some
        &&& forall|i: int| self.len <= i < self.slots@.len() ==> (#[trigger] self.slots@[i]) is None
        &&& self.slots@.len() == 0 || is_power_of_two(self.slots@.len())
        &&& layout_fits::<T>(self.slots@.len())
    }

    /// One more value fits, either in a spare slot or after one growth step
    /// whose region stays below the largest allocation size.
    pub open spec fn can_push(&self) -> bool {
        self@.len() < self.spec_capacity() || layout_fits::<T>(next_capacity(self.spec_capacity()))
    }

    /// Capacity after making room for one more value.
    pub open spec fn capacity_after_push(&self) -> nat {
        if self@.len() < self.spec_capacity() {
            self.spec_capacity()
        } else {
            next_capacity(self.spec_capacity())
        }
    }

    /// Returns an empty buffer that owns no region. Zero-sized element types
    /// are not supported.
    pub fn new() -> (r: Self)
        requires
            size_of::<T>() != 0,
        ensures
            r.wf(),
            r@ == Seq::<T>::empty(),
            r.spec_capacity() == 0,
    {
        let r = Vec { slots: std::vec::Vec::new(), len: 0 };
        assert(r@ =~= Seq::<T>::empty());
        r
    }

    /// Enlarges the region to the next capacity: one slot if there was
    /// none, twice as many otherwise. The live values stay where they are.
    fn grow(&mut self)
        requires
            old(self).wf(),
            layout_fits::<T>(next_capacity(old(self).spec_capacity())),
        ensures
            final(self).wf(),
            final(self)@ == old(self)@,
            final(self).spec_capacity() == next_capacity(old(self).spec_capacity()),
    {
        let cap = self.slots.len();
        let new_cap: usize = if cap == 0 {
            1
        } else {
            proof {
                let size = size_of::<T>();
                assert(2 * cap * size >= 2 * cap) by (nonlinear_arith)
                    requires
                        size >= 1,
                ;
            }
            cap * 2
        };
        let ghost before = self@;
        let ghost live = self.slots@;
        while self.slots.len() < new_cap
            invariant
                cap <= self.slots@.len() <= new_cap,
                new_cap == next_capacity(cap as nat),
                self.len <= cap,
                live.len() == cap,
                before == Seq::new(self.len as nat, |i: int| live[i]->0),
                forall|i: int| self.len <= i < self.slots@.len() ==> (#[trigger] self.slots@[i]) is None,
                forall|i: int| 0 <= i < self.len ==> #[trigger] self.slots@[i] == live[i],
            decreases new_cap - self.slots@.len(),
        {
            self.slots.push(None);
        }
        assert(self@ =~= before);
        assert(is_power_of_two(new_cap as nat));
    }

    /// Appends `item` after the live values, growing the region first when
    /// it is full.
    pub fn push(&mut self, item: T)
        requires
            old(self).wf(),
            old(self).can_push(),
        ensures
            final(self).wf(),
            final(self)@ == old(self)@.push(item),
            final(self).spec_capacity() == old(self).capacity_after_push(),
    {
        if self.len == self.slots.len() {
            self.grow();
        }
        let ghost before = self@;
        self.slots.set(self.len, Some(item));
        self.len = self.len + 1;
        assert(self@ =~= before.push(item));
    }

    /// Removes and returns the last live value, or `None` when the buffer is
    /// empty. The region keeps its size.
    pub fn pop(&mut self) -> (r: Option<T>)
        requires
            old(self).wf(),
        ensures
            final(self).wf(),
            final(self).spec_capacity() == old(self).spec_capacity(),
            old(self)@.len() == 0 ==> r is None && final(self)@ == old(self)@,
            old(self)@.len() > 0 ==> r == Some(old(self)@.last()) && final(self)@
                == old(self)@.drop_last(),
    {
        if self.len == 0 {
            return None;
        }
        self.len = self.len - 1;
        let mut out: Option<T> = None;
        self.slots.set_and_swap(self.len, &mut out);
        assert(self@ =~= old(self)@.drop_last());
        out
    }

    /// Places `value` at `index`, moving the values at `index..len` one
    /// slot to the right. The index must not exceed the length.
    pub fn insert(&mut self, index: usize, value: T)
        requires
            old(self).wf(),
            old(self).can_push(),
            index <= old(self)@.len(),
        ensures
            final(self).wf(),
            final(self)@ == old(self)@.insert(index as int, value),
            final(self)@[index as int] == value,
            forall|j: int| 0 <= j < index ==> #[trigger] final(self)@[j] == old(self)@[j],
            forall|j: int|
                index <= j < old(self)@.len() ==> #[trigger] final(self)@[j + 1] == old(self)@[j],
            final(self).spec_capacity() == old(self).capacity_after_push(),
    {
        if self.len == self.slots.len() {
            self.grow();
        }
        let ghost before = self@;
        let ghost live = self.slots@;
        let mut j: usize = self.len;
        while j > index
            invariant
                index <= j <= self.len < self.slots@.len(),
                self.slots@.len() == live.len(),
                before == Seq::new(self.len as nat, |i: int| live[i]->0),
                forall|i: int| 0 <= i < self.len ==> (#[trigger] live[i]) is Some,
                forall|i: int| 0 <= i < j ==> #[trigger] self.slots@[i] == live[i],
                self.slots@[j as int] is None,
                forall|i: int| j < i <= self.len ==> #[trigger] self.slots@[i] == live[i - 1],
                forall|i: int| self.len < i < self.slots@.len() ==> (#[trigger] self.slots@[i]) is None,
            decreases j,
        {
            let mut moved: Option<T> = None;
            self.slots.set_and_swap(j - 1, &mut moved);
            self.slots.set(j, moved);
            j = j - 1;
        }
        self.slots.set(index, Some(value));
        self.len = self.len + 1;
        assert(self@ =~= before.insert(index as int, value));
    }

    /// Takes out the value at `index`, moving the values after it one slot
    /// to the left. The index must be below the length.
    pub fn remove(&mut self, index: usize) -> (r: T)
        requires
            old(self).wf(),
            index < old(self)@.len(),
        ensures
            final(self).wf(),
            r == old(self)@[index as int],
            final(self)@ == old(self)@.remove(index as int),
            forall|j: int| 0 <= j < index ==> #[trigger] final(self)@[j] == old(self)@[j],
            forall|j: int|
                index <= j < final(self)@.len() ==> #[trigger] final(self)@[j] == old(self)@[j + 1],
            final(self).spec_capacity() == old(self).spec_capacity(),
    {
        let ghost before = self@;
        let ghost live = self.slots@;
        let mut out: Option<T> = None;
        self.slots.set_and_swap(index, &mut out);
        let mut j: usize = index;
        while j + 1 < self.len
            invariant
                index <= j < self.len <= self.slots@.len(),
                self.slots@.len() == live.len(),
                before == Seq::new(self.len as nat, |i: int| live[i]->0),
                forall|i: int| 0 <= i < self.len ==> (#[trigger] live[i]) is Some,
                forall|i: int| 0 <= i < index ==> #[trigger] self.slots@[i] == live[i],
                forall|i: int| index <= i < j ==> #[trigger] self.slots@[i] == live[i + 1],
                self.slots@[j as int] is None,
                forall|i: int| j < i < self.len ==> #[trigger] self.slots@[i] == live[i],
                forall|i: int| self.len <= i < self.slots@.len() ==> (#[trigger] self.slots@[i]) is None,
            decreases self.len - j,
        {
            let mut moved: Option<T> = None;
            self.slots.set_and_swap(j + 1, &mut moved);
            self.slots.set(j, moved);
            j = j + 1;
        }
        self.len = self.len - 1;
        assert(self@ =~= before.remove(index as int));
        out.unwrap()
    }

    /// Reads the live value at `index`.
    pub fn get(&self, index: usize) -> (r: &T)
        requires
            self.wf(),
            index < self@.len(),
        ensures
            *r == self@[index as int],
    {
        self.slots[index].as_ref().unwrap()
    }

    /// Gives write access to the live value at `index`; what is written
    /// there becomes the buffer's value at that index.
    pub fn get_mut(&mut self, index: usize) -> (r: &mut T)
        requires
            old(self).wf(),
            index < old(self)@.len(),
        ensures
            *r == old(self)@[index as int],
            final(self).wf(),
            final(self)@ == old(self)@.update(index as int, *final(r)),
            final(self).spec_capacity() == old(self).spec_capacity(),
    {
        self.slots[index].as_mut().unwrap()
    }

    /// Number of live values.
    pub fn len(&self) -> (r: usize)
        requires
            self.wf(),
        ensures
            r == self@.len(),
    {
        self.len
    }

    /// Whether the buffer holds no value.
    pub fn is_empty(&self) -> (r: bool)
        requires
            self.wf(),
        ensures
            r == (self@.len() == 0),
    {
        self.len() == 0
    }

    /// Number of slots in the owned region.
    pub fn capacity(&self) -> (r: usize)
        requires
            self.wf(),
        ensures
            r == self.spec_capacity(),
    {
        self.slots.len()
    }
}

impl<T> Default for Vec<T> {
    /// An empty buffer that owns no region.
    fn default() -> (r: Self)
        ensures
            r@ == Seq::<T>::empty(),
            r.spec_capacity() == 0,
            size_of::<T>() != 0 ==> r.wf(),
    {
        let r = Vec { slots: std::vec::Vec::new(), len: 0 };
        assert(r@ =~= Seq::<T>::empty());
        r
    }
}

impl<T> Vec<T> {
    /// Turns the buffer into an iterator that hands out its live values by
    /// value, in index order, and owns the region until it is dropped.
    pub fn into_iter(self) -> (r: IntoIter<T>)
        requires
            self.wf(),
        ensures
            r.wf(),
            r@ == self@,
            r.spec_capacity() == self.spec_capacity(),
    {
        let len = self.len;
        let r = IntoIter { slots: self.slots, start: 0, end: len };
        assert(r@ =~= self@);
        r
    }
}

/// Consuming iterator over a buffer's values. It owns the buffer's region;
/// the slots `start..end` still hold the values not yet handed out, and the
/// ones left over are dropped with the iterator.
pub struct IntoIter<T> {
    slots: std::vec::Vec<Option<T>>,
    start: usize,
    end: usize,
}

impl<T> View for IntoIter<T> {
    type V = Seq<T>;

    /// The values still to come, in order.
    closed spec fn view(&self) -> Seq<T> {
        Seq::new((self.end - self.start) as nat, |i: int| self.slots@[self.start + i]->0)
    }
}

impl<T> IntoIter<T> {
    /// Number of slots in the owned region.
    pub closed spec fn spec_capacity(&self) -> nat {
        self.slots@.len()
    }

    /// The slots `start..end` are filled and lie inside the region.
    pub closed spec fn wf(&self) -> bool {
        &&& self.start <= self.end <= self.slots@.len()
        &&& forall|i: int| self.start <= i < self.end ==> (#[trigger] self.slots@[i]) is Some
    }

    /// Hands out the next value, or `None` once all have been handed out.
    pub fn next(&mut self) -> (r: Option<T>)
        requires
            old(self).wf(),
        ensures
            final(self).wf(),
            final(self).spec_capacity() == old(self).spec_capacity(),
            old(self)@.len() == 0 ==> r is None && final(self)@ == old(self)@,
            old(self)@.len() > 0 ==> r == Some(old(self)@[0]) && final(self)@ == old(self)@.drop_first(),
    {
        if self.start == self.end {
            return None;
        }
        let mut out: Option<T> = None;
        self.slots.set_and_swap(self.start, &mut out);
        self.start = self.start + 1;
        assert(self@ =~= old(self)@.drop_first());
        out
    }

    /// Lower and upper bound of the number of values still to come; both
    /// are exact.
    pub fn size_hint(&self) -> (r: (usize, Option<usize>))
        requires
            self.wf(),
        ensures
            r.0 == self@.len(),
            r.1 == Some(self@.len() as usize),
    {
        let n = self.end - self.start;
        (n, Some(n))
    }
}

/// Contents after pushing the values of `vs` one by one, first to last.
pub open spec fn after_pushes<T>(s: Seq<T>, vs: Seq<T>) -> Seq<T>
    decreases vs.len(),
{
    if vs.len() == 0 {
        s
    } else {
        after_pushes(s.push(vs[0]), vs.drop_first())
    }
}

/// Values handed out by `k` pops from a buffer holding `s`, in the order
/// they come out; a pop on an empty buffer hands out nothing.
pub open spec fn popped<T>(s: Seq<T>, k: nat) -> Seq<T>
    decreases k,
{
    if k == 0 || s.len() == 0 {
        Seq::empty()
    } else {
        seq![s.last()] + popped(s.drop_last(), (k - 1) as nat)
    }
}

/// Contents after `k` pops from a buffer holding `s`.
pub open spec fn after_pops<T>(s: Seq<T>, k: nat) -> Seq<T>
    decreases k,
{
    if k == 0 || s.len() == 0 {
        s
    } else {
        after_pops(s.drop_last(), (k - 1) as nat)
    }
}

/// `vs` last to first.
pub open spec fn reversed<T>(vs: Seq<T>) -> Seq<T> {
    Seq::new(vs.len(), |i: int| vs[vs.len() - 1 - i])
}

/// Values handed out by `k` calls of `next` on an iterator with `rest` still
/// to come, in order.
pub open spec fn yielded<T>(rest: Seq<T>, k: nat) -> Seq<T>
    decreases k,
{
    if k == 0 || rest.len() == 0 {
        Seq::empty()
    } else {
        seq![rest[0]] + yielded(rest.drop_first(), (k - 1) as nat)
    }
}

proof fn lemma_after_pushes_appends<T>(s: Seq<T>, vs: Seq<T>)
    ensures
        after_pushes(s, vs) == s + vs,
    decreases vs.len(),
{
    if vs.len() == 0 {
        assert(s + vs =~= s);
    } else {
        lemma_after_pushes_appends(s.push(vs[0]), vs.drop_first());
        assert(s.push(vs[0]) + vs.drop_first() =~= s + vs);
    }
}

proof fn lemma_pop_appended<T>(s: Seq<T>, vs: Seq<T>, extra: nat)
    ensures
        popped(s + vs, vs.len() + extra) == reversed(vs) + popped(s, extra),
        after_pops(s + vs, vs.len() + extra) == after_pops(s, extra),
    decreases vs.len(),
{
    if vs.len() == 0 {
        assert(s + vs =~= s);
        assert(reversed(vs) + popped(s, extra) =~= popped(s, extra));
    } else {
        let k = vs.len() + extra;
        assert((s + vs).last() == vs.last());
        assert((s + vs).drop_last() =~= s + vs.drop_last());
        lemma_pop_appended(s, vs.drop_last(), extra);
        assert(seq![vs.last()] + (reversed(vs.drop_last()) + popped(s, extra)) =~= reversed(vs)
            + popped(s, extra));
    }
}

/// Stack discipline: pushing the values of `vs` onto a buffer holding `s`
/// and then popping as many times hands them back last to first and leaves
/// `s`. From an empty buffer, popping once more hands out nothing and the
/// buffer stays empty.
pub proof fn lemma_stack_discipline<T>(s: Seq<T>, vs: Seq<T>)
    ensures
        popped(after_pushes(s, vs), vs.len()) == reversed(vs),
        after_pops(after_pushes(s, vs), vs.len()) == s,
        popped(after_pushes(Seq::<T>::empty(), vs), vs.len() + 1) == reversed(vs),
        after_pops(after_pushes(Seq::<T>::empty(), vs), vs.len() + 1).len() == 0,
{
    lemma_after_pushes_appends(s, vs);
    lemma_pop_appended(s, vs, 0);
    assert(reversed(vs) + popped(s, 0) =~= reversed(vs));
    lemma_after_pushes_appends(Seq::<T>::empty(), vs);
    lemma_pop_appended(Seq::<T>::empty(), vs, 1);
    assert(reversed(vs) + popped(Seq::<T>::empty(), 1) =~= reversed(vs));
}

/// A consuming iterator over `n` values hands out exactly those values, in
/// order, and nothing after them however often `next` is called.
pub proof fn lemma_drain_in_order<T>(rest: Seq<T>, extra: nat)
    ensures
        yielded(rest, rest.len() + extra) == rest,
    decreases rest.len(),
{
    if rest.len() == 0 {
        assert(yielded(rest, extra) =~= rest);
    } else {
        lemma_drain_in_order(rest.drop_first(), extra);
        assert(seq![rest[0]] + rest.drop_first() =~= rest);
    }
}

} // verus!
