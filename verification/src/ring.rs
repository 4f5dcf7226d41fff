//! Fixed-capacity FIFO history buffer with overwrite-oldest semantics.

use vstd::prelude::*;

verus! {

/// What one push does to the retained contents: append when there is room,
/// otherwise drop the oldest value and append.
pub open spec fn ring_push_contents<T>(s: Seq<T>, cap: nat, value: T) -> Seq<T> {
    if s.len() < cap {
        s.push(value)
    } else {
        s.drop_first().push(value)
    }
}

/// What one push returns: the evicted oldest value when the buffer is full.
pub open spec fn ring_push_evicted<T>(s: Seq<T>, cap: nat, value: T) -> Option<T> {
    if s.len() < cap {
        None
    } else {
        Some(s[0])
    }
}

/// Contents of a ring of capacity `cap` after pushing every value of `values`
/// in order, starting from an empty ring.
pub open spec fn ring_run<T>(cap: nat, values: Seq<T>) -> Seq<T>
    decreases values.len(),
{
    if values.len() == 0 {
        Seq::empty()
    } else {
        ring_push_contents(ring_run(cap, values.drop_last()), cap, values.last())
    }
}

/// A run of pushes never grows the contents past the capacity: after `n`
/// pushes the ring holds `min(n, cap)` values.
pub proof fn lemma_ring_run_len<T>(cap: nat, values: Seq<T>)
    requires
        cap >= 1,
    ensures
        ring_run(cap, values).len() == if values.len() <= cap {
            values.len()
        } else {
            cap
        },
    decreases values.len(),
{
    if values.len() > 0 {
        lemma_ring_run_len(cap, values.drop_last());
    }
}

/// While a ring still has room, it retains every pushed value in order.
pub proof fn lemma_ring_run_underfull<T>(cap: nat, values: Seq<T>)
    requires
        values.len() <= cap,
    ensures
        ring_run(cap, values) == values,
    decreases values.len(),
{
    if values.len() == 0 {
        assert(ring_run(cap, values) =~= values);
    } else {
        lemma_ring_run_underfull(cap, values.drop_last());
        lemma_ring_run_len(cap, values.drop_last());
        assert(ring_run(cap, values) =~= values);
    }
}

/// Pushing `cap + 1` distinct-or-not values into an empty ring of capacity
/// `cap` returns the first-pushed value as the evicted result of the
/// `(cap + 1)`-th push, and the contents never exceed the capacity.
pub proof fn lemma_ring_eviction<T>(cap: nat, values: Seq<T>)
    requires
        cap >= 1,
        values.len() == cap + 1,
    ensures
        ring_push_evicted(ring_run(cap, values.take(cap as int)), cap, values[cap as int])
            == Some(values[0]),
        forall|n: int|
            0 <= n <= values.len() ==> #[trigger] ring_run(cap, values.take(n)).len() <= cap,
{
    lemma_ring_run_underfull(cap, values.take(cap as int));
    assert forall|n: int| 0 <= n <= values.len() implies #[trigger] ring_run(
        cap,
        values.take(n),
    ).len() <= cap by {
        lemma_ring_run_len(cap, values.take(n));
    }
}

/// Fixed capacity `size`; holds up to `size` most-recent values in insertion
/// order.  Pushing past the capacity evicts and returns the oldest value.
#[derive(Debug)]
pub struct Ring<T> {
    buffer: Vec<T>,
    size: usize,
}

impl<T> View for Ring<T> {
    type V = Seq<T>;

    closed spec fn view(&self) -> Seq<T> {
        self.buffer@
    }
}

impl<T> Ring<T> {
    /// The fixed capacity the ring was created with.
    pub closed spec fn capacity(&self) -> usize {
        self.size
    }

    /// The contents never exceed the capacity, and the capacity is positive.
    pub open spec fn wf(&self) -> bool {
        &&& self@.len() <= self.capacity()
        &&& self.capacity() >= 1
    }

    /// Creates an empty ring.  A capacity of zero is degenerate and is
    /// excluded: every caller must pick a capacity of at least one.
    pub fn new(size: usize) -> (r: Self)
        requires
            size >= 1,
        ensures
            r.wf(),
            r@ == Seq::<T>::empty(),
            r.capacity() == size,
    {
        Ring { buffer: Vec::new(), size }
    }

    /// Number of values currently held.
    pub fn len(&self) -> (r: usize)
        ensures
            r == self@.len(),
    {
        self.buffer.len()
    }

    /// The value at position `index`, oldest first.
    pub fn get(&self, index: usize) -> (r: &T)
        requires
            index < self@.len(),
        ensures
            *r == self@[index as int],
    {
        &self.buffer[index]
    }

    /// The oldest retained value.
    pub fn front(&self) -> (r: &T)
        requires
            self@.len() > 0,
        ensures
            *r == self@[0],
    {
        &self.buffer[0]
    }

    /// Inserts `value`; when the ring is already full, evicts and returns the
    /// oldest value first, so the contents never grow beyond the capacity.
    pub fn push(&mut self, value: T) -> (r: Option<T>)
        requires
            old(self).wf(),
        ensures
            final(self).wf(),
            final(self).capacity() == old(self).capacity(),
            final(self)@ == ring_push_contents(old(self)@, old(self).capacity() as nat, value),
            r == ring_push_evicted(old(self)@, old(self).capacity() as nat, value),
    {
        if self.buffer.len() >= self.size {
            let result = self.pop();
            self.buffer.push(value);
            result
        } else {
            self.buffer.push(value);
            None
        }
    }

    /// Removes and returns the oldest value, if any.
    pub fn pop(&mut self) -> (r: Option<T>)
        ensures
            final(self).capacity() == old(self).capacity(),
            old(self)@.len() == 0 ==> r is None && final(self)@ == old(self)@,
            old(self)@.len() > 0 ==> r == Some(old(self)@[0]) && final(self)@
                == old(self)@.drop_first(),
    {
        if self.buffer.len() == 0 {
            None
        } else {
            let value = self.buffer.remove(0);
            assert(self.buffer@ =~= old(self).buffer@.drop_first());
            Some(value)
        }
    }
}

} // verus!
