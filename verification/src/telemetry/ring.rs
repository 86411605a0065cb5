//! A bounded ring that keeps its newest entries.
use vstd::prelude::*;

verus! {

/// A ring of at most `cap` entries, oldest first. A cap of zero turns capture off.
pub struct BoundedRing<T> {
    cap: usize,
    buf: Vec<T>,
}

/// The newest `cap` elements of `s`.
pub open spec fn newest<T>(s: Seq<T>, cap: nat) -> Seq<T> {
    if s.len() > cap {
        s.subrange(s.len() - cap, s.len() as int)
    } else {
        s
    }
}

impl<T> BoundedRing<T> {
    /// The configured capacity.
    pub closed spec fn capacity(self) -> nat {
        self.cap as nat
    }

    /// The entries held, oldest first.
    pub closed spec fn entries(self) -> Seq<T> {
        self.buf@
    }

    /// Never more entries than the capacity.
    pub open spec fn wf(self) -> bool {
        self.entries().len() <= self.capacity()
    }

    /// An empty ring.
    pub fn new(cap: usize) -> (r: Self)
        ensures
            r.wf(),
            r.capacity() == cap,
            r.entries() == Seq::<T>::empty(),
    {
        BoundedRing { cap, buf: Vec::new() }
    }

    /// Resize: shrinking drops the oldest entries.
    pub fn set_capacity(&mut self, cap: usize)
        requires
            old(self).wf(),
        ensures
            final(self).wf(),
            final(self).capacity() == cap,
            final(self).entries() == newest(old(self).entries(), cap as nat),
    {
        let ghost all = self.buf@;
        self.cap = cap;
        assert(all.subrange(0, all.len() as int) =~= all);
        while self.buf.len() > cap
            invariant
                self.cap == cap,
                self.buf@.len() <= all.len(),
                self.buf@.len() == all.len() || self.buf@.len() >= cap,
                self.buf@ == all.subrange(all.len() - self.buf@.len(), all.len() as int),
            decreases self.buf@.len(),
        {
            self.buf.remove(0);
            assert(self.buf@ =~= all.subrange(all.len() - self.buf@.len(), all.len() as int));
        }
    }

    /// Append one entry; the oldest goes when the ring is full. Nothing is kept at
    /// capacity zero.
    pub fn push(&mut self, entry: T)
        requires
            old(self).wf(),
        ensures
            final(self).wf(),
            final(self).capacity() == old(self).capacity(),
            final(self).entries() == newest(
                old(self).entries().push(entry),
                old(self).capacity(),
            ),
    {
        let ghost all = self.buf@;
        if self.cap == 0 {
            assert(newest(all.push(entry), 0) =~= all);
            return;
        }
        if self.buf.len() == self.cap {
            self.buf.remove(0);
        }
        self.buf.push(entry);
        assert(self.buf@ =~= newest(all.push(entry), self.cap as nat));
    }

    /// Drop everything held; the capacity stays.
    pub fn clear(&mut self)
        ensures
            final(self).wf(),
            final(self).capacity() == old(self).capacity(),
            final(self).entries() == Seq::<T>::empty(),
    {
        self.buf.clear();
    }

    /// Number of entries held.
    pub fn len(&self) -> (n: usize)
        ensures
            n == self.entries().len(),
    {
        self.buf.len()
    }
}

impl<T: Clone> BoundedRing<T> {
    /// Copies of the entries, newest first.
    pub fn snapshot(&self) -> (r: Vec<T>)
        ensures
            r@.len() == self.entries().len(),
            forall|i: int|
                0 <= i < r@.len() ==> cloned(
                    self.entries()[self.entries().len() - 1 - i],
                    #[trigger] r@[i],
                ),
    {
        let mut out: Vec<T> = Vec::new();
        let mut i: usize = self.buf.len();
        while i > 0
            invariant
                i <= self.buf@.len(),
                out@.len() == self.buf@.len() - i,
                forall|k: int|
                    0 <= k < out@.len() ==> cloned(
                        self.buf@[self.buf@.len() - 1 - k],
                        #[trigger] out@[k],
                    ),
            decreases i,
        {
            i -= 1;
            out.push(self.buf[i].clone());
        }
        out
    }
}

/// Shrinking to a larger or equal capacity first changes nothing: the newest entries
/// of the newest entries are the newest entries.
pub proof fn newest_composes<T>(s: Seq<T>, a: nat, b: nat)
    requires
        b <= a,
    ensures
        newest(newest(s, a), b) == newest(s, b),
{
    assert(newest(newest(s, a), b) =~= newest(s, b));
}

/// The entries of a ring of capacity `cap` that held `held`, after a run of pushes.
pub open spec fn after_run<T>(held: Seq<T>, run: Seq<T>, cap: nat) -> Seq<T>
    decreases run.len(),
{
    if run.len() == 0 {
        held
    } else {
        after_run(newest(held.push(run[0]), cap), run.drop_first(), cap)
    }
}

/// Any number of pushes leaves the newest entries of what was held and pushed.
pub proof fn a_run_leaves_the_newest<T>(held: Seq<T>, run: Seq<T>, cap: nat)
    requires
        held.len() <= cap,
    ensures
        after_run(held, run, cap) == newest(held + run, cap),
    decreases run.len(),
{
    if run.len() == 0 {
        assert(held + run =~= held);
    } else {
        let rest = run.drop_first();
        let next = newest(held.push(run[0]), cap);
        a_run_leaves_the_newest(next, rest, cap);
        assert(held.push(run[0]) + rest =~= held + run);
        assert(newest(next + rest, cap) =~= newest(held + run, cap));
    }
}

/// A push makes its entry the newest and moves the others back by one, each in its place;
/// only the oldest goes, and only from a full ring. A ring of no capacity keeps nothing.
pub proof fn a_push_comes_last<T>(ring: &mut BoundedRing<T>, entry: T, i: int)
    requires
        old(ring).wf(),
        call_ensures(BoundedRing::<T>::push, (ring, entry), ()),
    ensures
        ({
            let b = old(ring).entries();
            let a = final(ring).entries();
            &&& final(ring).capacity() == old(ring).capacity()
            &&& old(ring).capacity() == 0 ==> a.len() == 0
            &&& old(ring).capacity() > 0 ==> {
                &&& a.len() > 0
                &&& a[a.len() - 1] == entry
                &&& b.len() < old(ring).capacity() ==> a.len() == b.len() + 1
                &&& b.len() == old(ring).capacity() ==> a.len() == b.len()
                &&& 0 <= i < a.len() - 1 ==> a[a.len() - 2 - i] == b[b.len() - 1 - i]
            }
        }),
{
}

/// A new capacity keeps as many of the newest entries as it has room for, in their places,
/// and an empty ring stays empty; clearing takes them all, and the capacity stays.
pub proof fn a_resize_keeps_the_newest<T>(
    ring: &mut BoundedRing<T>,
    cap: usize,
    other: &mut BoundedRing<T>,
    fresh: BoundedRing<T>,
    n: usize,
    i: int,
)
    requires
        old(ring).wf(),
        call_ensures(BoundedRing::<T>::set_capacity, (ring, cap), ()),
        call_ensures(BoundedRing::<T>::clear, (other,), ()),
        call_ensures(BoundedRing::<T>::new, (cap,), fresh),
        call_ensures(BoundedRing::<T>::len, (&fresh,), n),
    ensures
        ({
            let b = old(ring).entries();
            let a = final(ring).entries();
            &&& final(ring).capacity() == cap
            &&& b.len() <= cap ==> a.len() == b.len()
            &&& b.len() > cap ==> a.len() == cap
            &&& 0 <= i < a.len() ==> a[a.len() - 1 - i] == b[b.len() - 1 - i]
        }),
        final(other).entries().len() == 0,
        final(other).capacity() == old(other).capacity(),
        n == 0,
        fresh.capacity() == cap,
{
}

} // verus!
