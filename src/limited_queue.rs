use vstd::prelude::*;
use vstd::slice::slice_subrange;

verus! {

/// An indexed queue with a fixed capacity `N`: once `N` elements are held,
/// pushing another one drops the oldest.
///
/// The elements live in a buffer that grows up to `N` slots and is then
/// reused as a ring; `end` is the slot of the most recent element.
#[derive(Clone, Debug)]
pub struct LimitedQueue<T, const N: usize> {
    queue: Vec<T>,
    end: usize,
}

impl<T, const N: usize> View for LimitedQueue<T, N> {
    type V = Seq<T>;

    /// The held elements, oldest first.
    closed spec fn view(&self) -> Seq<T> {
        if self.queue@.len() < N || self.queue@.len() == 0 {
            self.queue@
        } else {
            self.queue@.subrange(self.end + 1, N as int) + self.queue@.subrange(0, self.end + 1)
        }
    }
}

impl<T, const N: usize> LimitedQueue<T, N> {
    /// The buffer never outgrows the capacity, and once it is full `end`
    /// points into it.
    pub closed spec fn wf(&self) -> bool {
        &&& self.queue@.len() <= N
        &&& 0 < self.queue@.len() == N ==> self.end < N
        &&& 0 < self.queue@.len() < N ==> self.end == self.queue@.len() - 1
    }

    proof fn lemma_view_len(&self)
        requires
            self.wf(),
        ensures
            self@.len() == self.queue@.len(),
    {
    }

    /// An empty queue.
    pub fn new() -> (r: Self)
        ensures
            r.wf(),
            r@ == Seq::<T>::empty(),
    {
        LimitedQueue { queue: Vec::new(), end: 0 }
    }

    /// Appends `elem`, dropping the oldest element if the queue is full.
    pub fn push(&mut self, elem: T)
        requires
            N > 0,
            old(self).wf(),
        ensures
            final(self).wf(),
            final(self)@.len() <= N,
            final(self)@ == (if old(self)@.len() < N {
                old(self)@.push(elem)
            } else {
                old(self)@.drop_first().push(elem)
            }),
    {
        proof {
            self.lemma_view_len();
        }
        if self.queue.len() < N {
            self.queue.push(elem);
            self.end = self.queue.len() - 1;
            proof {
                if self.queue@.len() == N {
                    assert(self.queue@.subrange(self.end + 1, N as int) =~= Seq::<T>::empty());
                    assert(self.queue@.subrange(0, self.end + 1) =~= self.queue@);
                }
            }
        } else {
            let ghost before = self@;
            let next: usize = if self.end + 1 == N { 0 } else { self.end + 1 };
            self.queue.set(next, elem);
            self.end = next;
            assert(self@ =~= before.drop_first().push(elem));
        }
    }

    /// Whether the queue holds no element.
    pub fn is_empty(&self) -> (r: bool)
        requires
            self.wf(),
        ensures
            r == (self@.len() == 0),
    {
        proof {
            self.lemma_view_len();
        }
        self.queue.len() == 0
    }

    /// Whether the queue holds `N` elements.
    pub fn is_full(&self) -> (r: bool)
        requires
            self.wf(),
        ensures
            r == (self@.len() == N),
            self@.len() <= N,
    {
        proof {
            self.lemma_view_len();
        }
        self.queue.len() == N
    }

    /// The number of held elements.
    pub fn len(&self) -> (r: usize)
        requires
            self.wf(),
        ensures
            r == self@.len(),
            r <= N,
    {
        proof {
            self.lemma_view_len();
        }
        self.queue.len()
    }

    /// The most recent element, if any.
    pub fn last(&self) -> (r: Option<&T>)
        requires
            self.wf(),
        ensures
            self@.len() == 0 ==> r.is_none(),
            self@.len() > 0 ==> r == Some(&self@.last()),
    {
        proof {
            self.lemma_view_len();
        }
        if self.queue.len() == 0 {
            None
        } else {
            Some(&self.queue[self.end])
        }
    }

    /// The `idx`-th element, counting from the oldest.
    pub fn index(&self, idx: usize) -> (r: &T)
        requires
            self.wf(),
            idx < self@.len(),
        ensures
            *r == self@[idx as int],
    {
        proof {
            self.lemma_view_len();
        }
        if self.queue.len() < N {
            &self.queue[idx]
        } else {
            let split: usize = N - (self.end + 1);
            if idx < split {
                &self.queue[self.end + 1 + idx]
            } else {
                &self.queue[idx - split]
            }
        }
    }

    /// The held elements as two slices whose concatenation is the queue,
    /// oldest first; the first is empty unless the queue is full.
    pub fn as_slices(&self) -> (r: (&[T], &[T]))
        requires
            self.wf(),
        ensures
            r.0@ + r.1@ == self@,
            self@.len() <= N,
            self@.len() < N ==> r.0@.len() == 0,
    {
        proof {
            self.lemma_view_len();
        }
        let all = self.queue.as_slice();
        if self.queue.len() == N && N > 0 {
            (slice_subrange(all, self.end + 1, N), slice_subrange(all, 0, self.end + 1))
        } else {
            let len = self.queue.len();
            let r = (slice_subrange(all, 0, 0), slice_subrange(all, 0, len));
            assert(r.0@ + r.1@ =~= self@);
            r
        }
    }

    /// A double-ended iterator over the held elements, oldest first.
    pub fn iter(&self) -> (r: LimitedQueueIter<'_, T>)
        requires
            self.wf(),
        ensures
            r.wf(),
            r@ == self@,
    {
        let (head, tail) = self.as_slices();
        let back = head.len() + tail.len();
        let r = LimitedQueueIter { head, tail, front: 0, back };
        assert(r@ =~= self@);
        r
    }
}

impl<T, const N: usize> Default for LimitedQueue<T, N> {
    fn default() -> (r: Self)
        ensures
            r.wf(),
            r@ == Seq::<T>::empty(),
    {
        Self::new()
    }
}

/// Iterator over a [`LimitedQueue`]: the remaining elements are
/// `head ++ tail`, cut to the positions `front..back`.
pub struct LimitedQueueIter<'a, T> {
    head: &'a [T],
    tail: &'a [T],
    front: usize,
    back: usize,
}

impl<'a, T> View for LimitedQueueIter<'a, T> {
    type V = Seq<T>;

    /// The elements not yet yielded from either end, in order.
    closed spec fn view(&self) -> Seq<T> {
        (self.head@ + self.tail@).subrange(self.front as int, self.back as int)
    }
}

impl<'a, T> LimitedQueueIter<'a, T> {
    pub closed spec fn wf(&self) -> bool {
        self.front <= self.back <= self.head@.len() + self.tail@.len()
    }

    fn at(&self, pos: usize) -> (r: &'a T)
        requires
            pos < self.head@.len() + self.tail@.len(),
        ensures
            *r == (self.head@ + self.tail@)[pos as int],
    {
        if pos < self.head.len() {
            &self.head[pos]
        } else {
            &self.tail[pos - self.head.len()]
        }
    }

    /// Yields the oldest remaining element.
    pub fn next(&mut self) -> (r: Option<&'a T>)
        requires
            old(self).wf(),
        ensures
            final(self).wf(),
            old(self)@.len() == 0 ==> r.is_none() && final(self)@ == old(self)@,
            old(self)@.len() > 0 ==> r == Some(&old(self)@[0]) && final(self)@
                == old(self)@.drop_first(),
    {
        if self.front < self.back {
            let r = self.at(self.front);
            self.front = self.front + 1;
            assert(self@ =~= old(self)@.drop_first());
            Some(r)
        } else {
            None
        }
    }

    /// Yields the most recent remaining element.
    pub fn next_back(&mut self) -> (r: Option<&'a T>)
        requires
            old(self).wf(),
        ensures
            final(self).wf(),
            old(self)@.len() == 0 ==> r.is_none() && final(self)@ == old(self)@,
            old(self)@.len() > 0 ==> r == Some(&old(self)@.last()) && final(self)@
                == old(self)@.drop_last(),
    {
        if self.front < self.back {
            self.back = self.back - 1;
            let r = self.at(self.back);
            assert(self@ =~= old(self)@.drop_last());
            Some(r)
        } else {
            None
        }
    }

    /// Skips `n` elements and yields the one after them.
    pub fn nth(&mut self, n: usize) -> (r: Option<&'a T>)
        requires
            old(self).wf(),
        ensures
            final(self).wf(),
            n < old(self)@.len() ==> r == Some(&old(self)@[n as int]) && final(self)@
                == old(self)@.subrange(n + 1, old(self)@.len() as int),
            n >= old(self)@.len() ==> r.is_none() && final(self)@.len() == 0,
    {
        let remaining = self.back - self.front;
        if n < remaining {
            self.front = self.front + n;
            let r = self.at(self.front);
            self.front = self.front + 1;
            assert(self@ =~= old(self)@.subrange(n + 1, old(self)@.len() as int));
            Some(r)
        } else {
            self.front = self.back;
            None
        }
    }

    /// Consumes the iterator and yields its most recent remaining element.
    pub fn last(self) -> (r: Option<&'a T>)
        requires
            self.wf(),
        ensures
            self@.len() == 0 ==> r.is_none(),
            self@.len() > 0 ==> r == Some(&self@.last()),
    {
        let mut it = self;
        it.next_back()
    }

    /// The number of remaining elements.
    pub fn len(&self) -> (r: usize)
        requires
            self.wf(),
        ensures
            r == self@.len(),
    {
        self.back - self.front
    }

    /// Lower and upper bound on the remaining elements; both are exact.
    pub fn size_hint(&self) -> (r: (usize, Option<usize>))
        requires
            self.wf(),
        ensures
            r == (self@.len() as usize, Some(self@.len() as usize)),
    {
        let len = self.len();
        (len, Some(len))
    }
}

} // verus!
