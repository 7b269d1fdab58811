//! `RingBuf<T, N>`: a circular buffer of `N` slots. Its view is the
//! sequence of buffered items, oldest first.

use vstd::prelude::*;

use crate::model::{front, overwrite_model, read_model, recent_model, slot, write_model};

verus! {

/// Fixed-capacity circular buffer of `N` slots.
#[derive(Debug, Clone)]
pub struct RingBuf<T, const N: usize> {
    data: Vec<T>,
    write_head: usize,
    read_head: usize,
    count: usize,
}

impl<T, const N: usize> RingBuf<T, N> {
    /// The backing store has `N` slots, the buffer holds at most `N` items,
    /// and the next write goes to the slot just after the newest item.
    pub closed spec fn wf(&self) -> bool {
        &&& self.data@.len() == N
        &&& self.count <= N
        &&& (N == 0 ==> self.read_head == 0)
        &&& (N > 0 ==> self.read_head < N)
        &&& self.write_head as int == slot(self.read_head as int, self.count as int, N as int)
    }

    /// A well-formed buffer never holds more items than it has slots.
    pub proof fn lemma_len_bounded(&self)
        requires
            self.wf(),
        ensures
            self@.len() <= N,
    {
    }
}

impl<T, const N: usize> View for RingBuf<T, N> {
    type V = Seq<T>;

    closed spec fn view(&self) -> Seq<T> {
        Seq::new(
            self.count as nat,
            |i: int| self.data@[slot(self.read_head as int, i, N as int)],
        )
    }
}

/// The index that follows `i` in a store of `N` slots, wrapping to 0.
fn next_slot<const N: usize>(i: usize) -> (r: usize)
    requires
        i < N,
    ensures
        r as int == slot(i as int, 1, N as int),
        r < N,
{
    if i + 1 == N {
        0
    } else {
        i + 1
    }
}

impl<T: Clone + Default, const N: usize> RingBuf<T, N> {
    /// Create a new, empty ring buffer.
    pub fn new() -> (r: Self)
        requires
            N > 0,
        ensures
            r.wf(),
            r@ == Seq::<T>::empty(),
    {
        let mut data: Vec<T> = Vec::with_capacity(N);
        let mut i: usize = 0;
        while i < N
            invariant
                i <= N,
                data@.len() == i,
            decreases N - i,
        {
            data.push(T::default());
            i = i + 1;
        }
        let r = RingBuf { data, write_head: 0, read_head: 0, count: 0 };
        assert(r@ =~= Seq::<T>::empty());
        r
    }

    /// Write an item. Returns `false`, and leaves the buffer as it was, if
    /// the buffer is full.
    pub fn write(&mut self, item: T) -> (accepted: bool)
        requires
            old(self).wf(),
        ensures
            final(self).wf(),
            (final(self)@, accepted) == write_model(old(self)@, item, N as nat),
            accepted == (old(self)@.len() < N),
            accepted ==> final(self)@ == old(self)@.push(item),
            !accepted ==> final(self)@ == old(self)@,
    {
        if self.count == N {
            return false;
        }
        let wh = self.write_head;
        self.data[wh] = item;
        self.write_head = next_slot::<N>(wh);
        self.count = self.count + 1;
        assert(self@ =~= old(self)@.push(item));
        true
    }

    /// Write an item, overwriting the oldest if the buffer is full.
    pub fn write_overwrite(&mut self, item: T)
        requires
            old(self).wf(),
            N > 0,
        ensures
            final(self).wf(),
            final(self)@ == overwrite_model(old(self)@, item, N as nat),
            old(self)@.len() < N ==> final(self)@ == old(self)@.push(item),
            old(self)@.len() == N ==> final(self)@ == old(self)@.drop_first().push(item),
    {
        if self.count == N {
            self.read_head = next_slot::<N>(self.read_head);
        } else {
            self.count = self.count + 1;
        }
        let wh = self.write_head;
        self.data[wh] = item;
        self.write_head = next_slot::<N>(wh);
        proof {
            if old(self).count == N {
                assert(self@ =~= old(self)@.drop_first().push(item));
            } else {
                assert(self@ =~= old(self)@.push(item));
            }
        }
    }

    /// Read (consume) the oldest item.
    pub fn read(&mut self) -> (r: Option<T>)
        requires
            old(self).wf(),
        ensures
            final(self).wf(),
            (final(self)@, r) == read_model(old(self)@),
            old(self)@.len() == 0 ==> r is None && final(self)@ == old(self)@,
            old(self)@.len() > 0 ==> r == Some(old(self)@[0]) && final(self)@ == old(self)@.drop_first(),
    {
        if self.count == 0 {
            return None;
        }
        let rh = self.read_head;
        let mut item = T::default();
        std::mem::swap(&mut item, &mut self.data[rh]);
        self.read_head = next_slot::<N>(rh);
        self.count = self.count - 1;
        assert(self@ =~= old(self)@.drop_first());
        Some(item)
    }

    /// Peek at the oldest item without consuming it.
    pub fn peek(&self) -> (r: Option<&T>)
        requires
            self.wf(),
        ensures
            (match r {
                None => front(self@) is None,
                Some(x) => front(self@) == Some(*x),
            }),
            r is None <==> self@.len() == 0,
            r matches Some(x) ==> *x == self@[0],
    {
        if self.count == 0 {
            None
        } else {
            Some(&self.data[self.read_head])
        }
    }

    pub fn is_full(&self) -> (r: bool)
        requires
            self.wf(),
        ensures
            r == (self@.len() == N),
    {
        self.count == N
    }

    pub fn is_empty(&self) -> (r: bool)
        requires
            self.wf(),
        ensures
            r == (self@.len() == 0),
    {
        self.count == 0
    }

    pub fn len(&self) -> (r: usize)
        requires
            self.wf(),
        ensures
            r == self@.len(),
    {
        self.count
    }

    pub fn capacity(&self) -> (r: usize)
        ensures
            r == N,
    {
        N
    }

    /// Remaining write space.
    pub fn available(&self) -> (r: usize)
        requires
            self.wf(),
        ensures
            r == N - self@.len(),
    {
        N - self.count
    }

    /// Clear the buffer.
    pub fn clear(&mut self)
        requires
            old(self).wf(),
        ensures
            final(self).wf(),
            final(self)@ == Seq::<T>::empty(),
    {
        for i in 0..N
            invariant
                self.data@.len() == N,
        {
            self.data[i] = T::default();
        }
        self.write_head = 0;
        self.read_head = 0;
        self.count = 0;
        assert(self@ =~= Seq::<T>::empty());
    }

    /// Copy out the last `n` buffered items (all of them when fewer are
    /// buffered), newest last.
    pub fn recent(&self, n: usize) -> (out: Vec<T>)
        where T: Copy,
        requires
            self.wf(),
        ensures
            out@ == recent_model(self@, n as nat),
            out@.len() == if n < self@.len() { n as nat } else { self@.len() },
            out@ == self@.skip(self@.len() - out@.len()),
    {
        let n = if n < self.count { n } else { self.count };
        if n == 0 {
            assert(recent_model(self@, n as nat) =~= Seq::<T>::empty());
            return Vec::new();
        }
        let mut out: Vec<T> = Vec::with_capacity(n);
        let start_offset = self.count - n;
        let mut i: usize = 0;
        while i < n
            invariant
                self.wf(),
                n <= self.count,
                start_offset == self.count - n,
                i <= n,
                out@ =~= self@.subrange(start_offset as int, start_offset + i),
            decreases n - i,
        {
            let off = start_offset + i;
            let idx = if off < N - self.read_head {
                self.read_head + off
            } else {
                off - (N - self.read_head)
            };
            out.push(self.data[idx]);
            i = i + 1;
        }
        out
    }
}

impl<T: Clone + Default, const N: usize> Default for RingBuf<T, N> {
    /// An empty buffer, as `new` gives. With no slots at all (`N == 0`) it is
    /// an empty buffer of capacity 0, which accepts no item.
    fn default() -> (r: Self)
        ensures
            r.wf(),
            r@ == Seq::<T>::empty(),
    {
        if N > 0 {
            Self::new()
        } else {
            let r = RingBuf { data: Vec::new(), write_head: 0, read_head: 0, count: 0 };
            assert(r@ =~= Seq::<T>::empty());
            r
        }
    }
}

} // verus!
