//! The mathematical model of a ring buffer: a sequence of items, oldest
//! first, bounded by a capacity, with one spec function per operation.

use vstd::prelude::*;

verus! {

/// The physical slot that holds the item `i` places after the one stored at
/// `head`, in a backing store of `cap` slots (for `head < cap` and `i <= cap`).
pub open spec fn slot(head: int, i: int, cap: int) -> int {
    if head + i < cap {
        head + i
    } else {
        head + i - cap
    }
}

/// What `write` does: the item is appended when there is room, and the
/// returned flag says whether it was.
pub open spec fn write_model<T>(q: Seq<T>, item: T, cap: nat) -> (Seq<T>, bool) {
    if q.len() < cap {
        (q.push(item), true)
    } else {
        (q, false)
    }
}

/// What `write_overwrite` does: the item is appended, and when the buffer
/// was full the oldest item is dropped to make room.
pub open spec fn overwrite_model<T>(q: Seq<T>, item: T, cap: nat) -> Seq<T> {
    if q.len() < cap {
        q.push(item)
    } else {
        q.drop_first().push(item)
    }
}

/// The oldest item, if any.
pub open spec fn front<T>(q: Seq<T>) -> Option<T> {
    if q.len() == 0 {
        None
    } else {
        Some(q[0])
    }
}

/// What `read` does: the oldest item is removed and handed back.
pub open spec fn read_model<T>(q: Seq<T>) -> (Seq<T>, Option<T>) {
    if q.len() == 0 {
        (q, None)
    } else {
        (q.drop_first(), Some(q[0]))
    }
}

/// The last `n` items (all of them when there are fewer), oldest first.
pub open spec fn recent_model<T>(q: Seq<T>, n: nat) -> Seq<T> {
    if n < q.len() {
        q.skip(q.len() - n)
    } else {
        q
    }
}

/// The queue after writing each item of `ws` in turn with `write`.
pub open spec fn write_all<T>(q: Seq<T>, ws: Seq<T>, cap: nat) -> Seq<T>
    decreases ws.len(),
{
    if ws.len() == 0 {
        q
    } else {
        write_model(write_all(q, ws.drop_last(), cap), ws.last(), cap).0
    }
}

/// The queue after writing each item of `ws` in turn with `write_overwrite`.
pub open spec fn overwrite_all<T>(q: Seq<T>, ws: Seq<T>, cap: nat) -> Seq<T>
    decreases ws.len(),
{
    if ws.len() == 0 {
        q
    } else {
        overwrite_model(overwrite_all(q, ws.drop_last(), cap), ws.last(), cap)
    }
}

/// The queue left after `k` calls of `read`, and the items those calls
/// handed back, in the order they came.
pub open spec fn read_n<T>(q: Seq<T>, k: nat) -> (Seq<T>, Seq<T>)
    decreases k,
{
    if k == 0 {
        (q, Seq::empty())
    } else {
        let (rest, got) = read_n(q, (k - 1) as nat);
        match read_model(rest) {
            (after, Some(x)) => (after, got.push(x)),
            (after, None) => (after, got),
        }
    }
}

} // verus!
