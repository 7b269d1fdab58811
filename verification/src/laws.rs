//! Properties of the ring buffer that span several operations, stated over
//! the model that the operations' contracts use.

use vstd::prelude::*;

use crate::model::{
    front, overwrite_all, overwrite_model, read_model, read_n, recent_model, write_all,
    write_model,
};

verus! {

/// Writing items one by one with `write` into a buffer that has room for
/// all of them appends them all, in order.
pub proof fn law_writes_append<T>(q: Seq<T>, ws: Seq<T>, cap: nat)
    requires
        q.len() + ws.len() <= cap,
    ensures
        write_all(q, ws, cap) == q + ws,
    decreases ws.len(),
{
    if ws.len() == 0 {
        assert(q + ws =~= q);
    } else {
        law_writes_append(q, ws.drop_last(), cap);
        assert(q + ws =~= (q + ws.drop_last()).push(ws.last()));
    }
}

/// Every `write` into a full buffer is refused and changes nothing.
pub proof fn law_full_rejects_writes<T>(q: Seq<T>, ws: Seq<T>, cap: nat)
    requires
        q.len() >= cap,
    ensures
        write_all(q, ws, cap) == q,
    decreases ws.len(),
{
    if ws.len() > 0 {
        law_full_rejects_writes(q, ws.drop_last(), cap);
    }
}

/// `k` reads hand back the `k` oldest items, oldest first, and leave the
/// rest; reads past the last item hand back nothing more.
pub proof fn law_reads_take_oldest<T>(q: Seq<T>, k: nat)
    ensures
        k <= q.len() ==> read_n(q, k) == (q.skip(k as int), q.take(k as int)),
        k > q.len() ==> read_n(q, k) == (Seq::<T>::empty(), q),
    decreases k,
{
    if k > 0 {
        law_reads_take_oldest(q, (k - 1) as nat);
        if k <= q.len() {
            assert(q.skip(k - 1).drop_first() =~= q.skip(k as int));
            assert(q.take(k - 1).push(q.skip(k - 1)[0]) =~= q.take(k as int));
        } else if k - 1 == q.len() {
            assert(q.skip(q.len() as int) =~= Seq::<T>::empty());
            assert(q.take(q.len() as int) =~= q);
        }
    }
}

/// First in, first out: items written into an empty buffer that has room
/// for all of them are read back in the order they were written, and the
/// buffer is then empty again.
pub proof fn law_fifo<T>(ws: Seq<T>, cap: nat)
    requires
        ws.len() <= cap,
    ensures
        read_n(write_all(Seq::<T>::empty(), ws, cap), ws.len()) == (Seq::<T>::empty(), ws),
{
    law_writes_append(Seq::<T>::empty(), ws, cap);
    assert(Seq::<T>::empty() + ws =~= ws);
    law_reads_take_oldest(ws, ws.len());
    assert(ws.skip(ws.len() as int) =~= Seq::<T>::empty());
    assert(ws.take(ws.len() as int) =~= ws);
}

/// While there is room, `write_overwrite` does what `write` does.
pub proof fn law_overwrite_with_room_is_write<T>(q: Seq<T>, item: T, cap: nat)
    requires
        q.len() < cap,
    ensures
        overwrite_model(q, item, cap) == write_model(q, item, cap).0,
        write_model(q, item, cap).1,
{
}

/// Writing items with `write_overwrite` keeps exactly the `cap` most recent
/// of all the items, old and new, oldest first.
pub proof fn law_overwrite_keeps_latest<T>(q: Seq<T>, ws: Seq<T>, cap: nat)
    requires
        cap > 0,
        q.len() <= cap,
    ensures
        overwrite_all(q, ws, cap) == recent_model(q + ws, cap),
        overwrite_all(q, ws, cap).len() <= cap,
    decreases ws.len(),
{
    if ws.len() == 0 {
        assert(q + ws =~= q);
    } else {
        let prev = overwrite_all(q, ws.drop_last(), cap);
        law_overwrite_keeps_latest(q, ws.drop_last(), cap);
        let all = q + ws;
        let before = q + ws.drop_last();
        assert(all =~= before.push(ws.last()));
        if before.len() < cap {
            assert(prev == before);
        } else {
            assert(prev =~= before.skip(before.len() - cap));
            if before.len() == cap {
                assert(prev =~= before);
            }
            assert(prev.drop_first().push(ws.last()) =~= all.skip(all.len() - cap));
        }
    }
}

/// `peek` shows the item that the next `read` hands back.
pub proof fn law_peek_is_next_read<T>(q: Seq<T>)
    ensures
        front(q) == read_model(q).1,
{
}

/// The recent items are the newest `min(n, len)` items, oldest first.
pub proof fn law_recent_is_newest_suffix<T>(q: Seq<T>, n: nat)
    ensures
        recent_model(q, n).len() == if n < q.len() { n } else { q.len() },
        forall|i: int|
            0 <= i < recent_model(q, n).len() ==> #[trigger] recent_model(q, n)[i] == q[q.len()
                - recent_model(q, n).len() + i],
{
}

/// `write` accepts an item exactly when the buffer has room. An accepted
/// item becomes the newest, behind every item that was already there; a
/// refused item leaves the buffer as it was.
pub proof fn law_write_accepts_exactly_with_room<T>(q: Seq<T>, item: T, cap: nat)
    ensures
        write_model(q, item, cap).1 <==> q.len() < cap,
        q.len() >= cap ==> !write_model(q, item, cap).1 && write_model(q, item, cap).0 == q,
        q.len() < cap ==> {
            let r = write_model(q, item, cap).0;
            &&& r.len() == q.len() + 1
            &&& r[q.len() as int] == item
            &&& forall|i: int| 0 <= i < q.len() ==> #[trigger] r[i] == q[i]
        },
        write_model(q, item, cap).1 <==> write_model(q, item, cap).0.len() == q.len() + 1,
{
}

/// `write_overwrite` always stores the item as the newest. The buffer grows
/// by one while there is room; once full, its length stays at the capacity
/// and exactly the oldest item is dropped.
pub proof fn law_overwrite_stores_newest<T>(q: Seq<T>, item: T, cap: nat)
    requires
        cap > 0,
        q.len() <= cap,
    ensures
        ({
            let r = overwrite_model(q, item, cap);
            let kept = (r.len() - 1) as int;
            &&& r.len() == if q.len() < cap { q.len() + 1 } else { cap }
            &&& r[kept] == item
            &&& forall|i: int| 0 <= i < kept ==> #[trigger] r[i] == q[q.len() - kept + i]
        }),
{
}

/// `read` hands back the oldest item and removes only that item; on an
/// empty buffer it hands back nothing and changes nothing. `front` (what
/// `peek` shows) is that same item.
pub proof fn law_read_removes_oldest<T>(q: Seq<T>)
    ensures
        read_model(q).1 is None <==> q.len() == 0,
        q.len() == 0 ==> read_model(q).0 == q,
        q.len() > 0 ==> {
            let rest = read_model(q).0;
            &&& read_model(q).1 == Some(q[0])
            &&& rest.len() == q.len() - 1
            &&& forall|i: int| 0 <= i < rest.len() ==> #[trigger] rest[i] == q[i + 1]
        },
        front(q) is None <==> q.len() == 0,
        q.len() > 0 ==> front(q) == Some(q[0]),
{
}

} // verus!
