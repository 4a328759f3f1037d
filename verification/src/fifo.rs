//! The mathematical model behind the ring buffer: a queue of bytes that is
//! bounded by a slot count of which one slot is always kept free.

use vstd::prelude::*;

verus! {

/// The number of bytes a store of `capacity` slots can hold.
pub open spec fn usable(capacity: nat) -> nat {
    (capacity - 1) as nat
}

/// Whether a store of `capacity` slots that holds `q` takes one more byte.
pub open spec fn accepts(capacity: nat, q: Seq<u8>) -> bool {
    q.len() + 1 < capacity
}

/// The queue after one attempt to store `byte`.
pub open spec fn after_put(capacity: nat, q: Seq<u8>, byte: u8) -> Seq<u8> {
    if accepts(capacity, q) {
        q.push(byte)
    } else {
        q
    }
}

/// The queue after one attempt to take a byte.
pub open spec fn after_get(q: Seq<u8>) -> Seq<u8> {
    if q.len() > 0 {
        q.drop_first()
    } else {
        q
    }
}

/// The queue after an attempt to store each byte of `bytes`, in order.
pub open spec fn after_puts(capacity: nat, q: Seq<u8>, bytes: Seq<u8>) -> Seq<u8>
    decreases bytes.len(),
{
    if bytes.len() == 0 {
        q
    } else {
        after_puts(capacity, after_put(capacity, q, bytes[0]), bytes.drop_first())
    }
}

/// The bytes that `n` attempts to take a byte hand out, in order.
pub open spec fn taken(q: Seq<u8>, n: nat) -> Seq<u8>
    decreases n,
{
    if n == 0 || q.len() == 0 {
        Seq::empty()
    } else {
        seq![q[0]] + taken(after_get(q), (n - 1) as nat)
    }
}

/// The queue that `n` attempts to take a byte leave behind.
pub open spec fn after_gets(q: Seq<u8>, n: nat) -> Seq<u8>
    decreases n,
{
    if n == 0 {
        q
    } else {
        after_gets(after_get(q), (n - 1) as nat)
    }
}

/// How many of `count` offered bytes a store of `capacity` slots that holds
/// `q` has room for.
pub open spec fn fitting(capacity: nat, q: Seq<u8>, count: nat) -> nat {
    if q.len() + count < capacity {
        count
    } else {
        (capacity - 1 - q.len()) as nat
    }
}

/// Storing a run of bytes stores the longest prefix that fits, in order, and
/// drops the rest.
pub proof fn lemma_after_puts(capacity: nat, q: Seq<u8>, bytes: Seq<u8>)
    requires
        q.len() < capacity,
    ensures
        after_puts(capacity, q, bytes) == q + bytes.take(
            fitting(capacity, q, bytes.len()) as int,
        ),
    decreases bytes.len(),
{
    let k = fitting(capacity, q, bytes.len());
    if bytes.len() == 0 {
        assert(q + bytes.take(k as int) =~= q);
    } else {
        let q1 = after_put(capacity, q, bytes[0]);
        let rest = bytes.drop_first();
        lemma_after_puts(capacity, q1, rest);
        let k1 = fitting(capacity, q1, rest.len());
        if accepts(capacity, q) {
            assert(k == k1 + 1);
            assert(q1 + rest.take(k1 as int) =~= q + bytes.take(k as int));
        } else {
            assert(k == 0 && k1 == 0);
            assert(q1 + rest.take(k1 as int) =~= q + bytes.take(k as int));
        }
    }
}

/// Taking as many bytes as a queue holds hands out the whole queue, in
/// order, and leaves it empty.
pub proof fn lemma_take_all(q: Seq<u8>)
    ensures
        taken(q, q.len()) == q,
        after_gets(q, q.len()) == Seq::<u8>::empty(),
    decreases q.len(),
{
    if q.len() == 0 {
        assert(taken(q, q.len()) =~= q);
        assert(after_gets(q, q.len()) =~= Seq::<u8>::empty());
    } else {
        lemma_take_all(q.drop_first());
        assert(seq![q[0]] + q.drop_first() =~= q);
    }
}

/// Round trip: a store of `capacity` slots that starts empty takes
/// `capacity - 1` bytes, every one of them, and the same number of takes
/// then hands them back in the order in which they were stored and leaves
/// the store empty.
pub proof fn lemma_round_trip(capacity: nat, bytes: Seq<u8>)
    requires
        capacity >= 1,
        bytes.len() == capacity - 1,
    ensures
        forall|i: int|
            0 <= i < bytes.len() ==> accepts(
                capacity,
                #[trigger] after_puts(capacity, Seq::empty(), bytes.take(i)),
            ),
        after_puts(capacity, Seq::empty(), bytes) == bytes,
        taken(bytes, bytes.len()) == bytes,
        after_gets(bytes, bytes.len()) == Seq::<u8>::empty(),
{
    let empty = Seq::<u8>::empty();
    assert forall|i: int| 0 <= i < bytes.len() implies accepts(
        capacity,
        #[trigger] after_puts(capacity, empty, bytes.take(i)),
    ) by {
        lemma_after_puts(capacity, empty, bytes.take(i));
        let k = fitting(capacity, empty, bytes.take(i).len());
        assert(k == i);
        assert(empty + bytes.take(i).take(k as int) =~= bytes.take(i));
    }
    lemma_after_puts(capacity, empty, bytes);
    assert(empty + bytes.take(bytes.len() as int) =~= bytes);
    lemma_take_all(bytes);
}

} // verus!
