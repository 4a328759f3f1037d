//! A fixed-capacity circular byte store for one producer and one consumer.

use crate::fifo;
use vstd::prelude::*;

verus! {

/// Why a `put` or a `get` did nothing.
#[derive(Clone, Copy, Debug, PartialEq, Eq, Structural)]
pub enum BufferError {
    /// Every usable slot is taken.
    BufferFull,
    /// Nothing is stored.
    BufferEmpty,
}

/// `N` byte slots and two cursors. One slot always stays free, so that equal
/// cursors mean "empty" and a write cursor directly behind the read cursor
/// means "full": `N - 1` bytes fit.
pub struct RingBuffer<const N: usize> {
    write: usize,
    read: usize,
    buffer: [u8; N],
}

/// The cursor that follows `cursor` in a ring of `n` slots.
pub open spec fn next_cursor(cursor: nat, n: nat) -> nat {
    ((cursor as int + 1) % (n as int)) as nat
}

/// Stepping a cursor either moves it up by one or wraps it to slot 0.
pub proof fn lemma_next_cursor(cursor: nat, n: nat)
    requires
        cursor < n,
    ensures
        next_cursor(cursor, n) == (if cursor + 1 == n {
            0
        } else {
            cursor + 1
        }),
{
    if cursor + 1 == n {
        vstd::arithmetic::div_mod::lemma_mod_self_0(n as int);
    } else {
        vstd::arithmetic::div_mod::lemma_small_mod(cursor + 1, n);
    }
}

/// The distance from `read` forward to `write` in a ring of `n` slots.
pub open spec fn ring_distance(write: nat, read: nat, n: nat) -> nat {
    ((write as int - read as int) % (n as int)) as nat
}

/// The forward distance is the difference of the cursors, taken round the
/// ring where the write cursor has wrapped and the read cursor has not.
pub proof fn lemma_ring_distance(write: nat, read: nat, n: nat)
    requires
        write < n,
        read < n,
    ensures
        ring_distance(write, read, n) == (if write >= read {
            write - read
        } else {
            write + n - read
        }),
{
    if write >= read {
        vstd::arithmetic::div_mod::lemma_small_mod((write - read) as nat, n);
    } else {
        vstd::arithmetic::div_mod::lemma_mod_add_multiples_vanish(write - read, n as int);
        vstd::arithmetic::div_mod::lemma_small_mod((write + n - read) as nat, n);
    }
}

impl<const N: usize> View for RingBuffer<N> {
    type V = Seq<u8>;

    /// The stored bytes, oldest first.
    open spec fn view(&self) -> Seq<u8> {
        if self.read_cursor() <= self.write_cursor() {
            self.slots().subrange(self.read_cursor() as int, self.write_cursor() as int)
        } else {
            self.slots().subrange(self.read_cursor() as int, N as int) + self.slots().subrange(
                0,
                self.write_cursor() as int,
            )
        }
    }
}

impl<const N: usize> RingBuffer<N> {
    /// The slot that the next `put` fills.
    pub closed spec fn write_cursor(&self) -> nat {
        self.write as nat
    }

    /// The slot that the next `get` reads.
    pub closed spec fn read_cursor(&self) -> nat {
        self.read as nat
    }

    /// The backing slots, all `N` of them.
    pub closed spec fn slots(&self) -> Seq<u8> {
        self.buffer@
    }

    /// Both cursors point at a slot. This holds of every buffer that exists
    /// at run time.
    #[verifier::type_invariant]
    pub open spec fn wf(&self) -> bool {
        &&& self.write_cursor() < N
        &&& self.read_cursor() < N
        &&& self.slots().len() == N
    }

    /// The cursors coincide.
    pub open spec fn spec_empty(&self) -> bool {
        self.write_cursor() == self.read_cursor()
    }

    /// The write cursor stands directly behind the read cursor.
    pub open spec fn spec_full(&self) -> bool {
        next_cursor(self.write_cursor(), N as nat) == self.read_cursor()
    }

    /// `(write - read) mod N`.
    pub open spec fn spec_data_size(&self) -> nat {
        ring_distance(self.write_cursor(), self.read_cursor(), N as nat)
    }

    /// What the cursor predicates say about the stored bytes: the distance of
    /// the cursors is their number, which never exceeds `N - 1`; "empty" is
    /// none, "full" is `N - 1`.
    pub proof fn lemma_cursors(&self)
        requires
            self.wf(),
        ensures
            self.spec_data_size() == self@.len(),
            self@.len() <= fifo::usable(N as nat),
            self.spec_empty() <==> self@.len() == 0,
            self.spec_full() <==> self@.len() == fifo::usable(N as nat),
            self.spec_full() <==> !fifo::accepts(N as nat, self@),
    {
        lemma_next_cursor(self.write_cursor(), N as nat);
        lemma_ring_distance(self.write_cursor(), self.read_cursor(), N as nat);
    }

    /// An empty store with both cursors at slot 0.
    pub fn new() -> (r: Self)
        requires
            N >= 1,
        ensures
            r.wf(),
            r@ == Seq::<u8>::empty(),
            r.write_cursor() == 0,
            r.read_cursor() == 0,
    {
        let r = RingBuffer { write: 0, read: 0, buffer: [0u8; N] };
        assert(r@ =~= Seq::<u8>::empty());
        r
    }

    /// Stores `byte` behind the bytes already stored, unless the store is
    /// full; then nothing changes.
    pub fn put(&mut self, byte: u8) -> (r: Result<(), BufferError>)
        ensures
            final(self).wf(),
            r == (if old(self).spec_full() {
                Err(BufferError::BufferFull)
            } else {
                Ok(())
            }),
            old(self).spec_full() ==> *final(self) == *old(self),
            !old(self).spec_full() ==> final(self).write_cursor() == next_cursor(
                old(self).write_cursor(),
                N as nat,
            ) && final(self).slots() == old(self).slots().update(
                old(self).write_cursor() as int,
                byte,
            ),
            final(self).read_cursor() == old(self).read_cursor(),
            old(self).spec_full() <==> !fifo::accepts(N as nat, old(self)@),
            final(self)@ == fifo::after_put(N as nat, old(self)@, byte),
        no_unwind
    {
        proof {
            use_type_invariant(&*self);
            self.lemma_cursors();
            lemma_next_cursor(self.write_cursor(), N as nat);
        }
        let next: usize = (self.write + 1) % N;
        if next != self.read {
            self.buffer[self.write] = byte;
            self.write = next;
            assert(self@ =~= old(self)@.push(byte));
            Ok(())
        } else {
            Err(BufferError::BufferFull)
        }
    }

    /// Takes the oldest stored byte, unless the store is empty; then nothing
    /// changes.
    pub fn get(&mut self) -> (r: Result<u8, BufferError>)
        ensures
            final(self).wf(),
            r == (if old(self).spec_empty() {
                Err(BufferError::BufferEmpty)
            } else {
                Ok(old(self)@[0])
            }),
            old(self).spec_empty() ==> *final(self) == *old(self),
            !old(self).spec_empty() ==> final(self).read_cursor() == next_cursor(
                old(self).read_cursor(),
                N as nat,
            ) && old(self)@[0] == old(self).slots()[old(self).read_cursor() as int],
            final(self).write_cursor() == old(self).write_cursor(),
            final(self).slots() == old(self).slots(),
            old(self).spec_empty() <==> old(self)@.len() == 0,
            final(self)@ == fifo::after_get(old(self)@),
        no_unwind
    {
        proof {
            use_type_invariant(&*self);
            self.lemma_cursors();
            lemma_next_cursor(self.read_cursor(), N as nat);
        }
        if self.write != self.read {
            let byte: u8 = self.buffer[self.read];
            self.read = (self.read + 1) % N;
            assert(self@ =~= old(self)@.drop_first());
            Ok(byte)
        } else {
            Err(BufferError::BufferEmpty)
        }
    }

    /// Whether nothing is stored.
    pub fn empty(&self) -> (r: bool)
        ensures
            r == self.spec_empty(),
            r == (self@.len() == 0),
    {
        proof {
            use_type_invariant(&*self);
            self.lemma_cursors();
        }
        self.write == self.read
    }

    /// Whether every usable slot is taken.
    pub fn full(&self) -> (r: bool)
        ensures
            r == self.spec_full(),
            r == (self@.len() == N - 1),
    {
        proof {
            use_type_invariant(&*self);
            self.lemma_cursors();
        }
        (self.write + 1) % N == self.read
    }

    /// The number of stored bytes.
    pub fn data_size(&self) -> (r: usize)
        ensures
            r == self.spec_data_size(),
            r == self@.len(),
            r <= N - 1,
    {
        proof {
            use_type_invariant(&*self);
            self.lemma_cursors();
            lemma_ring_distance(self.write_cursor(), self.read_cursor(), N as nat);
        }
        if self.write >= self.read {
            self.write - self.read
        } else {
            N - self.read + self.write
        }
    }
}

} // verus!
