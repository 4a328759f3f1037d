//! The serial transport: a transmit store, a receive store and the mirror of
//! the two interrupt-enable bits. The hardware stays outside: `output_byte`
//! hands out the byte that is to be written to the transmit register, and
//! `input_byte` is given what a read of the receive register returned.

use crate::fifo;
use crate::ring_buffer::RingBuffer;
use vstd::prelude::*;

verus! {

/// Why a transport operation did nothing.
#[derive(Clone, Copy, Debug, PartialEq, Eq, Structural)]
pub enum TransportError {
    /// The transmit store has no room.
    BufferFull,
    /// The transmit store holds nothing to send.
    BufferEmpty,
    /// The receive store has no room for the byte that arrived.
    ReceiveBufferFull,
    /// The peripheral had no byte to hand over.
    HardwareNotReady,
}

/// The interrupt-enable bits as the hardware register holds them: `true` is
/// unmasked.
#[derive(Clone, Copy, Debug, PartialEq, Eq, Structural)]
pub struct InterruptMask {
    pub transmit_ready: bool,
    pub receive_ready: bool,
}

/// What a transport stands for: two bounded queues and the mask bits.
pub struct TransportView {
    /// Slots per store; one of them stays free.
    pub capacity: nat,
    /// Bytes waiting to be sent, oldest first.
    pub transmit: Seq<u8>,
    /// Bytes that arrived, oldest first.
    pub receive: Seq<u8>,
    /// Whether each byte that arrives is also queued for sending.
    pub echo: bool,
    pub mask: InterruptMask,
}

impl TransportView {
    /// Both queues fit their stores.
    pub open spec fn bounded(self) -> bool {
        &&& self.transmit.len() < self.capacity
        &&& self.receive.len() < self.capacity
    }

    /// The transmit-ready interrupt is unmasked whenever a byte waits to be
    /// sent.
    pub open spec fn coherent(self) -> bool {
        self.transmit.len() > 0 ==> self.mask.transmit_ready
    }

    /// The same transport with another transmit-ready bit.
    pub open spec fn with_transmit_ready(self, unmasked: bool) -> Self {
        TransportView {
            mask: InterruptMask { transmit_ready: unmasked, receive_ready: self.mask.receive_ready },
            ..self
        }
    }

    /// What `output_byte` returns.
    pub open spec fn output_result(self) -> Result<u8, TransportError> {
        if self.transmit.len() > 0 {
            Ok(self.transmit[0])
        } else {
            Err(TransportError::BufferEmpty)
        }
    }

    /// The transport after `output_byte`.
    pub open spec fn after_output(self) -> Self {
        TransportView { transmit: fifo::after_get(self.transmit), ..self }
    }

    /// What `input_byte` returns when the read of the receive register gave
    /// `received`.
    pub open spec fn input_result(self, received: Option<u8>) -> Result<u8, TransportError> {
        match received {
            None => Err(TransportError::HardwareNotReady),
            Some(byte) => if fifo::accepts(self.capacity, self.receive) {
                Ok(byte)
            } else {
                Err(TransportError::ReceiveBufferFull)
            },
        }
    }

    /// The transport after `input_byte`: a byte that is accepted joins the
    /// receive queue and, with echo on, the transmit queue if that has room;
    /// a byte that is not accepted leaves no trace.
    pub open spec fn after_input(self, received: Option<u8>) -> Self {
        match self.input_result(received) {
            Ok(byte) => TransportView {
                receive: self.receive.push(byte),
                transmit: if self.echo {
                    fifo::after_put(self.capacity, self.transmit, byte)
                } else {
                    self.transmit
                },
                ..self
            },
            Err(_) => self,
        }
    }

    /// How many of `count` offered bytes `enqueue` stores.
    pub open spec fn enqueued(self, count: nat) -> nat {
        fifo::fitting(self.capacity, self.transmit, count)
    }

    /// The transport after `enqueue`: the bytes that fit follow those already
    /// waiting, the rest is dropped, and transmit-ready is unmasked.
    pub open spec fn after_enqueue(self, bytes: Seq<u8>) -> Self {
        TransportView {
            transmit: self.transmit + bytes.take(self.enqueued(bytes.len()) as int),
            ..self
        }.with_transmit_ready(true)
    }

    /// Queueing bytes leaves the queues within their stores and
    /// transmit-ready unmasked, so no byte waits behind a masked interrupt.
    pub proof fn lemma_enqueue_coherent(self, bytes: Seq<u8>)
        requires
            self.bounded(),
        ensures
            self.after_enqueue(bytes).bounded(),
            self.after_enqueue(bytes).mask.transmit_ready,
            self.after_enqueue(bytes).coherent(),
    {
    }

    /// What `dequeue` returns.
    pub open spec fn dequeue_result(self) -> Result<u8, TransportError> {
        if self.receive.len() > 0 {
            Ok(self.receive[0])
        } else {
            Err(TransportError::BufferEmpty)
        }
    }

    /// The transport after `dequeue`.
    pub open spec fn after_dequeue(self) -> Self {
        TransportView { receive: fifo::after_get(self.receive), ..self }
    }
}

/// A transmit and a receive store of `N` slots each, owned together with the
/// mirror of the interrupt-enable bits.
pub struct SerialTransport<const N: usize> {
    xmit: RingBuffer<N>,
    recv: RingBuffer<N>,
    echo: bool,
    mask: InterruptMask,
}

impl<const N: usize> View for SerialTransport<N> {
    type V = TransportView;

    closed spec fn view(&self) -> TransportView {
        TransportView {
            capacity: N as nat,
            transmit: self.xmit@,
            receive: self.recv@,
            echo: self.echo,
            mask: self.mask,
        }
    }
}

impl<const N: usize> SerialTransport<N> {
    /// Both stores are well formed. This holds of every transport that
    /// exists at run time.
    #[verifier::type_invariant]
    pub closed spec fn wf(&self) -> bool {
        &&& self.xmit.wf()
        &&& self.recv.wf()
    }

    /// A well-formed transport has `N` slots per store and queues that fit.
    pub proof fn lemma_wf(&self)
        requires
            self.wf(),
        ensures
            self@.capacity == N,
            self@.bounded(),
    {
        self.xmit.lemma_cursors();
        self.recv.lemma_cursors();
    }

    /// A transport with empty stores, transmit-ready masked and receive-ready
    /// unmasked.
    pub fn new(echo: bool) -> (r: Self)
        requires
            N >= 1,
        ensures
            r.wf(),
            r@.coherent(),
            r@ == (TransportView {
                capacity: N as nat,
                transmit: Seq::empty(),
                receive: Seq::empty(),
                echo,
                mask: InterruptMask { transmit_ready: false, receive_ready: true },
            }),
    {
        SerialTransport {
            xmit: RingBuffer::new(),
            recv: RingBuffer::new(),
            echo,
            mask: InterruptMask { transmit_ready: false, receive_ready: true },
        }
    }

    /// Takes the oldest byte that waits to be sent. `Ok` carries the byte
    /// that the caller now writes to the hardware transmit register; on
    /// `BufferEmpty` the hardware is left alone.
    pub fn output_byte(&mut self) -> (r: Result<u8, TransportError>)
        ensures
            final(self).wf(),
            r == old(self)@.output_result(),
            final(self)@ == old(self)@.after_output(),
    {
        proof {
            use_type_invariant(&*self);
        }
        match self.xmit.get() {
            Ok(byte) => Ok(byte),
            Err(_) => Err(TransportError::BufferEmpty),
        }
    }

    /// Takes in what a read of the hardware receive register returned:
    /// `None` where the peripheral had nothing. A byte goes to the receive
    /// store and, with echo on, to the transmit store as well; an echo that
    /// finds the transmit store full is dropped.
    pub fn input_byte(&mut self, received: Option<u8>) -> (r: Result<u8, TransportError>)
        ensures
            final(self).wf(),
            r == old(self)@.input_result(received),
            final(self)@ == old(self)@.after_input(received),
    {
        proof {
            use_type_invariant(&*self);
        }
        match received {
            None => Err(TransportError::HardwareNotReady),
            Some(byte) => {
                match self.recv.put(byte) {
                    Ok(()) => {
                        if self.echo {
                            let _ = self.xmit.put(byte);
                        }
                        Ok(byte)
                    },
                    Err(_) => Err(TransportError::ReceiveBufferFull),
                }
            },
        }
    }

    /// Queues one byte for sending and unmasks transmit-ready, whether or
    /// not the byte fit. The caller then enables the interrupt in hardware.
    pub fn enqueue_byte(&mut self, byte: u8) -> (r: Result<(), TransportError>)
        ensures
            final(self).wf(),
            r == (if fifo::accepts(old(self)@.capacity, old(self)@.transmit) {
                Ok(())
            } else {
                Err(TransportError::BufferFull)
            }),
            final(self)@ == old(self)@.after_enqueue(seq![byte]),
            final(self)@.coherent(),
    {
        proof {
            use_type_invariant(&*self);
            self.lemma_wf();
        }
        self.mask.transmit_ready = true;
        let stored = self.xmit.put(byte);
        proof {
            let q = old(self)@.transmit;
            if fifo::accepts(N as nat, q) {
                assert(seq![byte].take(1) =~= seq![byte]);
                assert(q + seq![byte] =~= q.push(byte));
            } else {
                assert(q + seq![byte].take(0) =~= q);
            }
        }
        match stored {
            Ok(()) => Ok(()),
            Err(_) => Err(TransportError::BufferFull),
        }
    }

    /// Queues `bytes` for sending, one at a time, and stops at the first
    /// byte that does not fit: the rest is dropped. Transmit-ready is
    /// unmasked afterwards even when nothing fit. Returns how many bytes
    /// were stored; the caller then enables the interrupt in hardware.
    pub fn enqueue(&mut self, bytes: &[u8]) -> (stored: usize)
        ensures
            final(self).wf(),
            stored == old(self)@.enqueued(bytes@.len()),
            final(self)@ == old(self)@.after_enqueue(bytes@),
            final(self)@.coherent(),
    {
        proof {
            use_type_invariant(&*self);
            self.lemma_wf();
        }
        let mut i: usize = 0;
        let mut room: bool = true;
        while room && i < bytes.len()
            invariant
                self.wf(),
                i <= bytes.len(),
                self.echo == old(self).echo,
                self.mask == old(self).mask,
                self.recv == old(self).recv,
                self.xmit@ == old(self).xmit@ + bytes@.take(i as int),
                !room ==> !fifo::accepts(N as nat, self.xmit@),
                i == fifo::fitting(N as nat, old(self).xmit@, i as nat),
            decreases bytes.len() - i + (if room { 1int } else { 0int }),
        {
            match self.xmit.put(bytes[i]) {
                Ok(()) => {
                    assert(bytes@.take(i + 1) =~= bytes@.take(i as int).push(bytes@[i as int]));
                    assert(old(self).xmit@ + bytes@.take(i + 1) =~= (old(self).xmit@ + bytes@.take(
                        i as int,
                    )).push(bytes@[i as int]));
                    i = i + 1;
                },
                Err(_) => {
                    room = false;
                },
            }
        }
        self.mask.transmit_ready = true;
        i
    }

    /// Takes the oldest byte that arrived.
    pub fn dequeue(&mut self) -> (r: Result<u8, TransportError>)
        ensures
            final(self).wf(),
            r == old(self)@.dequeue_result(),
            final(self)@ == old(self)@.after_dequeue(),
    {
        proof {
            use_type_invariant(&*self);
        }
        match self.recv.get() {
            Ok(byte) => Ok(byte),
            Err(_) => Err(TransportError::BufferEmpty),
        }
    }

    /// Asks for transmit-ready to be unmasked, as queueing bytes does, with
    /// no byte queued. The caller then enables the interrupt in hardware.
    pub fn request_transmit(&mut self)
        ensures
            final(self).wf(),
            final(self)@ == old(self)@.with_transmit_ready(true),
            old(self)@.coherent() ==> final(self)@.coherent(),
    {
        proof {
            use_type_invariant(&*self);
        }
        self.mask.transmit_ready = true;
    }

    /// Sets the mirror of the transmit-ready enable bit. Only the end of an
    /// interrupt invocation does this.
    pub(crate) fn set_transmit_ready(&mut self, unmasked: bool)
        ensures
            final(self).wf(),
            final(self)@ == old(self)@.with_transmit_ready(unmasked),
    {
        proof {
            use_type_invariant(&*self);
        }
        self.mask.transmit_ready = unmasked;
    }

    /// The mirror of the interrupt-enable bits.
    pub fn mask(&self) -> (r: InterruptMask)
        ensures
            r == self@.mask,
    {
        self.mask
    }

    /// Whether each byte that arrives is also queued for sending.
    pub fn echo(&self) -> (r: bool)
        ensures
            r == self@.echo,
    {
        self.echo
    }

    /// How many bytes wait to be sent.
    pub fn pending_transmit(&self) -> (r: usize)
        ensures
            r == self@.transmit.len(),
    {
        self.xmit.data_size()
    }

    /// How many bytes that arrived wait to be taken.
    pub fn pending_receive(&self) -> (r: usize)
        ensures
            r == self@.receive.len(),
    {
        self.recv.data_size()
    }
}

} // verus!
