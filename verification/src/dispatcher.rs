//! The per-interrupt protocol. One invocation looks at a snapshot of the
//! readiness events, moves at most one byte each way, and decides once, at
//! its end, what happens to the transmit-ready enable bit.

use crate::transport::{SerialTransport, TransportError, TransportView};
use vstd::prelude::*;

verus! {

/// Which readiness events the hardware signals, read once per invocation.
#[derive(Clone, Copy, Debug, PartialEq, Eq, Structural)]
pub struct ReadyEvents {
    pub transmit_ready: bool,
    pub receive_ready: bool,
}

/// What an invocation does to the transmit-ready enable bit.
#[derive(Clone, Copy, Debug, PartialEq, Eq, Structural)]
pub enum MaskAction {
    /// Leave the bit as it is.
    Keep,
    /// Enable the interrupt.
    Unmask,
    /// Disable the interrupt.
    Mask,
}

/// What one invocation asks of the hardware, and what it saw.
#[derive(Clone, Copy, Debug, PartialEq, Eq)]
pub struct Serviced {
    /// The byte to write to the transmit register, if any.
    pub transmit: Option<u8>,
    /// How the byte that arrived fared; `None` where receive-ready was not
    /// signaled.
    pub input: Option<Result<u8, TransportError>>,
    /// The one change to make to the transmit-ready enable bit.
    pub action: MaskAction,
}

/// The single decision that two recorded wishes come to: a wish to unmask
/// wins over a wish to mask.
pub open spec fn resolve(unmask: bool, mask: bool) -> MaskAction {
    if unmask {
        MaskAction::Unmask
    } else if mask {
        MaskAction::Mask
    } else {
        MaskAction::Keep
    }
}

/// The transport with `action` applied to the mirror of the enable bit.
pub open spec fn applied(v: TransportView, action: MaskAction) -> TransportView {
    match action {
        MaskAction::Keep => v,
        MaskAction::Unmask => v.with_transmit_ready(true),
        MaskAction::Mask => v.with_transmit_ready(false),
    }
}

/// The byte that the transmit step hands to the hardware.
pub open spec fn transmitted(v: TransportView, events: ReadyEvents) -> Option<u8> {
    if events.transmit_ready && v.transmit.len() > 0 {
        Some(v.transmit[0])
    } else {
        None
    }
}

/// Whether the transmit step wishes transmit-ready masked: it was signaled
/// and there was nothing to send.
pub open spec fn mask_wanted(v: TransportView, events: ReadyEvents) -> bool {
    events.transmit_ready && v.transmit.len() == 0
}

/// The transport after the transmit step.
pub open spec fn after_transmit(v: TransportView, events: ReadyEvents) -> TransportView {
    if events.transmit_ready {
        v.after_output()
    } else {
        v
    }
}

/// How the receive step fared.
pub open spec fn input_outcome(v: TransportView, events: ReadyEvents, received: Option<u8>) -> Option<
    Result<u8, TransportError>,
> {
    if events.receive_ready {
        Some(v.input_result(received))
    } else {
        None
    }
}

/// Whether the receive step wishes transmit-ready unmasked: a byte was
/// taken in.
pub open spec fn unmask_wanted(v: TransportView, events: ReadyEvents, received: Option<u8>) -> bool {
    events.receive_ready && v.input_result(received) is Ok
}

/// The transport after the receive step.
pub open spec fn after_receive(
    v: TransportView,
    events: ReadyEvents,
    received: Option<u8>,
) -> TransportView {
    if events.receive_ready {
        v.after_input(received)
    } else {
        v
    }
}

/// What a whole invocation reports.
pub open spec fn serviced(v: TransportView, events: ReadyEvents, received: Option<u8>) -> Serviced {
    let sent = after_transmit(v, events);
    Serviced {
        transmit: transmitted(v, events),
        input: input_outcome(sent, events, received),
        action: resolve(unmask_wanted(sent, events, received), mask_wanted(v, events)),
    }
}

/// The transport after a whole invocation: the transmit step, the receive
/// step, then the one decision applied.
pub open spec fn after_service(
    v: TransportView,
    events: ReadyEvents,
    received: Option<u8>,
) -> TransportView {
    applied(
        after_receive(after_transmit(v, events), events, received),
        serviced(v, events, received).action,
    )
}

/// One invocation leaves the queues within their stores, and if
/// transmit-ready was unmasked whenever a byte waited before it, the same
/// holds after it.
pub proof fn lemma_service_keeps_coherent(
    v: TransportView,
    events: ReadyEvents,
    received: Option<u8>,
)
    requires
        v.bounded(),
        v.coherent(),
    ensures
        after_service(v, events, received).bounded(),
        after_service(v, events, received).coherent(),
{
}

/// An invocation that finds transmit-ready signaled, nothing to send and no
/// byte to take in masks transmit-ready.
pub proof fn lemma_drained_masks(v: TransportView, events: ReadyEvents, received: Option<u8>)
    requires
        events.transmit_ready,
        v.transmit.len() == 0,
        !(events.receive_ready && v.input_result(received) is Ok),
    ensures
        serviced(v, events, received).action == MaskAction::Mask,
        !after_service(v, events, received).mask.transmit_ready,
        after_service(v, events, received).transmit.len() == 0,
{
}

/// An invocation that takes a byte in unmasks transmit-ready, whatever the
/// transmit step wished.
pub proof fn lemma_input_unmasks(v: TransportView, events: ReadyEvents, received: Option<u8>)
    requires
        events.receive_ready,
        after_transmit(v, events).input_result(received) is Ok,
    ensures
        serviced(v, events, received).action == MaskAction::Unmask,
        after_service(v, events, received).mask.transmit_ready,
{
}

/// A byte that arrives while nothing waits to be sent, with echo on and room
/// in the receive store, is taken in, is then the one byte that waits to be
/// sent, and the invocation unmasks transmit-ready.
pub proof fn lemma_echo_unmasks(v: TransportView, events: ReadyEvents, byte: u8)
    requires
        v.bounded(),
        v.echo,
        v.transmit.len() == 0,
        v.receive.len() + 1 < v.capacity,
        events.receive_ready,
    ensures
        serviced(v, events, Some(byte)).input == Some(v.input_result(Some(byte))),
        v.input_result(Some(byte)) is Ok,
        serviced(v, events, Some(byte)).action == MaskAction::Unmask,
        after_service(v, events, Some(byte)).transmit == seq![byte],
        after_service(v, events, Some(byte)).mask.transmit_ready,
{
    assert(Seq::<u8>::empty().push(byte) =~= seq![byte]);
    assert(v.transmit =~= Seq::<u8>::empty());
}

/// The last byte that waits goes out on an invocation that keeps
/// transmit-ready as it is, and the next invocation that finds
/// transmit-ready signaled and takes no byte in masks it.
pub proof fn lemma_last_byte_then_mask(v: TransportView, received: Option<u8>)
    requires
        v.bounded(),
        v.transmit.len() == 1,
    ensures
        ({
            let tx = ReadyEvents { transmit_ready: true, receive_ready: false };
            let first = serviced(v, tx, received);
            let emptied = after_service(v, tx, received);
            &&& first.transmit == Some(v.transmit[0])
            &&& first.action == MaskAction::Keep
            &&& emptied.transmit.len() == 0
            &&& serviced(emptied, tx, received).action == MaskAction::Mask
            &&& !after_service(emptied, tx, received).mask.transmit_ready
        }),
{
}

/// One interrupt invocation in progress: the snapshot of the events and the
/// wishes recorded so far. Nothing is applied before `finish`.
pub struct InterruptDispatcher {
    events: ReadyEvents,
    unmask: bool,
    mask: bool,
}

impl InterruptDispatcher {
    /// The snapshot this invocation works from.
    pub closed spec fn events(&self) -> ReadyEvents {
        self.events
    }

    /// Whether a wish to unmask transmit-ready is recorded.
    pub closed spec fn unmask_pending(&self) -> bool {
        self.unmask
    }

    /// Whether a wish to mask transmit-ready is recorded.
    pub closed spec fn mask_pending(&self) -> bool {
        self.mask
    }

    /// Starts an invocation from a snapshot of the events, with no wish
    /// recorded.
    pub fn begin(events: ReadyEvents) -> (r: Self)
        ensures
            r.events() == events,
            !r.unmask_pending(),
            !r.mask_pending(),
    {
        InterruptDispatcher { events, unmask: false, mask: false }
    }

    /// Whether the receive step needs a read of the hardware receive
    /// register.
    pub fn wants_read(&self) -> (r: bool)
        ensures
            r == self.events().receive_ready,
    {
        self.events.receive_ready
    }

    /// The transmit step. Where transmit-ready was signaled, takes one byte
    /// from the transmit store and returns it for the caller to write to the
    /// hardware; where the store was empty, records the wish to mask.
    pub fn transmit<const N: usize>(&mut self, transport: &mut SerialTransport<N>) -> (r: Option<u8>)
        ensures
            final(transport).wf(),
            r == transmitted(old(transport)@, old(self).events()),
            final(transport)@ == after_transmit(old(transport)@, old(self).events()),
            final(self).events() == old(self).events(),
            final(self).unmask_pending() == old(self).unmask_pending(),
            final(self).mask_pending() == (old(self).mask_pending() || mask_wanted(
                old(transport)@,
                old(self).events(),
            )),
    {
        proof {
            use_type_invariant(&*transport);
        }
        if self.events.transmit_ready {
            match transport.output_byte() {
                Ok(byte) => Some(byte),
                Err(_) => {
                    self.mask = true;
                    None
                },
            }
        } else {
            None
        }
    }

    /// The receive step. Where receive-ready was signaled, takes in what the
    /// read of the hardware receive register returned and, on success,
    /// records the wish to unmask; a byte that cannot be taken in is
    /// dropped.
    pub fn receive<const N: usize>(
        &mut self,
        transport: &mut SerialTransport<N>,
        received: Option<u8>,
    ) -> (r: Option<Result<u8, TransportError>>)
        ensures
            final(transport).wf(),
            r == input_outcome(old(transport)@, old(self).events(), received),
            final(transport)@ == after_receive(old(transport)@, old(self).events(), received),
            final(self).events() == old(self).events(),
            final(self).mask_pending() == old(self).mask_pending(),
            final(self).unmask_pending() == (old(self).unmask_pending() || unmask_wanted(
                old(transport)@,
                old(self).events(),
                received,
            )),
    {
        proof {
            use_type_invariant(&*transport);
        }
        if self.events.receive_ready {
            let taken = transport.input_byte(received);
            if taken.is_ok() {
                self.unmask = true;
            }
            Some(taken)
        } else {
            None
        }
    }

    /// The decision that the recorded wishes come to.
    pub fn decision(&self) -> (r: MaskAction)
        ensures
            r == resolve(self.unmask_pending(), self.mask_pending()),
    {
        if self.unmask {
            MaskAction::Unmask
        } else if self.mask {
            MaskAction::Mask
        } else {
            MaskAction::Keep
        }
    }

    /// Ends the invocation: applies the decision, once, to the mirror of the
    /// enable bit and returns it for the caller to apply to the hardware.
    pub fn finish<const N: usize>(self, transport: &mut SerialTransport<N>) -> (r: MaskAction)
        ensures
            final(transport).wf(),
            r == resolve(self.unmask_pending(), self.mask_pending()),
            final(transport)@ == applied(old(transport)@, r),
    {
        proof {
            use_type_invariant(&*transport);
        }
        let action = self.decision();
        match action {
            MaskAction::Keep => {},
            MaskAction::Unmask => {
                transport.set_transmit_ready(true);
            },
            MaskAction::Mask => {
                transport.set_transmit_ready(false);
            },
        }
        action
    }
}

/// One whole interrupt invocation. `events` is the snapshot of the hardware
/// status; `received` is what the read of the receive register returned and
/// is looked at only where receive-ready was signaled.
pub fn service<const N: usize>(
    transport: &mut SerialTransport<N>,
    events: ReadyEvents,
    received: Option<u8>,
) -> (r: Serviced)
    ensures
        final(transport).wf(),
        r == serviced(old(transport)@, events, received),
        final(transport)@ == after_service(old(transport)@, events, received),
        old(transport)@.coherent() ==> final(transport)@.coherent(),
{
    proof {
        use_type_invariant(&*transport);
        transport.lemma_wf();
        if transport@.coherent() {
            lemma_service_keeps_coherent(transport@, events, received);
        }
    }
    let mut invocation = InterruptDispatcher::begin(events);
    let transmit = invocation.transmit(transport);
    let input = invocation.receive(transport, received);
    let action = invocation.finish(transport);
    Serviced { transmit, input, action }
}

} // verus!
