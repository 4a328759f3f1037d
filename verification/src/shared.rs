//! Exclusive access to a transport that the foreground shares with the
//! interrupt handler. Every access runs inside a critical section, and each
//! critical section does a bounded amount of work: one byte queued, one byte
//! taken, or one interrupt invocation.

use crate::dispatcher::{service, serviced, MaskAction, ReadyEvents, Serviced};
use crate::transport::{SerialTransport, TransportError, TransportView};
use vstd::prelude::*;

verus! {

/// `critical_section::Mutex`, carried as an opaque value: nothing is claimed
/// of what it holds.
#[verifier::external_type_specification]
#[verifier::external_body]
#[verifier::reject_recursive_types(T)]
pub struct ExMutex<T>(critical_section::Mutex<T>);

/// `std::cell::RefCell`, carried as an opaque value inside the mutex:
/// nothing is claimed of what it holds.
#[verifier::external_type_specification]
#[verifier::external_body]
#[verifier::reject_recursive_types(T)]
pub struct ExRefCell<T: ?Sized>(std::cell::RefCell<T>);

/// A transport behind a critical-section mutex. Whoever holds a shared
/// reference may use it; the interrupt handler and the foreground never see
/// it half updated.
#[verifier::reject_recursive_types(N)]
pub struct SharedTransport<const N: usize> {
    cell: critical_section::Mutex<std::cell::RefCell<SerialTransport<N>>>,
}

/// `critical_section::Mutex::new` round `RefCell::new`: moves the transport
/// into the cell. Nothing is claimed of the result.
#[verifier::external_body]
fn guard<const N: usize>(transport: SerialTransport<N>) -> (r: critical_section::Mutex<
    std::cell::RefCell<SerialTransport<N>>,
>) {
    critical_section::Mutex::new(std::cell::RefCell::new(transport))
}

/// `critical_section::with`, which runs the closure with interrupts held off
/// and hands back what the closure returned, and `Mutex::borrow_ref_mut`,
/// which borrows the cell for that time: the cell is borrowed nowhere but in
/// these closures, and they do not nest. The closure queues one byte. What
/// the cell holds at that moment is not known here, so the claim is only
/// that a failure is `BufferFull`.
#[verifier::external_body]
fn locked_enqueue_byte<const N: usize>(shared: &SharedTransport<N>, byte: u8) -> (r: Result<
    (),
    TransportError,
>)
    ensures
        r matches Err(e) ==> e == TransportError::BufferFull,
{
    critical_section::with(|cs| shared.cell.borrow_ref_mut(cs).enqueue_byte(byte))
}

/// `critical_section::with`, whose closure takes the oldest byte that
/// arrived. The claim is only that a failure is `BufferEmpty`.
#[verifier::external_body]
fn locked_dequeue<const N: usize>(shared: &SharedTransport<N>) -> (r: Result<u8, TransportError>)
    ensures
        r matches Err(e) ==> e == TransportError::BufferEmpty,
{
    critical_section::with(|cs| shared.cell.borrow_ref_mut(cs).dequeue())
}

/// `critical_section::with`, whose closure runs one interrupt invocation.
/// The claim is that the report is the one that the protocol gives for some
/// transport of `N` slots per store whose queues fit: which one, the cell
/// alone knows.
#[verifier::external_body]
fn locked_service<const N: usize>(
    shared: &SharedTransport<N>,
    events: ReadyEvents,
    received: Option<u8>,
) -> (r: Serviced)
    ensures
        reported(N as nat, events, received, r),
{
    critical_section::with(|cs| service(&mut *shared.cell.borrow_ref_mut(cs), events, received))
}

/// `critical_section::with`, whose closure asks for transmit-ready to be
/// unmasked. It returns nothing, and nothing is claimed.
#[verifier::external_body]
fn locked_request_transmit<const N: usize>(shared: &SharedTransport<N>) {
    critical_section::with(|cs| shared.cell.borrow_ref_mut(cs).request_transmit())
}

/// Whether `report` is what one interrupt invocation reports for some
/// transport of `capacity` slots per store whose queues fit.
pub open spec fn reported(
    capacity: nat,
    events: ReadyEvents,
    received: Option<u8>,
    report: Serviced,
) -> bool {
    exists|v: TransportView|
        v.capacity == capacity && v.bounded() && report == #[trigger] serviced(v, events, received)
}

/// The byte that a run of `bytes` offers to the transmit store when `stored`
/// of them are in: the one right behind those, or none when all are in.
pub fn next_offer(bytes: &[u8], stored: usize) -> (r: Option<u8>)
    ensures
        r == (if stored < bytes@.len() {
            Some(bytes@[stored as int])
        } else {
            None
        }),
{
    if stored < bytes.len() {
        Some(bytes[stored])
    } else {
        None
    }
}

/// Where a run of `total` bytes stands after the byte behind the first
/// `stored` was offered and fared as `outcome`: how many bytes are in now,
/// and whether the run goes on. A byte that fit counts; the first byte that
/// did not fit ends the run, as does the last byte.
pub fn after_offer(stored: usize, total: usize, outcome: Result<(), TransportError>) -> (r: (
    usize,
    bool,
))
    requires
        stored < total,
    ensures
        r.0 == (if outcome is Ok {
            stored + 1
        } else {
            stored as int
        }),
        r.1 == (outcome is Ok && stored + 1 < total),
{
    match outcome {
        Ok(()) => (stored + 1, stored + 1 < total),
        Err(_) => (stored, false),
    }
}

impl<const N: usize> SharedTransport<N> {
    /// Takes ownership of a transport. From here on it is reached only
    /// through the operations below.
    pub fn new(transport: SerialTransport<N>) -> (r: Self) {
        SharedTransport { cell: guard(transport) }
    }

    /// Queues `bytes` for sending, each byte in a critical section of its
    /// own, and stops at the first byte that does not fit. One more critical
    /// section then asks for transmit-ready to be unmasked, whether or not
    /// anything fit. Returns how many bytes were stored; the caller then
    /// enables the interrupt in hardware. The interrupt handler may send
    /// bytes in between, so how many fit is not a function of the arguments:
    /// which byte is offered is `next_offer`'s to say, and how the count
    /// follows from each outcome is `after_offer`'s.
    pub fn enqueue(&self, bytes: &[u8]) -> (stored: usize)
        ensures
            stored <= bytes@.len(),
    {
        let mut stored: usize = 0;
        let mut open: bool = true;
        while open
            invariant
                stored <= bytes.len(),
            decreases bytes.len() - stored + (if open { 1int } else { 0int }),
        {
            match next_offer(bytes, stored) {
                Some(byte) => {
                    let after = after_offer(
                        stored,
                        bytes.len(),
                        locked_enqueue_byte(self, byte),
                    );
                    stored = after.0;
                    open = after.1;
                },
                None => {
                    open = false;
                },
            }
        }
        locked_request_transmit(self);
        stored
    }

    /// Takes the oldest byte that arrived, inside a critical section.
    pub fn dequeue(&self) -> (r: Result<u8, TransportError>)
        ensures
            r matches Err(e) ==> e == TransportError::BufferEmpty,
    {
        locked_dequeue(self)
    }

    /// Runs one interrupt invocation inside a critical section. The report
    /// is the one the protocol gives for the transport as the critical
    /// section found it.
    pub fn service(&self, events: ReadyEvents, received: Option<u8>) -> (r: Serviced)
        ensures
            reported(N as nat, events, received, r),
            !events.transmit_ready ==> r.transmit is None && r.action != MaskAction::Mask,
            events.receive_ready <==> r.input is Some,
    {
        locked_service(self, events, received)
    }
}

} // verus!
