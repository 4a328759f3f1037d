use serial_transport::dispatcher::{MaskAction, ReadyEvents, Serviced};
use serial_transport::shared::{after_offer, next_offer, SharedTransport};
use serial_transport::transport::{SerialTransport, TransportError};

const TX: ReadyEvents = ReadyEvents { transmit_ready: true, receive_ready: false };
const RX: ReadyEvents = ReadyEvents { transmit_ready: false, receive_ready: true };

#[test]
fn shared_enqueue_stops_at_the_first_byte_that_does_not_fit() {
    let shared = SharedTransport::new(SerialTransport::<4>::new(false));
    assert_eq!(shared.enqueue(&[1, 2, 3, 4, 5]), 3);
    assert_eq!(shared.enqueue(&[6]), 0);
    assert_eq!(shared.service(TX, None).transmit, Some(1));
    assert_eq!(shared.enqueue(&[7, 8]), 1);
    assert_eq!(shared.service(TX, None).transmit, Some(2));
    assert_eq!(shared.service(TX, None).transmit, Some(3));
    assert_eq!(shared.service(TX, None).transmit, Some(7));
    assert_eq!(
        shared.service(TX, None),
        Serviced { transmit: None, input: None, action: MaskAction::Mask }
    );
}

#[test]
fn shared_service_takes_bytes_in_and_dequeue_hands_them_out() {
    let shared = SharedTransport::new(SerialTransport::<8>::new(true));
    assert_eq!(shared.dequeue(), Err(TransportError::BufferEmpty));
    assert_eq!(
        shared.service(RX, Some(0x41)),
        Serviced { transmit: None, input: Some(Ok(0x41)), action: MaskAction::Unmask }
    );
    assert_eq!(
        shared.service(RX, None),
        Serviced {
            transmit: None,
            input: Some(Err(TransportError::HardwareNotReady)),
            action: MaskAction::Keep,
        }
    );
    assert_eq!(shared.dequeue(), Ok(0x41));
    assert_eq!(shared.dequeue(), Err(TransportError::BufferEmpty));
    assert_eq!(shared.service(TX, None).transmit, Some(0x41));
}

#[test]
fn shared_transport_keeps_what_it_was_given() {
    let mut transport = SerialTransport::<8>::new(false);
    assert_eq!(transport.enqueue(&[9, 8]), 2);
    assert_eq!(transport.input_byte(Some(7)), Ok(7));
    let shared = SharedTransport::new(transport);
    assert_eq!(shared.service(TX, None).transmit, Some(9));
    assert_eq!(shared.service(TX, None).transmit, Some(8));
    assert_eq!(shared.dequeue(), Ok(7));
}

#[test]
fn shared_transport_interleaves_foreground_and_handler() {
    let shared = SharedTransport::new(SerialTransport::<4>::new(false));
    let mut next: u8 = 0;
    let mut expect: u8 = 0;
    let mut round: usize = 0;
    while round < 100 {
        // three slots are usable and one byte is still waiting from the
        // round before, except in the first round
        let offered: [u8; 3] = [next, next.wrapping_add(1), next.wrapping_add(2)];
        let stored: usize = shared.enqueue(&offered);
        assert_eq!(stored, if round == 0 { 3 } else { 2 });
        next = next.wrapping_add(stored as u8);
        let mut sent: usize = 0;
        while sent < 2 {
            assert_eq!(shared.service(TX, None).transmit, Some(expect));
            expect = expect.wrapping_add(1);
            sent += 1;
        }
        round += 1;
    }
}

#[test]
fn next_offer_is_the_byte_behind_those_stored() {
    let bytes: [u8; 3] = [10, 20, 30];
    assert_eq!(next_offer(&bytes, 0), Some(10));
    assert_eq!(next_offer(&bytes, 1), Some(20));
    assert_eq!(next_offer(&bytes, 2), Some(30));
    assert_eq!(next_offer(&bytes, 3), None);
    assert_eq!(next_offer(&bytes, 4), None);
    assert_eq!(next_offer(&[], 0), None);
}

#[test]
fn after_offer_counts_a_byte_that_fit_and_goes_on() {
    assert_eq!(after_offer(0, 3, Ok(())), (1, true));
    assert_eq!(after_offer(1, 3, Ok(())), (2, true));
}

#[test]
fn after_offer_ends_the_run_with_the_last_byte() {
    assert_eq!(after_offer(2, 3, Ok(())), (3, false));
    assert_eq!(after_offer(0, 1, Ok(())), (1, false));
}

#[test]
fn after_offer_ends_the_run_at_the_first_byte_that_did_not_fit() {
    assert_eq!(after_offer(0, 3, Err(TransportError::BufferFull)), (0, false));
    assert_eq!(after_offer(1, 3, Err(TransportError::BufferFull)), (1, false));
    assert_eq!(after_offer(2, 3, Err(TransportError::BufferFull)), (2, false));
}

#[test]
fn shared_enqueue_of_nothing_stores_nothing() {
    let shared = SharedTransport::new(SerialTransport::<4>::new(false));
    assert_eq!(shared.enqueue(&[]), 0);
    assert_eq!(shared.service(TX, None).transmit, None);
    assert_eq!(shared.enqueue(&[5]), 1);
    assert_eq!(shared.enqueue(&[]), 0);
    assert_eq!(shared.service(TX, None).transmit, Some(5));
}

#[test]
fn shared_enqueue_offers_each_byte_once_and_in_order() {
    let shared = SharedTransport::new(SerialTransport::<8>::new(false));
    assert_eq!(shared.enqueue(&[1, 2, 3, 4, 5, 6, 7, 8, 9]), 7);
    let mut expect: u8 = 1;
    while expect <= 7 {
        assert_eq!(shared.service(TX, None).transmit, Some(expect));
        expect += 1;
    }
    assert_eq!(shared.service(TX, None).transmit, None);
}
