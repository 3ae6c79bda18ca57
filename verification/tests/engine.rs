use datagram_queue::engine::{rx, tx};
use datagram_queue::event::{Event, PlatformRx, PlatformRxError, PlatformTx, Publisher};
use datagram_queue::inet::{LocalAddress, SocketAddress};
use datagram_queue::message::Message;
use datagram_queue::queue::{Buffer, Queue};
use datagram_queue::socket::{
    rx_disposition, tx_disposition, Disposition, Error, ErrorClass, Socket,
};
use std::cell::RefCell;
use std::collections::VecDeque;
use std::io::ErrorKind;

#[derive(Clone, Copy, Debug, PartialEq, Eq)]
enum MockError {
    WouldBlock,
    Interrupted,
    PermissionDenied,
    Reset,
}

impl Error for MockError {
    fn class(&self) -> ErrorClass {
        ErrorClass {
            would_block: *self == MockError::WouldBlock,
            was_interrupted: *self == MockError::Interrupted,
            permission_denied: *self == MockError::PermissionDenied,
        }
    }

    fn would_block(&self) -> bool {
        *self == MockError::WouldBlock
    }

    fn was_interrupted(&self) -> bool {
        *self == MockError::Interrupted
    }

    fn permission_denied(&self) -> bool {
        *self == MockError::PermissionDenied
    }
}

/// One scripted answer to `recv_from`.
enum Recv {
    Datagram {
        bytes: Vec<u8>,
        reported: usize,
        from: Option<SocketAddress>,
    },
    Fail(MockError),
}

/// A socket that answers from a script. When the receive script runs out the
/// socket would block; when the send script runs out every send succeeds.
struct MockSocket {
    recv: RefCell<VecDeque<Recv>>,
    send: RefCell<VecDeque<Result<(), MockError>>>,
    sent: RefCell<Vec<(Vec<u8>, SocketAddress)>>,
    recv_calls: RefCell<usize>,
    send_calls: RefCell<usize>,
    errno_on_failure: Option<i32>,
}

impl MockSocket {
    fn new() -> MockSocket {
        MockSocket {
            recv: RefCell::new(VecDeque::new()),
            send: RefCell::new(VecDeque::new()),
            sent: RefCell::new(Vec::new()),
            recv_calls: RefCell::new(0),
            send_calls: RefCell::new(0),
            errno_on_failure: None,
        }
    }

    fn will_receive(&self, bytes: &[u8], from: SocketAddress) {
        self.recv.borrow_mut().push_back(Recv::Datagram {
            bytes: bytes.to_vec(),
            reported: bytes.len(),
            from: Some(from),
        });
    }

    fn will_receive_unaddressed(&self, bytes: &[u8]) {
        self.recv.borrow_mut().push_back(Recv::Datagram {
            bytes: bytes.to_vec(),
            reported: bytes.len(),
            from: None,
        });
    }

    fn will_fail_receive(&self, error: MockError) {
        self.recv.borrow_mut().push_back(Recv::Fail(error));
    }

    fn will_send(&self, times: usize) {
        for _ in 0..times {
            self.send.borrow_mut().push_back(Ok(()));
        }
    }

    fn will_fail_send(&self, error: MockError) {
        self.send.borrow_mut().push_back(Err(error));
    }

    fn fail(&self, error: MockError) -> MockError {
        if let Some(code) = self.errno_on_failure {
            errno::set_errno(errno::Errno(code));
        }
        error
    }
}

impl Socket for MockSocket {
    type Error = MockError;

    fn recv_from(&self, buf: &mut [u8]) -> Result<(usize, Option<SocketAddress>), MockError> {
        *self.recv_calls.borrow_mut() += 1;
        match self.recv.borrow_mut().pop_front() {
            Some(Recv::Datagram {
                bytes,
                reported,
                from,
            }) => {
                let n = bytes.len().min(buf.len());
                buf[..n].copy_from_slice(&bytes[..n]);
                Ok((reported, from))
            }
            Some(Recv::Fail(error)) => Err(self.fail(error)),
            None => Err(self.fail(MockError::WouldBlock)),
        }
    }

    fn send_to(&self, buf: &[u8], addr: &SocketAddress) -> Result<usize, MockError> {
        *self.send_calls.borrow_mut() += 1;
        match self.send.borrow_mut().pop_front() {
            Some(Err(error)) => Err(self.fail(error)),
            _ => {
                self.sent.borrow_mut().push((buf.to_vec(), *addr));
                Ok(buf.len())
            }
        }
    }
}

fn peer(n: u16) -> SocketAddress {
    SocketAddress::v4(0x0a00_0000 + n as u32, 4000 + n)
}

fn tx_event() -> Event {
    Event::PlatformTx(PlatformTx { count: 1 })
}

fn rx_event() -> Event {
    Event::PlatformRx(PlatformRx { count: 1 })
}

/// Writes `datagrams` into the free slots from the front and promotes them.
fn submit(queue: &mut Queue, datagrams: &[(&[u8], SocketAddress)]) {
    let mut free = queue.tx_queue();
    for (position, (payload, to)) in datagrams.iter().enumerate() {
        assert!(free.write(position, *to, payload));
    }
    free.finish(datagrams.len());
}

/// The payload and remote address of every occupied slot, in partition order.
fn occupied(queue: &mut Queue) -> Vec<(Vec<u8>, Option<SocketAddress>)> {
    let view = queue.rx_queue();
    let mut datagrams = Vec::new();
    for position in 0..view.len() {
        let message = view.get(position).unwrap();
        datagrams.push((message.payload().to_vec(), message.remote_address()));
    }
    datagrams
}

#[test]
fn new_queue_is_all_free() {
    let mut queue = Queue::new(Buffer::new(4, 16));
    assert_eq!(queue.free_len(), 4);
    assert_eq!(queue.occupied_len(), 0);
    let free = queue.tx_queue();
    assert_eq!(free.len(), 4);
    for position in 0..4 {
        let message = free.get(position).unwrap();
        assert_eq!(message.capacity(), 16);
        assert_eq!(message.payload_len(), 0);
        assert_eq!(message.remote_address(), None);
        assert_eq!(message.local_address(), LocalAddress::default());
    }
    assert!(free.get(4).is_none());
    assert!(queue.rx_queue().get(0).is_none());
}

#[test]
fn queue_without_slots_never_calls_the_socket() {
    let mut queue = Queue::new(Buffer::new(0, 16));
    let socket = MockSocket::new();
    let mut publisher = Publisher::new();
    assert_eq!(queue.free_len(), 0);
    assert_eq!(queue.occupied_len(), 0);
    assert_eq!(queue.rx(&socket, &mut publisher), Ok(0));
    assert_eq!(queue.tx(&socket, &mut publisher), Ok(0));
    assert_eq!(*socket.recv_calls.borrow(), 0);
    assert_eq!(*socket.send_calls.borrow(), 0);
    assert!(publisher.events().is_empty());
}

#[test]
fn transmit_with_nothing_occupied_succeeds_with_zero() {
    let mut queue = Queue::new(Buffer::new(3, 16));
    let socket = MockSocket::new();
    socket.will_fail_send(MockError::Reset);
    let mut publisher = Publisher::new();
    assert_eq!(queue.tx(&socket, &mut publisher), Ok(0));
    assert_eq!(*socket.send_calls.borrow(), 0);
    assert_eq!(queue.free_len(), 3);
    assert!(publisher.events().is_empty());
}

#[test]
fn receive_with_nothing_free_succeeds_with_zero() {
    let mut queue = Queue::new(Buffer::new(2, 16));
    queue.tx_queue().finish(2);
    let socket = MockSocket::new();
    socket.will_fail_receive(MockError::Reset);
    let mut publisher = Publisher::new();
    assert_eq!(queue.rx(&socket, &mut publisher), Ok(0));
    assert_eq!(*socket.recv_calls.borrow(), 0);
    assert_eq!(queue.occupied_len(), 2);
    assert!(publisher.events().is_empty());
}

#[test]
fn partition_sizes_add_up_after_every_call() {
    let mut queue = Queue::new(Buffer::new(5, 8));
    let socket = MockSocket::new();
    let mut publisher = Publisher::new();
    let script: [&[MockError]; 6] = [
        &[],
        &[MockError::WouldBlock],
        &[MockError::Interrupted],
        &[MockError::Reset],
        &[MockError::PermissionDenied],
        &[],
    ];
    for (round, failures) in script.iter().enumerate() {
        for n in 0..(round % 4) {
            socket.will_receive(&[round as u8, n as u8], peer(n as u16));
        }
        for failure in failures.iter() {
            socket.will_fail_receive(*failure);
        }
        let _ = queue.rx(&socket, &mut publisher);
        assert_eq!(queue.free_len() + queue.occupied_len(), 5);
        socket.will_send(round % 3);
        for failure in failures.iter() {
            socket.will_fail_send(*failure);
        }
        let _ = queue.tx(&socket, &mut publisher);
        assert_eq!(queue.free_len() + queue.occupied_len(), 5);
        socket.recv.borrow_mut().clear();
        socket.send.borrow_mut().clear();
    }
}

#[test]
fn slots_are_in_exactly_one_partition() {
    let mut queue = Queue::new(Buffer::new(4, 4));
    // Tag every slot through the free partition, then move two across.
    {
        let mut free = queue.tx_queue();
        for position in 0..4 {
            assert!(free.write(position, peer(position as u16), &[position as u8]));
        }
        free.finish(2);
    }
    let mut seen = Vec::new();
    {
        let view = queue.rx_queue();
        assert_eq!(view.len(), 2);
        for position in 0..view.len() {
            seen.push(view.get(position).unwrap().payload()[0]);
        }
    }
    {
        let view = queue.tx_queue();
        assert_eq!(view.len(), 2);
        for position in 0..view.len() {
            seen.push(view.get(position).unwrap().payload()[0]);
        }
    }
    assert_eq!(seen, vec![0, 1, 2, 3]);
    // Release one: it goes to the end of the free partition.
    queue.rx_queue().finish(1);
    let mut seen = Vec::new();
    {
        let view = queue.rx_queue();
        for position in 0..view.len() {
            seen.push(view.get(position).unwrap().payload()[0]);
        }
    }
    {
        let view = queue.tx_queue();
        for position in 0..view.len() {
            seen.push(view.get(position).unwrap().payload()[0]);
        }
    }
    assert_eq!(seen, vec![1, 2, 3, 0]);
}

#[test]
fn reported_length_is_clamped_to_capacity() {
    let mut queue = Queue::new(Buffer::new(2, 8));
    let socket = MockSocket::new();
    socket.recv.borrow_mut().push_back(Recv::Datagram {
        bytes: vec![7; 8],
        reported: 5000,
        from: Some(peer(1)),
    });
    socket.recv.borrow_mut().push_back(Recv::Datagram {
        bytes: vec![9; 8],
        reported: 8,
        from: Some(peer(2)),
    });
    let mut publisher = Publisher::new();
    assert_eq!(queue.rx(&socket, &mut publisher), Ok(2));
    let view = queue.rx_queue();
    let first = view.get(0).unwrap();
    assert_eq!(first.payload_len(), 8);
    assert_eq!(first.capacity(), 8);
    assert_eq!(first.payload(), &[7u8; 8][..]);
    let second = view.get(1).unwrap();
    assert_eq!(second.payload_len(), 8);
    assert_eq!(second.payload(), &[9u8; 8][..]);
}

#[test]
fn reported_length_within_capacity_is_kept() {
    let mut queue = Queue::new(Buffer::new(1, 8));
    let socket = MockSocket::new();
    socket.will_receive(&[1, 2, 3], peer(1));
    let mut publisher = Publisher::new();
    assert_eq!(queue.rx(&socket, &mut publisher), Ok(1));
    let view = queue.rx_queue();
    let message = view.get(0).unwrap();
    assert_eq!(message.payload_len(), 3);
    assert_eq!(message.payload(), &[1u8, 2, 3][..]);
    assert_eq!(message.remote_address(), Some(peer(1)));
}

#[test]
fn partial_batch_commits_what_was_sent() {
    let mut queue = Queue::new(Buffer::new(5, 8));
    submit(
        &mut queue,
        &[
            (&[1], peer(1)),
            (&[2], peer(2)),
            (&[3], peer(3)),
            (&[4], peer(4)),
        ],
    );
    let socket = MockSocket::new();
    socket.will_send(2);
    socket.will_fail_send(MockError::WouldBlock);
    let mut publisher = Publisher::new();
    assert_eq!(queue.tx(&socket, &mut publisher), Ok(2));
    assert_eq!(queue.free_len(), 3);
    assert_eq!(queue.occupied_len(), 2);
    assert_eq!(publisher.events().as_slice(), &[tx_event(), tx_event()]);
    assert_eq!(
        occupied(&mut queue),
        vec![(vec![3], Some(peer(3))), (vec![4], Some(peer(4)))]
    );
    // The socket recovers: the next call sends the remainder.
    assert_eq!(queue.tx(&socket, &mut publisher), Ok(2));
    assert_eq!(queue.free_len(), 5);
    assert_eq!(queue.occupied_len(), 0);
    assert_eq!(
        *socket.sent.borrow(),
        vec![
            (vec![1], peer(1)),
            (vec![2], peer(2)),
            (vec![3], peer(3)),
            (vec![4], peer(4)),
        ]
    );
    assert_eq!(publisher.events().len(), 4);
}

#[test]
fn would_block_before_any_send_is_an_error() {
    let mut queue = Queue::new(Buffer::new(2, 8));
    submit(&mut queue, &[(&[1], peer(1)), (&[2], peer(2))]);
    let socket = MockSocket::new();
    socket.will_fail_send(MockError::WouldBlock);
    let mut publisher = Publisher::new();
    assert_eq!(queue.tx(&socket, &mut publisher), Err(MockError::WouldBlock));
    assert_eq!(queue.occupied_len(), 2);
    assert_eq!(queue.free_len(), 0);
    assert_eq!(publisher.events().len(), 1);
    assert!(matches!(publisher.events()[0], Event::PlatformRxError(_)));
}

#[test]
fn interrupted_send_ends_the_batch_quietly() {
    let mut queue = Queue::new(Buffer::new(3, 8));
    submit(&mut queue, &[(&[1], peer(1)), (&[2], peer(2)), (&[3], peer(3))]);
    let socket = MockSocket::new();
    socket.will_fail_send(MockError::Interrupted);
    let mut publisher = Publisher::new();
    assert_eq!(queue.tx(&socket, &mut publisher), Ok(0));
    assert_eq!(queue.occupied_len(), 3);
    assert!(publisher.events().is_empty());
    socket.will_send(1);
    socket.will_fail_send(MockError::Interrupted);
    assert_eq!(queue.tx(&socket, &mut publisher), Ok(1));
    assert_eq!(queue.occupied_len(), 2);
    assert_eq!(publisher.events().as_slice(), &[tx_event()]);
}

#[test]
fn rejected_destination_ends_the_batch_quietly() {
    let mut queue = Queue::new(Buffer::new(3, 8));
    submit(&mut queue, &[(&[1], peer(1)), (&[2], peer(2)), (&[3], peer(3))]);
    let socket = MockSocket::new();
    socket.will_fail_send(MockError::PermissionDenied);
    let mut publisher = Publisher::new();
    assert_eq!(queue.tx(&socket, &mut publisher), Ok(0));
    assert_eq!(queue.occupied_len(), 3);
    assert_eq!(*socket.send_calls.borrow(), 1);
    assert!(publisher.events().is_empty());
}

#[test]
fn fatal_send_error_keeps_partial_progress() {
    let mut queue = Queue::new(Buffer::new(4, 8));
    submit(&mut queue, &[(&[1], peer(1)), (&[2], peer(2)), (&[3], peer(3))]);
    let mut socket = MockSocket::new();
    socket.errno_on_failure = Some(104);
    socket.will_send(1);
    socket.will_fail_send(MockError::Reset);
    let mut publisher = Publisher::new();
    assert_eq!(queue.tx(&socket, &mut publisher), Err(MockError::Reset));
    assert_eq!(queue.occupied_len(), 2);
    assert_eq!(queue.free_len(), 2);
    assert_eq!(
        publisher.events().as_slice(),
        &[
            tx_event(),
            Event::PlatformRxError(PlatformRxError { errno: 104 })
        ]
    );
    // The queue is still usable: the remainder goes out on the next call.
    assert_eq!(queue.tx(&socket, &mut publisher), Ok(2));
    assert_eq!(queue.free_len(), 4);
}

#[test]
fn transmit_passes_over_slots_without_address() {
    let mut queue = Queue::new(Buffer::new(3, 8));
    // Promote three slots of which only the second was written.
    {
        let mut free = queue.tx_queue();
        assert!(free.write(1, peer(9), &[5, 5]));
        free.finish(3);
    }
    let socket = MockSocket::new();
    let mut publisher = Publisher::new();
    assert_eq!(queue.tx(&socket, &mut publisher), Ok(1));
    assert_eq!(*socket.sent.borrow(), vec![(vec![5, 5], peer(9))]);
    // One datagram was sent, so one slot leaves the front of the partition.
    assert_eq!(queue.occupied_len(), 2);
    assert_eq!(queue.free_len(), 1);
    assert_eq!(publisher.events().as_slice(), &[tx_event()]);
}

#[test]
fn empty_datagram_is_transmitted() {
    let mut queue = Queue::new(Buffer::new(1, 8));
    submit(&mut queue, &[(&[], peer(1))]);
    let socket = MockSocket::new();
    let mut publisher = Publisher::new();
    assert_eq!(queue.tx(&socket, &mut publisher), Ok(1));
    assert_eq!(*socket.sent.borrow(), vec![(Vec::new(), peer(1))]);
}

#[test]
fn missing_address_discards_the_datagram() {
    let mut queue = Queue::new(Buffer::new(2, 8));
    let socket = MockSocket::new();
    socket.will_receive_unaddressed(&[1, 1, 1]);
    socket.will_fail_receive(MockError::Interrupted);
    let mut publisher = Publisher::new();
    assert_eq!(queue.rx(&socket, &mut publisher), Ok(0));
    assert_eq!(queue.free_len(), 2);
    assert_eq!(queue.occupied_len(), 0);
    assert!(publisher.events().is_empty());
    // The slot that took the dropped datagram is still the first free one and
    // holds no datagram.
    let free = queue.tx_queue();
    let message = free.get(0).unwrap();
    assert_eq!(message.payload_len(), 0);
    assert_eq!(message.remote_address(), None);
}

#[test]
fn discarded_datagram_gives_its_slot_to_the_next() {
    let mut queue = Queue::new(Buffer::new(2, 8));
    let socket = MockSocket::new();
    socket.will_receive_unaddressed(&[1, 1, 1]);
    socket.will_receive(&[2, 2], peer(2));
    socket.will_receive_unaddressed(&[3]);
    socket.will_receive(&[4, 4, 4, 4], peer(4));
    socket.will_receive(&[5], peer(5));
    let mut publisher = Publisher::new();
    assert_eq!(queue.rx(&socket, &mut publisher), Ok(2));
    assert_eq!(*socket.recv_calls.borrow(), 4);
    assert_eq!(queue.free_len(), 0);
    assert_eq!(
        occupied(&mut queue),
        vec![(vec![2, 2], Some(peer(2))), (vec![4, 4, 4, 4], Some(peer(4)))]
    );
    assert_eq!(publisher.events().as_slice(), &[rx_event(), rx_event()]);
}

#[test]
fn fatal_receive_error_keeps_partial_progress() {
    let mut queue = Queue::new(Buffer::new(4, 8));
    let mut socket = MockSocket::new();
    socket.errno_on_failure = Some(104);
    socket.will_receive(&[1, 2], peer(1));
    socket.will_receive(&[3, 4, 5], peer(2));
    socket.will_fail_receive(MockError::Reset);
    let mut publisher = Publisher::new();
    assert_eq!(queue.rx(&socket, &mut publisher), Err(MockError::Reset));
    assert_eq!(queue.occupied_len(), 2);
    assert_eq!(queue.free_len(), 2);
    assert_eq!(
        occupied(&mut queue),
        vec![(vec![1, 2], Some(peer(1))), (vec![3, 4, 5], Some(peer(2)))]
    );
    assert_eq!(
        publisher.events().as_slice(),
        &[
            rx_event(),
            rx_event(),
            Event::PlatformRxError(PlatformRxError { errno: 104 })
        ]
    );
    // The next call goes on with the slots that are left.
    socket.will_receive(&[6], peer(3));
    assert_eq!(queue.rx(&socket, &mut publisher), Ok(1));
    assert_eq!(queue.occupied_len(), 3);
}

#[test]
fn would_block_before_any_receive_is_an_error() {
    let mut queue = Queue::new(Buffer::new(2, 8));
    let mut socket = MockSocket::new();
    socket.errno_on_failure = Some(11);
    let mut publisher = Publisher::new();
    assert_eq!(queue.rx(&socket, &mut publisher), Err(MockError::WouldBlock));
    assert_eq!(queue.free_len(), 2);
    assert_eq!(
        publisher.events().as_slice(),
        &[Event::PlatformRxError(PlatformRxError { errno: 11 })]
    );
}

#[test]
fn would_block_after_a_receive_ends_the_batch_quietly() {
    let mut queue = Queue::new(Buffer::new(3, 8));
    let socket = MockSocket::new();
    socket.will_receive(&[1], peer(1));
    let mut publisher = Publisher::new();
    assert_eq!(queue.rx(&socket, &mut publisher), Ok(1));
    assert_eq!(queue.free_len(), 2);
    assert_eq!(queue.occupied_len(), 1);
    assert_eq!(publisher.events().as_slice(), &[rx_event()]);
}

#[test]
fn interrupted_receive_ends_the_batch_quietly() {
    let mut queue = Queue::new(Buffer::new(3, 8));
    let socket = MockSocket::new();
    socket.will_fail_receive(MockError::Interrupted);
    let mut publisher = Publisher::new();
    assert_eq!(queue.rx(&socket, &mut publisher), Ok(0));
    assert_eq!(queue.free_len(), 3);
    assert!(publisher.events().is_empty());
}

#[test]
fn permission_denied_on_receive_is_fatal() {
    let mut queue = Queue::new(Buffer::new(3, 8));
    let socket = MockSocket::new();
    socket.will_receive(&[1], peer(1));
    socket.will_fail_receive(MockError::PermissionDenied);
    let mut publisher = Publisher::new();
    assert_eq!(
        queue.rx(&socket, &mut publisher),
        Err(MockError::PermissionDenied)
    );
    assert_eq!(queue.occupied_len(), 1);
    assert_eq!(publisher.events().len(), 2);
}

#[test]
fn receive_fills_every_free_slot_and_stops() {
    let mut queue = Queue::new(Buffer::new(2, 8));
    let socket = MockSocket::new();
    for n in 0..5 {
        socket.will_receive(&[n as u8], peer(n));
    }
    let mut publisher = Publisher::new();
    assert_eq!(queue.rx(&socket, &mut publisher), Ok(2));
    assert_eq!(*socket.recv_calls.borrow(), 2);
    assert_eq!(socket.recv.borrow().len(), 3);
    assert_eq!(queue.free_len(), 0);
}

#[test]
fn successful_batch_publishes_one_event_per_send() {
    for k in 0..6usize {
        let mut queue = Queue::new(Buffer::new(6, 8));
        let datagrams: Vec<(Vec<u8>, SocketAddress)> =
            (0..k).map(|n| (vec![n as u8], peer(n as u16))).collect();
        let borrowed: Vec<(&[u8], SocketAddress)> =
            datagrams.iter().map(|(p, a)| (p.as_slice(), *a)).collect();
        submit(&mut queue, &borrowed);
        let socket = MockSocket::new();
        let mut publisher = Publisher::new();
        assert_eq!(queue.tx(&socket, &mut publisher), Ok(k));
        assert_eq!(publisher.events().len(), k);
        assert!(publisher.events().iter().all(|event| *event == tx_event()));
    }
}

#[test]
fn end_to_end_receive_then_transmit() {
    let mut queue = Queue::new(Buffer::new(4, 16));
    let socket = MockSocket::new();
    socket.will_receive(&[1; 3], peer(1));
    socket.will_receive(&[2; 4], peer(2));
    socket.will_receive(&[3; 5], peer(3));
    socket.will_fail_receive(MockError::WouldBlock);
    let mut publisher = Publisher::new();
    assert_eq!(queue.rx(&socket, &mut publisher), Ok(3));
    assert_eq!(queue.free_len(), 1);
    assert_eq!(queue.occupied_len(), 3);
    assert_eq!(
        publisher.events().as_slice(),
        &[rx_event(), rx_event(), rx_event()]
    );
    let mut publisher = Publisher::new();
    assert_eq!(queue.tx(&socket, &mut publisher), Ok(3));
    assert_eq!(queue.free_len(), 4);
    assert_eq!(queue.occupied_len(), 0);
    assert_eq!(
        publisher.events().as_slice(),
        &[tx_event(), tx_event(), tx_event()]
    );
    assert_eq!(
        *socket.sent.borrow(),
        vec![
            (vec![1; 3], peer(1)),
            (vec![2; 4], peer(2)),
            (vec![3; 5], peer(3)),
        ]
    );
}

#[test]
fn ring_wraps_around_the_end_of_the_arena() {
    let mut queue = Queue::new(Buffer::new(3, 4));
    let socket = MockSocket::new();
    let mut publisher = Publisher::new();
    let mut next = 0u8;
    let mut expected = VecDeque::new();
    for round in 0..10usize {
        let incoming = 1 + round % 3;
        for _ in 0..incoming {
            socket.will_receive(&[next], peer(next as u16));
            next += 1;
        }
        let free_before = queue.free_len();
        let received = incoming.min(free_before);
        let result = queue.rx(&socket, &mut publisher);
        if free_before == 0 {
            assert_eq!(result, Ok(0));
        } else {
            assert_eq!(result, Ok(received));
        }
        let taken = next - incoming as u8;
        for n in 0..received {
            expected.push_back(taken + n as u8);
        }
        socket.recv.borrow_mut().clear();
        let got: Vec<u8> = occupied(&mut queue).iter().map(|(p, _)| p[0]).collect();
        assert_eq!(got, expected.iter().copied().collect::<Vec<u8>>());
        let release = 1 + round % 2;
        let release = release.min(queue.occupied_len());
        queue.rx_queue().finish(release);
        for _ in 0..release {
            expected.pop_front();
        }
        assert_eq!(queue.occupied_len(), expected.len());
        assert_eq!(queue.free_len() + queue.occupied_len(), 3);
    }
}

#[test]
fn local_address_is_stamped_on_later_receives() {
    let mut queue = Queue::new(Buffer::new(3, 8));
    let socket = MockSocket::new();
    let mut publisher = Publisher::new();
    socket.will_receive(&[1], peer(1));
    assert_eq!(queue.rx(&socket, &mut publisher), Ok(1));
    let bound = LocalAddress(SocketAddress::v6(1, 443));
    queue.set_local_address(bound);
    socket.will_receive(&[2], peer(2));
    assert_eq!(queue.rx(&socket, &mut publisher), Ok(1));
    let view = queue.rx_queue();
    assert_eq!(view.get(0).unwrap().local_address(), LocalAddress::default());
    assert_eq!(view.get(1).unwrap().local_address(), bound);
}

#[test]
fn local_address_is_stamped_on_written_datagrams() {
    let mut queue = Queue::new(Buffer::new(2, 8));
    let bound = LocalAddress(SocketAddress::v4(0x7f00_0001, 443));
    queue.set_local_address(bound);
    submit(&mut queue, &[(&[1], peer(1))]);
    assert_eq!(queue.rx_queue().get(0).unwrap().local_address(), bound);
}

#[test]
fn error_event_carries_the_error_number() {
    let mut queue = Queue::new(Buffer::new(2, 8));
    submit(&mut queue, &[(&[1], peer(1))]);
    for code in [1, 13, 111] {
        let mut socket = MockSocket::new();
        socket.errno_on_failure = Some(code);
        socket.will_fail_send(MockError::Reset);
        socket.will_fail_receive(MockError::Reset);
        let mut publisher = Publisher::new();
        assert_eq!(queue.tx(&socket, &mut publisher), Err(MockError::Reset));
        assert_eq!(queue.rx(&socket, &mut publisher), Err(MockError::Reset));
        assert_eq!(
            publisher.events().as_slice(),
            &[
                Event::PlatformRxError(PlatformRxError { errno: code }),
                Event::PlatformRxError(PlatformRxError { errno: code })
            ]
        );
    }
}

#[test]
fn free_view_rejects_what_does_not_fit() {
    let mut queue = Queue::new(Buffer::new(2, 4));
    let mut free = queue.tx_queue();
    assert!(!free.write(0, peer(1), &[0; 5]));
    assert!(!free.write(2, peer(1), &[0; 1]));
    assert!(free.write(1, peer(1), &[1, 2, 3, 4]));
    assert_eq!(free.get(0).unwrap().payload_len(), 0);
    assert_eq!(free.get(1).unwrap().payload(), &[1u8, 2, 3, 4][..]);
    free.finish(0);
    assert_eq!(queue.free_len(), 2);
}

#[test]
fn free_view_stamps_what_was_received() {
    let mut queue = Queue::new(Buffer::new(2, 4));
    let bound = LocalAddress(SocketAddress::v4(1, 1));
    queue.set_local_address(bound);
    let mut free = queue.tx_queue();
    assert!(!free.stamp(0, 3, None));
    assert_eq!(free.get(0).unwrap().payload_len(), 0);
    assert_eq!(free.get(0).unwrap().remote_address(), None);
    assert!(free.stamp(0, 3, Some(peer(1))));
    assert_eq!(free.get(0).unwrap().payload_len(), 3);
    assert_eq!(free.get(0).unwrap().remote_address(), Some(peer(1)));
    assert_eq!(free.get(0).unwrap().local_address(), bound);
    assert!(free.stamp(1, 4, Some(peer(2))));
    assert_eq!(free.get(1).unwrap().payload_len(), 4);
    assert!(free.stamp(1, 5, Some(peer(3))));
    assert_eq!(free.get(1).unwrap().payload_len(), 4);
    assert_eq!(free.get(1).unwrap().remote_address(), Some(peer(3)));
    assert!(!free.stamp(2, 1, Some(peer(1))));
    free.finish(2);
    assert_eq!(queue.occupied_len(), 2);
}

#[test]
fn message_stamp_clamps_and_write_copies() {
    let mut message = Message::new(4);
    assert_eq!(message.capacity(), 4);
    assert_eq!(message.payload(), &[0u8; 0][..]);
    let local = LocalAddress(SocketAddress::v4(2, 2));
    assert!(message.stamp(usize::MAX, Some(peer(1)), local));
    assert_eq!(message.payload_len(), 4);
    assert_eq!(message.payload(), &[0u8; 4][..]);
    assert!(!message.stamp(1, None, LocalAddress::default()));
    assert_eq!(message.payload_len(), 4);
    assert_eq!(message.remote_address(), Some(peer(1)));
    assert_eq!(message.local_address(), local);
    assert!(message.stamp(0, Some(peer(2)), local));
    assert_eq!(message.payload_len(), 0);
    assert!(message.write(peer(3), local, &[9, 8]));
    assert_eq!(message.payload(), &[9u8, 8][..]);
    assert_eq!(message.remote_address(), Some(peer(3)));
    assert!(!message.write(peer(4), local, &[1, 2, 3, 4, 5]));
    assert_eq!(message.payload(), &[9u8, 8][..]);
    assert_eq!(message.remote_address(), Some(peer(3)));
    // The bytes beyond the payload are still in the buffer.
    assert!(message.stamp(4, Some(peer(3)), local));
    assert_eq!(message.payload(), &[9u8, 8, 0, 0][..]);
}

#[test]
fn dispositions_follow_the_classification() {
    let class = |would_block, was_interrupted, permission_denied| ErrorClass {
        would_block,
        was_interrupted,
        permission_denied,
    };
    let none = class(false, false, false);
    let would_block = class(true, false, false);
    let interrupted = class(false, true, false);
    let denied = class(false, false, true);

    assert_eq!(tx_disposition(0, none), Disposition::Fail);
    assert_eq!(tx_disposition(7, none), Disposition::Fail);
    assert_eq!(tx_disposition(0, would_block), Disposition::Fail);
    assert_eq!(tx_disposition(1, would_block), Disposition::Stop);
    assert_eq!(tx_disposition(0, interrupted), Disposition::Stop);
    assert_eq!(tx_disposition(3, interrupted), Disposition::Stop);
    assert_eq!(tx_disposition(0, denied), Disposition::Stop);
    assert_eq!(tx_disposition(3, denied), Disposition::Stop);

    assert_eq!(rx_disposition(0, none), Disposition::Fail);
    assert_eq!(rx_disposition(7, none), Disposition::Fail);
    assert_eq!(rx_disposition(0, would_block), Disposition::Fail);
    assert_eq!(rx_disposition(1, would_block), Disposition::Stop);
    assert_eq!(rx_disposition(0, interrupted), Disposition::Stop);
    assert_eq!(rx_disposition(3, interrupted), Disposition::Stop);
    assert_eq!(rx_disposition(0, denied), Disposition::Fail);
    assert_eq!(rx_disposition(3, denied), Disposition::Fail);
    assert_eq!(rx_disposition(3, class(true, false, true)), Disposition::Stop);
}

#[test]
fn io_errors_are_classified_by_kind() {
    let would_block = std::io::Error::from(ErrorKind::WouldBlock);
    assert!(would_block.would_block());
    assert!(!would_block.was_interrupted());
    assert!(!would_block.permission_denied());
    let interrupted = std::io::Error::from(ErrorKind::Interrupted);
    assert!(!interrupted.would_block());
    assert!(interrupted.was_interrupted());
    assert!(!interrupted.permission_denied());
    let denied = std::io::Error::from(ErrorKind::PermissionDenied);
    assert!(!denied.would_block());
    assert!(!denied.was_interrupted());
    assert!(denied.permission_denied());
    let reset = std::io::Error::from(ErrorKind::ConnectionReset);
    assert!(!reset.would_block());
    assert!(!reset.was_interrupted());
    assert!(!reset.permission_denied());
}

#[test]
fn channel_tx_stops_at_the_first_error_of_any_kind() {
    for error in [
        MockError::WouldBlock,
        MockError::Interrupted,
        MockError::PermissionDenied,
        MockError::Reset,
    ] {
        let mut queue = Queue::new(Buffer::new(4, 8));
        submit(&mut queue, &[(&[1], peer(1)), (&[2], peer(2)), (&[3], peer(3))]);
        let socket = MockSocket::new();
        socket.will_send(2);
        socket.will_fail_send(error);
        {
            let mut channel = queue.rx_queue();
            assert_eq!(tx(&socket, &mut channel), Err(error));
            assert_eq!(channel.len(), 1);
        }
        assert_eq!(queue.occupied_len(), 1);
        assert_eq!(queue.free_len(), 3);
        let mut channel = queue.rx_queue();
        assert_eq!(tx(&socket, &mut channel), Ok(()));
        assert_eq!(channel.len(), 0);
        assert_eq!(socket.sent.borrow().len(), 3);
    }
}

#[test]
fn channel_tx_with_nothing_sent_moves_nothing() {
    let mut queue = Queue::new(Buffer::new(2, 8));
    submit(&mut queue, &[(&[1], peer(1))]);
    let socket = MockSocket::new();
    socket.will_fail_send(MockError::WouldBlock);
    let mut channel = queue.rx_queue();
    assert_eq!(tx(&socket, &mut channel), Err(MockError::WouldBlock));
    assert_eq!(channel.len(), 1);
}

#[test]
fn channel_rx_fills_until_the_first_error() {
    let mut queue = Queue::new(Buffer::new(4, 8));
    let socket = MockSocket::new();
    socket.will_receive(&[1, 1], peer(1));
    socket.will_receive_unaddressed(&[2]);
    socket.recv.borrow_mut().push_back(Recv::Datagram {
        bytes: vec![3; 8],
        reported: 100,
        from: Some(peer(3)),
    });
    {
        let mut channel = queue.tx_queue();
        assert_eq!(rx(&socket, &mut channel), Err(MockError::WouldBlock));
        assert_eq!(channel.len(), 2);
    }
    assert_eq!(
        occupied(&mut queue),
        vec![(vec![1, 1], Some(peer(1))), (vec![3; 8], Some(peer(3)))]
    );
    for n in 0..3 {
        socket.will_receive(&[n], peer(n as u16));
    }
    let mut channel = queue.tx_queue();
    assert_eq!(rx(&socket, &mut channel), Ok(()));
    assert_eq!(channel.len(), 0);
    assert_eq!(socket.recv.borrow().len(), 1);
}
