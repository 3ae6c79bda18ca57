//! The slot arena and its split into a free and an occupied partition.
//!
//! The arena is a ring. The occupied slots start at `head` and run forward,
//! wrapping at the end of the arena; the free slots follow them and run up to
//! `head` again. Moving slots between the partitions only moves the two
//! boundaries, so every slot is in exactly one partition at any time.

use vstd::prelude::*;
use crate::inet::{LocalAddress, SocketAddress};
use crate::message::{Message, MessageView};
use crate::socket::Socket;

verus! {

/// The arena index of the slot that lies `position` places after `head` in a
/// ring of `capacity` slots.
pub open spec fn ring_index(head: int, capacity: int, position: int) -> int {
    if head + position >= capacity {
        head + position - capacity
    } else {
        head + position
    }
}

/// What a [`Queue`] holds, as mathematical values.
pub struct QueueView {
    /// The slots of the arena, by arena index.
    pub messages: Seq<MessageView>,
    /// The arena indices of the occupied slots, in partition order.
    pub occupied: Seq<int>,
    /// The arena indices of the free slots, in partition order.
    pub free: Seq<int>,
    /// The capacity of every slot, in bytes.
    pub mtu: nat,
    /// The address stamped on received datagrams.
    pub local_address: LocalAddress,
}

impl QueueView {
    /// The number of slots in the arena.
    pub open spec fn capacity(self) -> nat {
        self.messages.len()
    }

    /// The two partitions name every arena index exactly once, and every slot
    /// has the queue's capacity and a length within it.
    pub open spec fn wf(self) -> bool {
        &&& self.mtu > 0
        &&& self.messages.len() <= usize::MAX
        &&& self.occupied.len() + self.free.len() == self.messages.len()
        &&& forall|i: int|
            0 <= i < self.occupied.len() ==> 0 <= #[trigger] self.occupied[i] < self.messages.len()
        &&& forall|i: int|
            0 <= i < self.free.len() ==> 0 <= #[trigger] self.free[i] < self.messages.len()
        &&& (self.occupied + self.free).no_duplicates()
        &&& forall|index: int|
            0 <= index < self.messages.len() ==> (self.occupied + self.free).contains(index)
        &&& forall|i: int|
            0 <= i < self.messages.len() ==> (#[trigger] self.messages[i]).wf()
                && self.messages[i].capacity() == self.mtu
    }

    /// No arena index occurs twice within a partition, and none occurs in
    /// both.
    pub proof fn lemma_distinct(self)
        requires
            self.wf(),
        ensures
            forall|i: int, j: int|
                0 <= i < self.occupied.len() && 0 <= j < self.occupied.len() && i != j
                    ==> #[trigger] self.occupied[i] != #[trigger] self.occupied[j],
            forall|i: int, j: int|
                0 <= i < self.free.len() && 0 <= j < self.free.len() && i != j
                    ==> #[trigger] self.free[i] != #[trigger] self.free[j],
            forall|i: int, j: int|
                0 <= i < self.occupied.len() && 0 <= j < self.free.len()
                    ==> #[trigger] self.occupied[i] != #[trigger] self.free[j],
    {
        let all = self.occupied + self.free;
        let n = self.occupied.len() as int;
        assert forall|i: int, j: int|
            0 <= i < self.occupied.len() && 0 <= j < self.occupied.len() && i != j
            implies #[trigger] self.occupied[i] != #[trigger] self.occupied[j] by {
            assert(all[i] == self.occupied[i] && all[j] == self.occupied[j]);
        }
        assert forall|i: int, j: int|
            0 <= i < self.free.len() && 0 <= j < self.free.len() && i != j
            implies #[trigger] self.free[i] != #[trigger] self.free[j] by {
            assert(all[n + i] == self.free[i] && all[n + j] == self.free[j]);
        }
        assert forall|i: int, j: int|
            0 <= i < self.occupied.len() && 0 <= j < self.free.len()
            implies #[trigger] self.occupied[i] != #[trigger] self.free[j] by {
            assert(all[i] == self.occupied[i] && all[n + j] == self.free[j]);
        }
    }

    /// The slot at `position` of the occupied partition.
    pub open spec fn occupied_message(self, position: int) -> MessageView {
        self.messages[self.occupied[position]]
    }

    /// The slot at `position` of the free partition.
    pub open spec fn free_message(self, position: int) -> MessageView {
        self.messages[self.free[position]]
    }

    /// The queue with the slot at arena index `index` replaced by `message`.
    pub open spec fn with_message(self, index: int, message: MessageView) -> QueueView {
        QueueView { messages: self.messages.update(index, message), ..self }
    }

    /// The queue after the first `count` free slots moved to the end of the
    /// occupied partition. No slot changes.
    pub open spec fn promote(self, count: int) -> QueueView {
        QueueView {
            occupied: self.occupied + self.free.take(count),
            free: self.free.skip(count),
            ..self
        }
    }

    /// The queue after the first `count` occupied slots moved to the end of
    /// the free partition. No slot changes.
    pub open spec fn release(self, count: int) -> QueueView {
        QueueView {
            occupied: self.occupied.skip(count),
            free: self.free + self.occupied.take(count),
            ..self
        }
    }
}

/// The shape of an arena: how many slots, and how many bytes each holds.
#[derive(Clone, Copy, Debug, PartialEq, Eq, Structural)]
pub struct Buffer {
    pub messages: usize,
    pub mtu: usize,
}

impl Buffer {
    /// An arena of `messages` slots of `mtu` bytes each.
    pub fn new(messages: usize, mtu: usize) -> (buffer: Buffer)
        ensures
            buffer == (Buffer { messages, mtu }),
    {
        Buffer { messages, mtu }
    }
}

/// A fixed arena of datagram slots, each either free or occupied.
#[derive(Debug)]
pub struct Queue {
    messages: Vec<Message>,
    head: usize,
    occupied: usize,
    mtu: usize,
    local_address: LocalAddress,
}

impl View for Queue {
    type V = QueueView;

    closed spec fn view(&self) -> QueueView {
        let capacity = self.messages@.len() as int;
        QueueView {
            messages: Seq::new(self.messages@.len(), |i: int| self.messages@[i]@),
            occupied: Seq::new(
                self.occupied as nat,
                |k: int| ring_index(self.head as int, capacity, k),
            ),
            free: Seq::new(
                (capacity - self.occupied) as nat,
                |k: int| ring_index(self.head as int, capacity, self.occupied + k),
            ),
            mtu: self.mtu as nat,
            local_address: self.local_address,
        }
    }
}

impl Queue {
    /// The representation is sound: the boundaries lie inside the arena and
    /// every slot has the queue's capacity.
    pub closed spec fn wf(&self) -> bool {
        &&& self.mtu > 0
        &&& self.occupied <= self.messages@.len()
        &&& self.head < self.messages@.len() || (self.head == 0 && self.messages@.len() == 0)
        &&& forall|i: int|
            0 <= i < self.messages@.len() ==> (#[trigger] self.messages@[i])@.wf()
                && self.messages@[i]@.capacity() == self.mtu
    }

    /// A sound queue has a sound view.
    pub proof fn lemma_view_wf(&self)
        requires
            self.wf(),
        ensures
            self@.wf(),
    {
        let view = self@;
        let all = view.occupied + view.free;
        let capacity = self.messages@.len() as int;
        assert(self.messages.len() == capacity);
        assert forall|i: int, j: int| 0 <= i < all.len() && 0 <= j < all.len() && i != j implies all[i]
            != all[j] by {
            assert(all[i] == ring_index(self.head as int, capacity, i));
            assert(all[j] == ring_index(self.head as int, capacity, j));
        }
        assert forall|index: int| 0 <= index < capacity implies all.contains(index) by {
            let position = if index >= self.head {
                index - self.head
            } else {
                index + capacity - self.head
            };
            assert(all[position] == ring_index(self.head as int, capacity, position));
        }
    }

    /// A queue over a fresh arena of the given shape, with every slot free.
    pub fn new(buffer: Buffer) -> (queue: Queue)
        requires
            buffer.mtu > 0,
        ensures
            queue.wf(),
            queue@.mtu == buffer.mtu,
            queue@.capacity() == buffer.messages,
            queue@.occupied == Seq::<int>::empty(),
            queue@.free == Seq::new(buffer.messages as nat, |i: int| i),
            queue@.local_address == LocalAddress::unspecified(),
            forall|i: int|
                0 <= i < buffer.messages ==> #[trigger] queue@.messages[i] == (MessageView {
                    buffer: Seq::new(buffer.mtu as nat, |k: int| 0u8),
                    payload_len: 0,
                    remote_address: None,
                    local_address: LocalAddress::unspecified(),
                }),
    {
        let mut messages: Vec<Message> = Vec::new();
        let mut i: usize = 0;
        while i < buffer.messages
            invariant
                i <= buffer.messages,
                messages@.len() == i,
                forall|k: int|
                    0 <= k < i ==> (#[trigger] messages@[k])@ == (MessageView {
                        buffer: Seq::new(buffer.mtu as nat, |k: int| 0u8),
                        payload_len: 0,
                        remote_address: None,
                        local_address: LocalAddress::unspecified(),
                    }),
            decreases buffer.messages - i,
        {
            messages.push(Message::new(buffer.mtu));
            i += 1;
        }
        let queue = Queue {
            messages,
            head: 0,
            occupied: 0,
            mtu: buffer.mtu,
            local_address: LocalAddress::default(),
        };
        assert(queue@.occupied =~= Seq::<int>::empty());
        assert(queue@.free =~= Seq::new(buffer.messages as nat, |i: int| i));
        queue
    }

    /// The number of free slots.
    pub fn free_len(&self) -> (len: usize)
        requires
            self.wf(),
        ensures
            len == self@.free.len(),
            len + self@.occupied.len() == self@.capacity(),
    {
        self.messages.len() - self.occupied
    }

    /// The number of occupied slots.
    pub fn occupied_len(&self) -> (len: usize)
        requires
            self.wf(),
        ensures
            len == self@.occupied.len(),
            len + self@.free.len() == self@.capacity(),
    {
        self.occupied
    }

    /// Sets the address stamped on the datagrams received or written from now
    /// on. Slots that already hold a datagram keep the address they were
    /// stamped with.
    pub fn set_local_address(&mut self, local_address: LocalAddress)
        requires
            old(self).wf(),
        ensures
            final(self).wf(),
            final(self)@ == (QueueView { local_address, ..old(self)@ }),
    {
        self.local_address = local_address;
    }

    /// The arena index of the slot at `position` of the ring, counted from
    /// the first occupied slot.
    fn slot(&self, position: usize) -> (index: usize)
        requires
            self.wf(),
            position < self.messages@.len(),
        ensures
            index == ring_index(self.head as int, self.messages@.len() as int, position as int),
            index < self.messages@.len(),
    {
        let capacity = self.messages.len();
        if position >= capacity - self.head {
            position - (capacity - self.head)
        } else {
            self.head + position
        }
    }

    /// Moves the first `count` free slots to the end of the occupied
    /// partition.
    pub(crate) fn promote(&mut self, count: usize)
        requires
            old(self).wf(),
            count <= old(self)@.free.len(),
        ensures
            final(self).wf(),
            final(self)@ == old(self)@.promote(count as int),
    {
        assert(self@.free.len() == self.messages.len() - self.occupied);
        self.occupied = self.occupied + count;
        assert(self@.occupied =~= old(self)@.promote(count as int).occupied);
        assert(self@.free =~= old(self)@.promote(count as int).free);
    }

    /// Moves the first `count` occupied slots to the end of the free
    /// partition.
    pub(crate) fn release(&mut self, count: usize)
        requires
            old(self).wf(),
            count <= old(self)@.occupied.len(),
        ensures
            final(self).wf(),
            final(self)@ == old(self)@.release(count as int),
    {
        let capacity = self.messages.len();
        if count > 0 {
            self.head = if count >= capacity - self.head {
                count - (capacity - self.head)
            } else {
                self.head + count
            };
            self.occupied = self.occupied - count;
        }
        assert(self@.occupied =~= old(self)@.release(count as int).occupied);
        assert(self@.free =~= old(self)@.release(count as int).free);
    }

    /// The arena index of the free slot at `position`.
    fn free_slot(&self, position: usize) -> (index: usize)
        requires
            self.wf(),
            position < self@.free.len(),
        ensures
            index == self@.free[position as int],
            index < self@.capacity(),
    {
        assert(self@.free.len() == self.messages.len() - self.occupied);
        self.slot(self.occupied + position)
    }

    /// The arena index of the occupied slot at `position`.
    fn occupied_slot(&self, position: usize) -> (index: usize)
        requires
            self.wf(),
            position < self@.occupied.len(),
        ensures
            index == self@.occupied[position as int],
            index < self@.capacity(),
    {
        self.slot(position)
    }

    /// Copies a datagram into the free slot at `position`; see
    /// [`Free::write`].
    fn write_free(
        &mut self,
        position: usize,
        remote_address: SocketAddress,
        payload: &[u8],
    ) -> (written: bool)
        requires
            old(self).wf(),
        ensures
            final(self).wf(),
            written == (position < old(self)@.free.len() && payload@.len() <= old(self)@.mtu),
            written ==> final(self)@ == old(self)@.with_message(
                old(self)@.free[position as int],
                old(self)@.free_message(position as int).written(
                    remote_address,
                    old(self)@.local_address,
                    payload@,
                ),
            ),
            !written ==> final(self)@ == old(self)@,
    {
        if position >= self.free_len() {
            return false;
        }
        let index = self.free_slot(position);
        let local_address = self.local_address;
        let written = self.messages[index].write(remote_address, local_address, payload);
        proof {
            if written {
                assert(self@.messages =~= old(self)@.with_message(
                    old(self)@.free[position as int],
                    old(self)@.free_message(position as int).written(
                        remote_address,
                        old(self)@.local_address,
                        payload@,
                    ),
                ).messages);
            } else {
                assert(self@.messages =~= old(self)@.messages);
            }
        }
        written
    }

    /// Records the outcome of a receive into the free slot at `position`;
    /// see [`Free::stamp`].
    pub(crate) fn stamp_free(
        &mut self,
        position: usize,
        len: usize,
        remote_address: Option<SocketAddress>,
    ) -> (stamped: bool)
        requires
            old(self).wf(),
            position < old(self)@.free.len(),
        ensures
            final(self).wf(),
            stamped == remote_address is Some,
            remote_address matches Some(address) ==> final(self)@ == old(self)@.with_message(
                old(self)@.free[position as int],
                old(self)@.free_message(position as int).stamped(
                    len as nat,
                    address,
                    old(self)@.local_address,
                ),
            ),
            remote_address is None ==> final(self)@ == old(self)@,
    {
        let index = self.free_slot(position);
        let local_address = self.local_address;
        let stamped = self.messages[index].stamp(len, remote_address, local_address);
        proof {
            match remote_address {
                Some(address) => {
                    assert(self@.messages =~= old(self)@.with_message(
                        old(self)@.free[position as int],
                        old(self)@.free_message(position as int).stamped(
                            len as nat,
                            address,
                            old(self)@.local_address,
                        ),
                    ).messages);
                },
                None => {
                    assert(self@.messages =~= old(self)@.messages);
                },
            }
        }
        stamped
    }

    /// Lets `socket` receive one datagram into the buffer of the free slot at
    /// `position`. Whatever the socket answers, only the bytes of that buffer
    /// can have changed.
    pub(crate) fn recv_free<S: Socket>(&mut self, socket: &S, position: usize) -> (result: Result<
        (usize, Option<SocketAddress>),
        S::Error,
    >)
        requires
            old(self).wf(),
            position < old(self)@.free.len(),
        ensures
            final(self).wf(),
            old(self)@.free_message(position as int).same_shape(
                final(self)@.free_message(position as int),
            ),
            final(self)@ == old(self)@.with_message(
                old(self)@.free[position as int],
                final(self)@.free_message(position as int),
            ),
    {
        let index = self.free_slot(position);
        let result = self.messages[index].recv_from(socket);
        proof {
            assert(self@.messages =~= old(self)@.with_message(
                old(self)@.free[position as int],
                self@.free_message(position as int),
            ).messages);
        }
        result
    }

    /// Lets `socket` send the datagram in the occupied slot at `position` to
    /// the slot's remote address. A slot without one is not sent: the call
    /// returns `None` and the socket is not touched.
    pub(crate) fn send_occupied<S: Socket>(&self, socket: &S, position: usize) -> (result: Option<
        Result<usize, S::Error>,
    >)
        requires
            self.wf(),
            position < self@.occupied.len(),
        ensures
            result is Some == self@.occupied_message(position as int).remote_address is Some,
    {
        let index = self.occupied_slot(position);
        self.messages[index].send_to(socket)
    }
}

/// The free partition of a queue, borrowed to be filled.
///
/// Slots are addressed by their position in the partition. Filling a slot
/// does not move it: [`Free::finish`] moves the slots at the front of the
/// partition to the occupied partition, and the rest stay free whatever was
/// written to them.
pub struct Free<'a> {
    pub queue: &'a mut Queue,
}

impl<'a> Free<'a> {
    /// The number of free slots.
    pub fn len(&self) -> (len: usize)
        requires
            self.queue.wf(),
        ensures
            len == old(self.queue)@.free.len(),
    {
        self.queue.free_len()
    }

    /// The free slot at `position`, or `None` past the end of the partition.
    pub fn get(&self, position: usize) -> (message: Option<&Message>)
        requires
            self.queue.wf(),
        ensures
            message is Some == (position < old(self.queue)@.free.len()),
            message matches Some(m) ==> m@ == old(self.queue)@.free_message(position as int)
                && m@.wf(),
    {
        if position < self.queue.free_len() {
            let index = self.queue.free_slot(position);
            Some(&self.queue.messages[index])
        } else {
            None
        }
    }

    /// Copies the datagram `payload`, addressed to `remote_address`, into the
    /// free slot at `position`.
    ///
    /// Returns `false`, changing nothing, if there is no such slot or the
    /// payload is longer than a slot.
    pub fn write(
        &mut self,
        position: usize,
        remote_address: SocketAddress,
        payload: &[u8],
    ) -> (written: bool)
        requires
            old(self).queue.wf(),
        ensures
            final(self).queue.wf(),
            *final(final(self).queue) == *final(old(self).queue),
            written == (position < old(self).queue@.free.len()
                && payload@.len() <= old(self).queue@.mtu),
            written ==> final(self).queue@ == old(self).queue@.with_message(
                old(self).queue@.free[position as int],
                old(self).queue@.free_message(position as int).written(
                    remote_address,
                    old(self).queue@.local_address,
                    payload@,
                ),
            ),
            !written ==> final(self).queue@ == old(self).queue@,
    {
        self.queue.write_free(position, remote_address, payload)
    }

    /// Records the outcome of a successful receive into the buffer of the free
    /// slot at `position`: the length the transport reported and the source
    /// address, if it gave one.
    ///
    /// With an address the slot takes the length, cut down to the slot's
    /// capacity, the address, and the queue's local address, and the call
    /// returns `true`. Without one, or if there is no such slot, nothing
    /// changes and the call returns `false`.
    pub fn stamp(
        &mut self,
        position: usize,
        len: usize,
        remote_address: Option<SocketAddress>,
    ) -> (stamped: bool)
        requires
            old(self).queue.wf(),
        ensures
            final(self).queue.wf(),
            *final(final(self).queue) == *final(old(self).queue),
            stamped == (position < old(self).queue@.free.len() && remote_address is Some),
            stamped ==> final(self).queue@ == old(self).queue@.with_message(
                old(self).queue@.free[position as int],
                old(self).queue@.free_message(position as int).stamped(
                    len as nat,
                    remote_address->0,
                    old(self).queue@.local_address,
                ),
            ),
            !stamped ==> final(self).queue@ == old(self).queue@,
    {
        if position < self.queue.free_len() {
            self.queue.stamp_free(position, len, remote_address)
        } else {
            false
        }
    }

    /// Moves the first `count` free slots to the end of the occupied
    /// partition and ends the borrow.
    pub fn finish(self, count: usize)
        requires
            old(self.queue).wf(),
            count <= old(self.queue)@.free.len(),
        ensures
            final(self.queue).wf(),
            final(self.queue)@ == old(self.queue)@.promote(count as int),
    {
        self.queue.promote(count);
    }
}

/// The occupied partition of a queue, borrowed to be drained.
///
/// Slots are addressed by their position in the partition.
/// [`Occupied::finish`] moves the slots at the front of the partition to the
/// free partition; the rest stay occupied.
pub struct Occupied<'a> {
    pub queue: &'a mut Queue,
}

impl<'a> Occupied<'a> {
    /// The number of occupied slots.
    pub fn len(&self) -> (len: usize)
        requires
            self.queue.wf(),
        ensures
            len == old(self.queue)@.occupied.len(),
    {
        self.queue.occupied_len()
    }

    /// The occupied slot at `position`, or `None` past the end of the
    /// partition.
    pub fn get(&self, position: usize) -> (message: Option<&Message>)
        requires
            self.queue.wf(),
        ensures
            message is Some == (position < old(self.queue)@.occupied.len()),
            message matches Some(m) ==> m@ == old(self.queue)@.occupied_message(position as int)
                && m@.wf(),
    {
        if position < self.queue.occupied_len() {
            let index = self.queue.occupied_slot(position);
            Some(&self.queue.messages[index])
        } else {
            None
        }
    }

    /// Moves the first `count` occupied slots to the end of the free
    /// partition and ends the borrow.
    pub fn finish(self, count: usize)
        requires
            old(self.queue).wf(),
            count <= old(self.queue)@.occupied.len(),
        ensures
            final(self.queue).wf(),
            final(self.queue)@ == old(self.queue)@.release(count as int),
    {
        self.queue.release(count);
    }
}

impl Queue {
    /// Borrows the occupied partition: the datagrams that were received and
    /// wait to be consumed.
    pub fn rx_queue(&mut self) -> (occupied: Occupied<'_>)
        ensures
            *occupied.queue == *old(self),
            *final(occupied.queue) == *final(self),
    {
        Occupied { queue: self }
    }

    /// Borrows the free partition: the slots that datagrams can be written to
    /// for transmission.
    pub fn tx_queue(&mut self) -> (free: Free<'_>)
        ensures
            *free.queue == *old(self),
            *final(free.queue) == *final(self),
    {
        Free { queue: self }
    }
}

} // verus!
