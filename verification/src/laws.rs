//! What holds of every queue and of every batch, proved from the contracts of
//! the queue and the engines.

use vstd::prelude::*;
use crate::engine::{lemma_addressed_bound, rx_outcome, tx_outcome, RxBatch, TxBatch};
use crate::event::{rx_events, tx_events, Event, PlatformRxError, PlatformTx};
use crate::inet::{LocalAddress, SocketAddress};
use crate::message::MessageView;
use crate::queue::{Queue, QueueView};

verus! {

/// Every slot of a queue is free or occupied: the sizes of the two partitions
/// add up to the capacity. Each operation of a queue keeps it sound and keeps
/// its capacity, so this holds after every call.
pub proof fn lemma_partition_sizes(queue: Queue)
    requires
        queue.wf(),
    ensures
        queue@.free.len() + queue@.occupied.len() == queue@.capacity(),
{
    queue.lemma_view_wf();
}

/// Every arena index is in exactly one of the two partitions, and at exactly
/// one position of it.
pub proof fn lemma_one_partition(queue: Queue, index: int)
    requires
        queue.wf(),
        0 <= index < queue@.capacity(),
    ensures
        queue@.free.contains(index) != queue@.occupied.contains(index),
        queue@.free.no_duplicates(),
        queue@.occupied.no_duplicates(),
{
    queue.lemma_view_wf();
    let view = queue@;
    view.lemma_distinct();
    let all = view.occupied + view.free;
    assert(all.contains(index));
    let position = choose|position: int| 0 <= position < all.len() && all[position] == index;
    if position < view.occupied.len() {
        assert(view.occupied[position] == index);
    } else {
        assert(view.free[position - view.occupied.len()] == index);
    }
}

/// The length of the datagram in a slot never exceeds the slot's capacity,
/// which is the queue's.
pub proof fn lemma_length_within_capacity(queue: Queue, index: int)
    requires
        queue.wf(),
        0 <= index < queue@.capacity(),
    ensures
        queue@.messages[index].payload_len <= queue@.messages[index].capacity(),
        queue@.messages[index].capacity() == queue@.mtu,
{
    queue.lemma_view_wf();
}

/// Stamping a slot with a reported length never leaves a length beyond the
/// slot's capacity: a length within the capacity is kept, a longer one
/// becomes the capacity.
pub proof fn lemma_stamped_length(
    message: MessageView,
    len: nat,
    remote_address: SocketAddress,
    local_address: LocalAddress,
)
    ensures
        message.stamped(len, remote_address, local_address).payload_len <= message.capacity(),
        len <= message.capacity() ==> message.stamped(
            len,
            remote_address,
            local_address,
        ).payload_len == len,
        len > message.capacity() ==> message.stamped(
            len,
            remote_address,
            local_address,
        ).payload_len == message.capacity(),
        message.stamped(len, remote_address, local_address).wf(),
{
}

/// A transmit batch that sent at least one datagram and then found the send
/// buffer full succeeds with the number sent, and exactly that many slots
/// move from the front of the occupied partition to the end of the free one.
pub proof fn lemma_tx_partial_batch<E>(
    old: QueueView,
    new: QueueView,
    old_events: Seq<Event>,
    new_events: Seq<Event>,
    result: Result<usize, E>,
    batch: TxBatch,
)
    requires
        old.wf(),
        tx_outcome(old, new, old_events, new_events, result, batch),
        batch.failure matches Some(class) && class.would_block,
        batch.sent(old) >= 1,
    ensures
        result == Ok::<usize, E>(batch.sent(old) as usize),
        batch.sent(old) <= batch.stop < old.occupied.len(),
        new.free == old.free + old.occupied.take(batch.sent(old) as int),
        new.occupied == old.occupied.skip(batch.sent(old) as int),
        new.free.len() == old.free.len() + batch.sent(old),
        new.occupied.len() + batch.sent(old) == old.occupied.len(),
        new.messages == old.messages,
{
    lemma_addressed_bound(old, batch.stop);
}

/// Datagrams without a source address do not count: however many a receive
/// batch dropped, the partitions move by the number it accepted, and that is
/// the number it returns. The slot that the dropped datagrams were written
/// to is still free and, but for its bytes, as it was.
pub proof fn lemma_rx_discards_do_not_count<E>(
    old: QueueView,
    new: QueueView,
    old_events: Seq<Event>,
    new_events: Seq<Event>,
    result: Result<usize, E>,
    batch: RxBatch,
)
    requires
        old.wf(),
        rx_outcome(old, new, old_events, new_events, result, batch),
    ensures
        new.occupied.len() == old.occupied.len() + batch.received,
        new.free.len() + batch.received == old.free.len(),
        result matches Ok(received) ==> received == batch.received,
        batch.received == 0 ==> new.occupied == old.occupied && new.free == old.free,
        batch.received < old.free.len() ==> new.free[0] == old.free[batch.received as int]
            && old.free_message(batch.received as int).same_shape(new.free_message(0)),
{
    if batch.received == 0 {
        assert(old.free.take(0) =~= Seq::<int>::empty());
        assert(old.occupied + old.free.take(0) =~= old.occupied);
        assert(old.free.skip(0) =~= old.free);
    }
}

/// A receive batch that fails keeps what it received before the failure: the
/// error is returned, but the slots that took a datagram are occupied, each
/// with a remote address and the queue's local address, and the telemetry
/// shows each of them before the error.
pub proof fn lemma_rx_failure_keeps_progress<E>(
    old: QueueView,
    new: QueueView,
    old_events: Seq<Event>,
    new_events: Seq<Event>,
    result: Result<usize, E>,
    batch: RxBatch,
)
    requires
        old.wf(),
        rx_outcome(old, new, old_events, new_events, result, batch),
        batch.fails(),
    ensures
        result is Err,
        new.occupied.len() == old.occupied.len() + batch.received,
        new.occupied.take(old.occupied.len() as int) == old.occupied,
        forall|k: int|
            0 <= k < batch.received ==> {
                let message = #[trigger] new.occupied_message(old.occupied.len() + k);
                &&& new.occupied[old.occupied.len() + k] == old.free[k]
                &&& message.remote_address is Some
                &&& message.local_address == old.local_address
            },
        new_events == old_events + rx_events(batch.received).push(
            Event::PlatformRxError(PlatformRxError { errno: batch.errno }),
        ),
{
    assert(new.occupied.take(old.occupied.len() as int) =~= old.occupied);
    assert forall|k: int| 0 <= k < batch.received implies {
        let message = #[trigger] new.occupied_message(old.occupied.len() + k);
        &&& new.occupied[old.occupied.len() + k] == old.free[k]
        &&& message.remote_address is Some
        &&& message.local_address == old.local_address
    } by {
        assert(new.occupied[old.occupied.len() + k] == old.free.take(batch.received as int)[k]);
        assert(new.messages[old.free[k]].remote_address is Some);
    }
}

/// A transmit batch that succeeds with `sent` datagrams publishes exactly
/// `sent` events, each a `PlatformTx` of count one, and no error event.
pub proof fn lemma_tx_telemetry<E>(
    old: QueueView,
    new: QueueView,
    old_events: Seq<Event>,
    new_events: Seq<Event>,
    result: Result<usize, E>,
    batch: TxBatch,
    sent: usize,
)
    requires
        old.wf(),
        tx_outcome(old, new, old_events, new_events, result, batch),
        result == Ok::<usize, E>(sent),
    ensures
        new_events == old_events + tx_events(sent as nat),
        new_events.len() == old_events.len() + sent,
        forall|i: int|
            old_events.len() <= i < new_events.len() ==> #[trigger] new_events[i]
                == Event::PlatformTx(PlatformTx { count: 1 }),
{
    lemma_addressed_bound(old, batch.stop);
}

/// A transmit batch that fails publishes one `PlatformTx` event for every
/// datagram it sent before the failure, then the error, and nothing else.
pub proof fn lemma_tx_failure_telemetry<E>(
    old: QueueView,
    new: QueueView,
    old_events: Seq<Event>,
    new_events: Seq<Event>,
    result: Result<usize, E>,
    batch: TxBatch,
)
    requires
        old.wf(),
        tx_outcome(old, new, old_events, new_events, result, batch),
        result is Err,
    ensures
        batch.fails(old),
        new == old.release(batch.sent(old) as int),
        new_events.len() == old_events.len() + batch.sent(old) + 1,
        new_events.last() == Event::PlatformRxError(PlatformRxError { errno: batch.errno }),
        forall|i: int|
            old_events.len() <= i < new_events.len() - 1 ==> #[trigger] new_events[i]
                == Event::PlatformTx(PlatformTx { count: 1 }),
{
}

} // verus!
