//! The transmit and receive engines: one batch of socket calls per
//! invocation, with the queue's partitions moved by exactly what succeeded.
//!
//! What a batch does depends on what the socket answers, and nothing is known
//! of a socket but its signature. So each engine's contract has two parts.
//! The clauses that hold whatever the socket does are stated directly. The
//! rest is stated over a *batch*: a description of what the socket did, which
//! fixes the result, the new partitions and the telemetry completely. The
//! engine promises that some batch describes the call.

use vstd::prelude::*;
use crate::event::{rx_events, tx_events, Event, PlatformRx, PlatformRxError, PlatformTx, Publisher};
use crate::message::MessageView;
use crate::queue::{Free, Occupied, Queue, QueueView};
use crate::socket::{
    classify, last_os_error, rx_disposition, rx_stops, tx_disposition, tx_stops, Disposition,
    Error, ErrorClass, Socket,
};

verus! {

/// How many datagrams without a source address one receive batch drops before
/// it gives up.
pub const DISCARD_LIMIT: usize = usize::MAX;

/// How many of the first `stop` occupied slots of `queue` have a remote
/// address: the datagrams a transmit batch sends before it reaches position
/// `stop`.
pub open spec fn addressed(queue: QueueView, stop: nat) -> nat
    decreases stop,
{
    if stop == 0 {
        0
    } else {
        let before = addressed(queue, (stop - 1) as nat);
        if queue.occupied_message(stop - 1).remote_address is Some {
            before + 1
        } else {
            before
        }
    }
}

/// No more slots have an address than there are slots.
pub proof fn lemma_addressed_bound(queue: QueueView, stop: nat)
    ensures
        addressed(queue, stop) <= stop,
    decreases stop,
{
    if stop > 0 {
        lemma_addressed_bound(queue, (stop - 1) as nat);
    }
}

/// What the socket did during one transmit batch.
pub struct TxBatch {
    /// The position in the occupied partition at which the batch ended.
    /// Every addressed slot before it was sent.
    pub stop: nat,
    /// How the send of the slot at `stop` failed, if it did. `None` means
    /// that no send failed.
    pub failure: Option<ErrorClass>,
    /// The error number read when the failure was reported.
    pub errno: i32,
}

impl TxBatch {
    /// Whether the batch can have happened on `queue`: it either went
    /// through the whole occupied partition or failed at a slot that has an
    /// address.
    pub open spec fn ran(self, queue: QueueView) -> bool {
        &&& self.stop <= queue.occupied.len()
        &&& self.failure is None ==> self.stop == queue.occupied.len()
        &&& self.failure is Some ==> self.stop < queue.occupied.len() && queue.occupied_message(
            self.stop as int,
        ).remote_address is Some
    }

    /// The number of datagrams that went out.
    pub open spec fn sent(self, queue: QueueView) -> nat {
        addressed(queue, self.stop)
    }

    /// Whether the batch ended with a failure that [`Queue::tx`] surfaces.
    pub open spec fn fails(self, queue: QueueView) -> bool {
        self.failure matches Some(class) && !tx_stops(self.sent(queue), class)
    }
}

/// The contract of [`Queue::tx`], given what the socket did.
///
/// The first `sent` occupied slots move to the free partition and no slot
/// changes. One `PlatformTx` event is published per datagram sent. A batch
/// that fails also publishes the error and returns it; any other returns the
/// number sent.
pub open spec fn tx_outcome<E>(
    old: QueueView,
    new: QueueView,
    old_events: Seq<Event>,
    new_events: Seq<Event>,
    result: Result<usize, E>,
    batch: TxBatch,
) -> bool {
    let sent = batch.sent(old);
    &&& batch.ran(old)
    &&& new == old.release(sent as int)
    &&& if batch.fails(old) {
        &&& result is Err
        &&& new_events == old_events + tx_events(sent).push(
            Event::PlatformRxError(PlatformRxError { errno: batch.errno }),
        )
    } else {
        &&& result == Ok::<usize, E>(sent as usize)
        &&& new_events == old_events + tx_events(sent)
    }
}

/// The contract of [`tx`], given the position at which the batch ended.
///
/// The batch went through the whole partition and succeeded, or it failed at
/// the slot at `stop`, which has an address. The first `addressed(old, stop)`
/// occupied slots move to the free partition and no slot changes.
pub open spec fn channel_tx_outcome<E>(
    old: QueueView,
    new: QueueView,
    result: Result<(), E>,
    stop: nat,
) -> bool {
    &&& stop <= old.occupied.len()
    &&& result is Ok ==> stop == old.occupied.len()
    &&& result is Err ==> stop < old.occupied.len() && old.occupied_message(
        stop as int,
    ).remote_address is Some
    &&& new == old.release(addressed(old, stop) as int)
}

/// What the socket did during one receive batch.
pub struct RxBatch {
    /// How many receives delivered a datagram with a source address.
    pub received: nat,
    /// How many receives delivered a datagram without one.
    pub discarded: nat,
    /// How the receive that ended the batch failed, if one did.
    pub failure: Option<ErrorClass>,
    /// The error number read when the failure was reported.
    pub errno: i32,
}

impl RxBatch {
    /// Whether the batch can have happened on `queue`: it filled every free
    /// slot, or failed with a slot still free, or gave up at the discard
    /// limit.
    pub open spec fn ran(self, queue: QueueView) -> bool {
        &&& self.received <= queue.free.len()
        &&& self.failure is Some ==> self.received < queue.free.len()
        &&& self.failure is None ==> self.received == queue.free.len() || self.discarded
            == DISCARD_LIMIT
    }

    /// Whether the batch ended with a failure that [`Queue::rx`] surfaces.
    pub open spec fn fails(self) -> bool {
        self.failure matches Some(class) && !rx_stops(self.received, class)
    }
}

/// Whether `messages` is what a receive batch leaves of the slots of `old`
/// after `received` datagrams were accepted.
///
/// The first `received` free slots were stamped: each has a remote address,
/// the queue's local address and a length within its capacity. The next free
/// slot may have been written
/// to by a receive that did not count, so its bytes are unknown, but nothing
/// else of it changed. Every other slot is untouched.
pub open spec fn rx_filled(old: QueueView, messages: Seq<MessageView>, received: nat) -> bool {
    &&& messages.len() == old.messages.len()
    &&& forall|k: int|
        0 <= k < received ==> {
            let message = messages[#[trigger] old.free[k]];
            &&& message.remote_address is Some
            &&& message.local_address == old.local_address
            &&& message.payload_len <= message.capacity() == old.mtu
        }
    &&& received < old.free.len() ==> old.free_message(received as int).same_shape(
        messages[old.free[received as int]],
    )
    &&& forall|k: int|
        received < k < old.free.len() ==> messages[#[trigger] old.free[k]] == old.free_message(k)
    &&& forall|k: int|
        0 <= k < old.occupied.len() ==> messages[#[trigger] old.occupied[k]]
            == old.occupied_message(k)
}

/// Whether `new` is `old` after a receive batch accepted `received`
/// datagrams: the slots are as [`rx_filled`] says, and the first `received`
/// free slots moved to the end of the occupied partition.
pub open spec fn rx_promoted(old: QueueView, new: QueueView, received: nat) -> bool {
    &&& new.occupied == old.occupied + old.free.take(received as int)
    &&& new.free == old.free.skip(received as int)
    &&& new.mtu == old.mtu
    &&& new.local_address == old.local_address
    &&& rx_filled(old, new.messages, received)
}

/// The contract of [`Queue::rx`], given what the socket did.
///
/// The slots that took a datagram move to the occupied partition. One
/// `PlatformRx` event is published per datagram received. A batch that fails
/// also publishes the error and returns it; any other returns the number
/// received.
pub open spec fn rx_outcome<E>(
    old: QueueView,
    new: QueueView,
    old_events: Seq<Event>,
    new_events: Seq<Event>,
    result: Result<usize, E>,
    batch: RxBatch,
) -> bool {
    &&& batch.ran(old)
    &&& rx_promoted(old, new, batch.received)
    &&& if batch.fails() {
        &&& result is Err
        &&& new_events == old_events + rx_events(batch.received).push(
            Event::PlatformRxError(PlatformRxError { errno: batch.errno }),
        )
    } else {
        &&& result == Ok::<usize, E>(batch.received as usize)
        &&& new_events == old_events + rx_events(batch.received)
    }
}

/// The contract of [`rx`], given how many datagrams were accepted and how
/// many were dropped.
///
/// The batch succeeded after it filled every free slot or reached the discard
/// limit, or it failed with a slot still free. The slots that took a
/// datagram move to the occupied partition.
pub open spec fn channel_rx_outcome<E>(
    old: QueueView,
    new: QueueView,
    result: Result<(), E>,
    received: nat,
    discarded: nat,
) -> bool {
    &&& received <= old.free.len()
    &&& result is Ok ==> received == old.free.len() || discarded == DISCARD_LIMIT
    &&& result is Err ==> received < old.free.len()
    &&& rx_promoted(old, new, received)
}

impl Queue {
    /// Sends one batch of datagrams from the occupied slots through `socket`.
    ///
    /// Occupied slots are visited in partition order. A slot with a remote
    /// address is sent to it; one without is passed over. Every send that
    /// succeeds is counted, and one `PlatformTx` event is published for it.
    /// The batch ends after the last slot or at the first send that fails.
    ///
    /// A failure that [`tx_stops`] absorbs ends the batch with `Ok`. Any other
    /// publishes one `PlatformRxError` event and is returned; a full send
    /// buffer before anything was sent is such a failure. Either way as many
    /// slots as were sent move from the front of the occupied partition to the
    /// free partition.
    pub fn tx<S: Socket>(&mut self, socket: &S, publisher: &mut Publisher) -> (result: Result<
        usize,
        S::Error,
    >)
        requires
            old(self).wf(),
        ensures
            final(self).wf(),
            final(self)@.capacity() == old(self)@.capacity(),
            final(self)@.free.len() + final(self)@.occupied.len() == old(self)@.capacity(),
            addressed(old(self)@, old(self)@.occupied.len()) == 0 ==> result == Ok::<
                usize,
                S::Error,
            >(0),
            result matches Ok(sent) ==> {
                &&& sent <= old(self)@.occupied.len()
                &&& final(self)@ == old(self)@.release(sent as int)
                &&& final(publisher)@ == old(publisher)@ + tx_events(sent as nat)
            },
            result matches Err(error) ==> !tx_stops(
                (final(self)@.free.len() - old(self)@.free.len()) as nat,
                error.class(),
            ),
            exists|batch: TxBatch| #[trigger]
                tx_outcome(
                    old(self)@,
                    final(self)@,
                    old(publisher)@,
                    final(publisher)@,
                    result,
                    batch,
                ),
    {
        let occupied_len = self.occupied_len();
        let mut count: usize = 0;
        let mut position: usize = 0;
        let ghost mut failure: Option<ErrorClass> = None;
        proof {
            self.lemma_view_wf();
            assert(old(publisher)@ + tx_events(0) =~= old(publisher)@);
        }
        while position < occupied_len
            invariant_except_break
                failure is None,
            invariant
                self.wf(),
                self@ == old(self)@,
                occupied_len == old(self)@.occupied.len(),
                position <= occupied_len,
                count == addressed(old(self)@, position as nat),
                count <= position,
                publisher@ == old(publisher)@ + tx_events(count as nat),
            ensures
                position <= occupied_len,
                failure is None ==> position == occupied_len,
                failure matches Some(class) ==> position < occupied_len && old(
                    self,
                )@.occupied_message(position as int).remote_address is Some && tx_stops(
                    count as nat,
                    class,
                ),
            decreases occupied_len - position,
        {
            match self.send_occupied(socket, position) {
                None => {},
                Some(Ok(_)) => {
                    publisher.on_platform_tx(PlatformTx { count: 1 });
                    proof {
                        assert(tx_events(count as nat).push(
                            Event::PlatformTx(PlatformTx { count: 1 }),
                        ) =~= tx_events((count + 1) as nat));
                        assert(publisher@ =~= old(publisher)@ + tx_events((count + 1) as nat));
                    }
                    count += 1;
                },
                Some(Err(error)) => {
                    let class = classify(&error);
                    match tx_disposition(count, class) {
                        Disposition::Stop => {
                            proof {
                                failure = Some(class);
                            }
                            break;
                        },
                        Disposition::Fail => {
                            self.release(count);
                            let errno = last_os_error();
                            publisher.on_platform_rx_error(PlatformRxError { errno });
                            proof {
                                let batch = TxBatch {
                                    stop: position as nat,
                                    failure: Some(class),
                                    errno,
                                };
                                self.lemma_view_wf();
                                lemma_addressed_rest(
                                    old(self)@,
                                    position as nat,
                                    occupied_len as nat,
                                );
                                assert(publisher@ =~= old(publisher)@ + tx_events(
                                    count as nat,
                                ).push(Event::PlatformRxError(PlatformRxError { errno })));
                                assert(tx_outcome(
                                    old(self)@,
                                    self@,
                                    old(publisher)@,
                                    publisher@,
                                    Err::<usize, S::Error>(error),
                                    batch,
                                ));
                            }
                            return Err(error);
                        },
                    }
                },
            }
            position += 1;
        }
        self.release(count);
        proof {
            let batch = TxBatch { stop: position as nat, failure, errno: 0 };
            self.lemma_view_wf();
            lemma_addressed_rest(old(self)@, position as nat, occupied_len as nat);
            assert(tx_outcome(
                old(self)@,
                self@,
                old(publisher)@,
                publisher@,
                Ok::<usize, S::Error>(count),
                batch,
            ));
        }
        Ok(count)
    }

    /// Receives one batch of datagrams from `socket` into the free slots.
    ///
    /// Free slots are filled in partition order, one datagram per slot. A
    /// datagram with a source address is stamped into its slot and counted,
    /// and one `PlatformRx` event is published for it. A datagram without a
    /// source address is dropped: its slot stays free and is offered to the
    /// next receive. The batch ends when every free slot is filled, when a
    /// receive fails, or when [`DISCARD_LIMIT`] datagrams were dropped.
    ///
    /// A failure that [`rx_stops`] absorbs ends the batch with `Ok`. Any other
    /// publishes one `PlatformRxError` event and is returned; an empty socket
    /// before anything was received is such a failure. Either way the slots
    /// filled so far move to the occupied partition.
    pub fn rx<S: Socket>(&mut self, socket: &S, publisher: &mut Publisher) -> (result: Result<
        usize,
        S::Error,
    >)
        requires
            old(self).wf(),
        ensures
            final(self).wf(),
            final(self)@.capacity() == old(self)@.capacity(),
            final(self)@.free.len() + final(self)@.occupied.len() == old(self)@.capacity(),
            old(self)@.free.len() == 0 ==> result == Ok::<usize, S::Error>(0),
            result matches Ok(received) ==> {
                &&& received <= old(self)@.free.len()
                &&& rx_promoted(old(self)@, final(self)@, received as nat)
                &&& final(publisher)@ == old(publisher)@ + rx_events(received as nat)
            },
            result matches Err(error) ==> !rx_stops(
                (final(self)@.occupied.len() - old(self)@.occupied.len()) as nat,
                error.class(),
            ),
            exists|batch: RxBatch| #[trigger]
                rx_outcome(
                    old(self)@,
                    final(self)@,
                    old(publisher)@,
                    final(publisher)@,
                    result,
                    batch,
                ),
    {
        let free_len = self.free_len();
        let mut count: usize = 0;
        let mut discarded: usize = 0;
        let ghost mut failure: Option<ErrorClass> = None;
        proof {
            self.lemma_view_wf();
            old(self)@.lemma_distinct();
            assert(old(publisher)@ + rx_events(0) =~= old(publisher)@);
        }
        while count < free_len && discarded < DISCARD_LIMIT
            invariant_except_break
                failure is None,
            invariant
                self.wf(),
                old(self)@.wf(),
                free_len == old(self)@.free.len(),
                count <= free_len,
                self@.occupied == old(self)@.occupied,
                self@.free == old(self)@.free,
                self@.mtu == old(self)@.mtu,
                self@.local_address == old(self)@.local_address,
                rx_filled(old(self)@, self@.messages, count as nat),
                publisher@ == old(publisher)@ + rx_events(count as nat),
            ensures
                count <= free_len,
                failure is Some ==> count < free_len,
                failure is None ==> count == free_len || discarded == DISCARD_LIMIT,
                failure matches Some(class) ==> rx_stops(count as nat, class),
            decreases (free_len - count) + (DISCARD_LIMIT - discarded),
        {
            proof {
                old(self)@.lemma_distinct();
            }
            match self.recv_free(socket, count) {
                Ok((len, remote_address)) => {
                    if self.stamp_free(count, len, remote_address) {
                        publisher.on_platform_rx(PlatformRx { count: 1 });
                        proof {
                            assert(rx_events(count as nat).push(
                                Event::PlatformRx(PlatformRx { count: 1 }),
                            ) =~= rx_events((count + 1) as nat));
                            assert(publisher@ =~= old(publisher)@ + rx_events((count + 1) as nat));
                        }
                        count += 1;
                    } else {
                        discarded += 1;
                    }
                },
                Err(error) => {
                    let class = classify(&error);
                    match rx_disposition(count, class) {
                        Disposition::Stop => {
                            proof {
                                failure = Some(class);
                            }
                            break;
                        },
                        Disposition::Fail => {
                            self.promote(count);
                            let errno = last_os_error();
                            publisher.on_platform_rx_error(PlatformRxError { errno });
                            proof {
                                let batch = RxBatch {
                                    received: count as nat,
                                    discarded: discarded as nat,
                                    failure: Some(class),
                                    errno,
                                };
                                assert(publisher@ =~= old(publisher)@ + rx_events(
                                    count as nat,
                                ).push(Event::PlatformRxError(PlatformRxError { errno })));
                                assert(rx_outcome(
                                    old(self)@,
                                    self@,
                                    old(publisher)@,
                                    publisher@,
                                    Err::<usize, S::Error>(error),
                                    batch,
                                ));
                            }
                            return Err(error);
                        },
                    }
                },
            }
        }
        self.promote(count);
        proof {
            let batch = RxBatch {
                received: count as nat,
                discarded: discarded as nat,
                failure,
                errno: 0,
            };
            assert(rx_outcome(
                old(self)@,
                self@,
                old(publisher)@,
                publisher@,
                Ok::<usize, S::Error>(count),
                batch,
            ));
        }
        Ok(count)
    }
}

/// Slots beyond `stop` only add to the count of addressed slots, and an
/// addressed slot at `stop` adds at least one.
proof fn lemma_addressed_rest(queue: QueueView, stop: nat, end: nat)
    requires
        stop <= end,
    ensures
        addressed(queue, stop) <= addressed(queue, end),
        stop < end && queue.occupied_message(stop as int).remote_address is Some ==> addressed(
            queue,
            stop,
        ) < addressed(queue, end),
    decreases end - stop,
{
    if stop < end {
        lemma_addressed_rest(queue, stop, (end - 1) as nat);
    }
}

/// Sends the datagrams of an occupied partition through `socket`, in
/// partition order, until one fails.
///
/// A slot with a remote address is sent to it; one without is passed over.
/// The first send that fails ends the batch and its error is returned,
/// whatever its kind. As many slots as were sent move from the front of the
/// occupied partition to the free partition.
pub fn tx<S: Socket>(socket: &S, channel: &mut Occupied<'_>) -> (result: Result<(), S::Error>)
    requires
        old(channel).queue.wf(),
    ensures
        final(channel).queue.wf(),
        *final(final(channel).queue) == *final(old(channel).queue),
        addressed(old(channel).queue@, old(channel).queue@.occupied.len()) == 0 ==> result is Ok,
        exists|stop: nat| #[trigger]
            channel_tx_outcome(old(channel).queue@, final(channel).queue@, result, stop),
{
    let occupied_len = channel.queue.occupied_len();
    let mut count: usize = 0;
    let mut position: usize = 0;
    let mut result: Result<(), S::Error> = Ok(());
    while position < occupied_len
        invariant_except_break
            result is Ok,
        invariant
            channel.queue.wf(),
            channel.queue@ == old(channel).queue@,
            *final(channel.queue) == *final(old(channel).queue),
            occupied_len == old(channel).queue@.occupied.len(),
            position <= occupied_len,
            count == addressed(old(channel).queue@, position as nat),
            count <= position,
        ensures
            position <= occupied_len,
            result is Ok ==> position == occupied_len,
            result is Err ==> position < occupied_len && old(channel).queue@.occupied_message(
                position as int,
            ).remote_address is Some,
        decreases occupied_len - position,
    {
        match channel.queue.send_occupied(socket, position) {
            None => {},
            Some(Ok(_)) => {
                count += 1;
            },
            Some(Err(error)) => {
                result = Err(error);
                break;
            },
        }
        position += 1;
    }
    if count > 0 {
        channel.queue.release(count);
    }
    proof {
        let old_view = old(channel).queue@;
        if count == 0 {
            assert(old_view.occupied.skip(0) =~= old_view.occupied);
            assert(old_view.free + old_view.occupied.take(0) =~= old_view.free);
        }
        lemma_addressed_rest(old_view, position as nat, occupied_len as nat);
        assert(channel_tx_outcome(old_view, channel.queue@, result, position as nat));
    }
    result
}

/// Receives datagrams from `socket` into a free partition, in partition
/// order, until a receive fails.
///
/// A datagram with a source address is stamped into its slot; one without is
/// dropped and its slot offered to the next receive. The first receive that
/// fails ends the batch and its error is returned, whatever its kind. The
/// batch also ends when every free slot is filled or [`DISCARD_LIMIT`]
/// datagrams were dropped. The slots filled move to the occupied partition.
pub fn rx<S: Socket>(socket: &S, channel: &mut Free<'_>) -> (result: Result<(), S::Error>)
    requires
        old(channel).queue.wf(),
    ensures
        final(channel).queue.wf(),
        *final(final(channel).queue) == *final(old(channel).queue),
        old(channel).queue@.free.len() == 0 ==> result is Ok,
        exists|received: nat, discarded: nat| #[trigger]
            channel_rx_outcome(
                old(channel).queue@,
                final(channel).queue@,
                result,
                received,
                discarded,
            ),
{
    let free_len = channel.queue.free_len();
    let mut count: usize = 0;
    let mut discarded: usize = 0;
    let mut result: Result<(), S::Error> = Ok(());
    proof {
        channel.queue.lemma_view_wf();
    }
    while count < free_len && discarded < DISCARD_LIMIT
        invariant_except_break
            result is Ok,
        invariant
            channel.queue.wf(),
            old(channel).queue@.wf(),
            *final(channel.queue) == *final(old(channel).queue),
            free_len == old(channel).queue@.free.len(),
            count <= free_len,
            channel.queue@.occupied == old(channel).queue@.occupied,
            channel.queue@.free == old(channel).queue@.free,
            channel.queue@.mtu == old(channel).queue@.mtu,
            channel.queue@.local_address == old(channel).queue@.local_address,
            rx_filled(old(channel).queue@, channel.queue@.messages, count as nat),
        ensures
            count <= free_len,
            result is Err ==> count < free_len,
            result is Ok ==> count == free_len || discarded == DISCARD_LIMIT,
        decreases (free_len - count) + (DISCARD_LIMIT - discarded),
    {
        proof {
            old(channel).queue@.lemma_distinct();
        }
        match channel.queue.recv_free(socket, count) {
            Ok((len, remote_address)) => {
                if channel.queue.stamp_free(count, len, remote_address) {
                    count += 1;
                } else {
                    discarded += 1;
                }
            },
            Err(error) => {
                result = Err(error);
                break;
            },
        }
    }
    channel.queue.promote(count);
    proof {
        assert(channel_rx_outcome(
            old(channel).queue@,
            channel.queue@,
            result,
            count as nat,
            discarded as nat,
        ));
    }
    result
}

} // verus!
