//! One datagram slot: a fixed buffer, the number of its bytes that are
//! meaningful, and the addresses the datagram travels between.

use vstd::prelude::*;
use crate::inet::{LocalAddress, SocketAddress};
use crate::socket::Socket;

verus! {

/// What a [`Message`] holds, as mathematical values.
pub struct MessageView {
    /// Every byte of the slot's buffer; its length is the slot's capacity.
    pub buffer: Seq<u8>,
    /// How many leading bytes of `buffer` are the datagram.
    pub payload_len: nat,
    /// Where the datagram came from or goes to; `None` while unknown.
    pub remote_address: Option<SocketAddress>,
    /// The local end of the exchange.
    pub local_address: LocalAddress,
}

impl MessageView {
    /// The number of bytes the slot can hold.
    pub open spec fn capacity(self) -> nat {
        self.buffer.len()
    }

    /// The datagram's bytes: the meaningful prefix of the buffer.
    pub open spec fn payload(self) -> Seq<u8> {
        self.buffer.take(self.payload_len as int)
    }

    /// The length never exceeds the buffer.
    pub open spec fn wf(self) -> bool {
        self.payload_len <= self.buffer.len()
    }

    /// This slot after a receive that reported `len` bytes from
    /// `remote_address` on a socket bound to `local_address`. A reported length
    /// beyond the capacity is cut down to the capacity.
    pub open spec fn stamped(
        self,
        len: nat,
        remote_address: SocketAddress,
        local_address: LocalAddress,
    ) -> MessageView {
        MessageView {
            buffer: self.buffer,
            payload_len: if len <= self.capacity() { len } else { self.capacity() },
            remote_address: Some(remote_address),
            local_address,
        }
    }

    /// This slot after `payload` was copied to the start of its buffer and
    /// addressed from `local_address` to `remote_address`.
    pub open spec fn written(
        self,
        remote_address: SocketAddress,
        local_address: LocalAddress,
        payload: Seq<u8>,
    ) -> MessageView {
        MessageView {
            buffer: payload + self.buffer.skip(payload.len() as int),
            payload_len: payload.len(),
            remote_address: Some(remote_address),
            local_address,
        }
    }

    /// Whether `other` differs from this slot at most in the bytes of the
    /// buffer, which keeps its length.
    pub open spec fn same_shape(self, other: MessageView) -> bool {
        &&& other.buffer.len() == self.buffer.len()
        &&& other.payload_len == self.payload_len
        &&& other.remote_address == self.remote_address
        &&& other.local_address == self.local_address
    }
}

/// A datagram slot. The buffer is allocated once and keeps its length.
#[derive(Debug)]
pub struct Message {
    buffer: Vec<u8>,
    payload_len: usize,
    remote_address: Option<SocketAddress>,
    local_address: LocalAddress,
}

impl View for Message {
    type V = MessageView;

    closed spec fn view(&self) -> MessageView {
        MessageView {
            buffer: self.buffer@,
            payload_len: self.payload_len as nat,
            remote_address: self.remote_address,
            local_address: self.local_address,
        }
    }
}

impl Message {
    /// A slot of `mtu` zero bytes that holds no datagram.
    pub fn new(mtu: usize) -> (message: Message)
        ensures
            message@.wf(),
            message@.buffer == Seq::new(mtu as nat, |i: int| 0u8),
            message@.payload_len == 0,
            message@.remote_address is None,
            message@.local_address == LocalAddress::unspecified(),
    {
        let buffer = vec![0u8; mtu];
        assert(buffer@ =~= Seq::new(mtu as nat, |i: int| 0u8));
        Message {
            buffer,
            payload_len: 0,
            remote_address: None,
            local_address: LocalAddress::default(),
        }
    }

    /// The number of bytes the slot can hold.
    pub fn capacity(&self) -> (capacity: usize)
        ensures
            capacity == self@.capacity(),
    {
        self.buffer.len()
    }

    /// The number of bytes of the datagram in the slot.
    pub fn payload_len(&self) -> (len: usize)
        ensures
            len == self@.payload_len,
    {
        self.payload_len
    }

    /// The datagram's bytes.
    pub fn payload(&self) -> (payload: &[u8])
        requires
            self@.wf(),
        ensures
            payload@ == self@.payload(),
    {
        let bytes = &self.buffer.as_slice()[0..self.payload_len];
        bytes
    }

    /// The remote end of the exchange, if known.
    pub fn remote_address(&self) -> (address: Option<SocketAddress>)
        ensures
            address == self@.remote_address,
    {
        self.remote_address
    }

    /// The local end of the exchange.
    pub fn local_address(&self) -> (address: LocalAddress)
        ensures
            address == self@.local_address,
    {
        self.local_address
    }

    /// Records the outcome of a successful receive into this slot's buffer.
    ///
    /// With a remote address the slot takes the reported length, cut down to
    /// its capacity, and both addresses, and the call returns `true`. Without
    /// one the datagram cannot be attributed to a peer: the slot is left as it
    /// was and the call returns `false`.
    pub fn stamp(
        &mut self,
        len: usize,
        remote_address: Option<SocketAddress>,
        local_address: LocalAddress,
    ) -> (stamped: bool)
        requires
            old(self)@.wf(),
        ensures
            final(self)@.wf(),
            stamped == remote_address is Some,
            remote_address matches Some(address) ==> final(self)@ == old(self)@.stamped(
                len as nat,
                address,
                local_address,
            ),
            remote_address is None ==> final(self)@ == old(self)@,
    {
        match remote_address {
            Some(address) => {
                let capacity = self.buffer.len();
                self.payload_len = if len <= capacity { len } else { capacity };
                self.remote_address = Some(address);
                self.local_address = local_address;
                true
            },
            None => false,
        }
    }

    /// Copies `payload` into the slot and addresses it from `local_address` to
    /// `remote_address`.
    ///
    /// Returns `false`, leaving the slot as it was, if `payload` is longer than
    /// the slot's capacity.
    pub fn write(
        &mut self,
        remote_address: SocketAddress,
        local_address: LocalAddress,
        payload: &[u8],
    ) -> (written: bool)
        requires
            old(self)@.wf(),
        ensures
            final(self)@.wf(),
            written == (payload@.len() <= old(self)@.capacity()),
            written ==> final(self)@ == old(self)@.written(remote_address, local_address, payload@),
            written ==> final(self)@.payload() == payload@,
            !written ==> final(self)@ == old(self)@,
    {
        let len = payload.len();
        if len > self.buffer.len() {
            return false;
        }
        let mut i: usize = 0;
        while i < len
            invariant
                i <= len,
                len == payload@.len(),
                len <= self.buffer@.len(),
                self.buffer@.len() == old(self).buffer@.len(),
                self.buffer@ == payload@.take(i as int) + old(self).buffer@.skip(i as int),
                self.payload_len == old(self).payload_len,
                self.remote_address == old(self).remote_address,
                self.local_address == old(self).local_address,
            decreases len - i,
        {
            self.buffer[i] = payload[i];
            i += 1;
            assert(self.buffer@ =~= payload@.take(i as int) + old(self).buffer@.skip(i as int));
        }
        self.payload_len = len;
        self.remote_address = Some(remote_address);
        self.local_address = local_address;
        assert(payload@.take(len as int) =~= payload@);
        assert(self@.payload() =~= payload@);
        true
    }

    /// Lets `socket` receive one datagram into the whole buffer. Whatever the
    /// socket answers, only the bytes of the buffer can have changed.
    pub(crate) fn recv_from<S: Socket>(&mut self, socket: &S) -> (result: Result<
        (usize, Option<SocketAddress>),
        S::Error,
    >)
        requires
            old(self)@.wf(),
            old(self)@.capacity() > 0,
        ensures
            final(self)@.wf(),
            old(self)@.same_shape(final(self)@),
    {
        socket.recv_from(self.buffer.as_mut_slice())
    }

    /// Lets `socket` send the datagram to the slot's remote address. A slot
    /// without one is not sent: the call returns `None` and the socket is not
    /// touched.
    pub(crate) fn send_to<S: Socket>(&self, socket: &S) -> (result: Option<Result<usize, S::Error>>)
        requires
            self@.wf(),
        ensures
            result is Some == self@.remote_address is Some,
    {
        match self.remote_address {
            Some(remote_address) => Some(socket.send_to(self.payload(), &remote_address)),
            None => None,
        }
    }
}

} // verus!
