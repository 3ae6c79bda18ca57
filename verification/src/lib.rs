//! Batched, non-blocking movement of datagrams between a slot queue and a
//! socket.
//!
//! A [`Queue`] owns a fixed arena of datagram slots, each either free or
//! occupied. [`Queue::rx`] fills free slots from a [`Socket`] and
//! [`Queue::tx`] drains occupied slots into one; both move many datagrams per
//! call, sort the socket's errors into those that merely end the batch and
//! those that are returned, and report what they did to a [`Publisher`].

pub mod engine;
pub mod event;
pub mod inet;
pub mod laws;
pub mod message;
pub mod queue;
pub mod socket;

pub use crate::engine::{rx, tx};
pub use crate::event::Publisher;
pub use crate::inet::{LocalAddress, SocketAddress};
pub use crate::message::Message;
pub use crate::queue::{Buffer, Free, Occupied, Queue};
pub use crate::socket::{Error, Socket};
