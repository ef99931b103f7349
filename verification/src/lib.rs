//! A typed message protocol with length-delimited framing for
//! client-server communication over an arbitrary byte transport.
//!
//! The crate has three layers:
//! - a wire codec that turns an envelope into a self-delimiting frame
//!   (4 bytes of big-endian length, then exactly that many payload bytes)
//!   and back ([`wire`], [`from_client`], [`from_server`]);
//! - a static classification of payload types into roles (one-way,
//!   request, subscribe, response, event), each bound to its direction
//!   and, for paired roles, to its counterpart type ([`proto`]);
//! - a stream layer coupling one transport and one scratch buffer,
//!   exposing `write_message` / `read_message` ([`stream`]).

use vstd::prelude::*;

pub mod from_client;
pub mod from_server;
pub mod proto;
pub mod stream;
pub mod wire;

pub use crate::proto::{ClientMessage, RequestMessage, SendMessage, ServerMessage, SubscribeMessage};
pub use crate::stream::{
    round_trip_on_loopback, two_in_order_on_loopback, ChunkedTransport, FailingTransport,
    MessageStream, Transport, TransportError,
};
pub use crate::wire::Message;

verus! {

/// A failure of a framing operation, as surfaced to the caller.
///
/// `MisclassifiedVariant` is deliberately absent: a variant that does not
/// hold the requested payload type is reported as `None` by
/// `from_variant`, because it is a routing outcome, not a protocol fault.
#[derive(Clone, Copy, Debug, PartialEq, Eq, Structural)]
pub enum MessageError {
    /// The serialized envelope is longer than the 4-byte length field can
    /// describe; nothing was sent.
    EncodingTooLarge,
    /// The underlying transport reported a read or write error; the
    /// stream's byte alignment is no longer reliable.
    TransportIo,
    /// The transport closed before a header or body was fully delivered;
    /// no partial frame is returned.
    UnexpectedEof,
    /// The body bytes do not deserialize as the expected schema.
    MalformedPayload,
}

} // verus!
