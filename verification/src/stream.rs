//! Stream orchestration: one transport connection and one reusable
//! scratch buffer, coupled into a [`MessageStream`] that writes and
//! reads whole frames.
//!
//! The transport is abstract: anything implementing [`Transport`] — a
//! byte channel that may accept or deliver fewer bytes than requested
//! per call. The stream loops until the exact requested byte count is
//! satisfied, the transport reports closure (a zero-length delivery), or
//! the transport errors, so no partial frame is ever exposed to a
//! caller.

use vstd::prelude::*;

use crate::MessageError;
use crate::wire::{
    be32_decode, be32_encode, max_frame_len, spec_frame, stream_frame_body, stream_has_frame,
    stream_rest, Message,
};

verus! {

/// A failure reported by the transport itself; the stream surfaces it
/// as [`MessageError::TransportIo`].
#[derive(Clone, Copy, Debug, PartialEq, Eq, Structural)]
pub struct TransportError {}

/// An ordered, reliable byte channel with independent read and write
/// sides, each of which may service a request only partially.
///
/// The write side is modeled by `sent()`, the bytes it has accepted so
/// far, in order; the read side by `to_read()`, the bytes it will still
/// deliver, in order. A delivery of zero bytes means the peer has
/// closed, and happens exactly when `to_read()` is empty. Two fixed
/// traits of a transport refine the picture: a `reliable()` transport
/// never reports an error, and on a `loopback()` transport every
/// accepted byte becomes pending on the read side.
pub trait Transport: Sized {
    /// A valid transport state; every operation preserves it.
    spec fn inv(&self) -> bool;

    /// All bytes the write side has accepted so far, in order.
    spec fn sent(&self) -> Seq<u8>;

    /// All bytes the read side will still deliver, in order.
    spec fn to_read(&self) -> Seq<u8>;

    /// Whether every operation on this transport succeeds: while it
    /// holds, `write_some` and `read_some` never return an error. No
    /// operation changes it.
    spec fn reliable(&self) -> bool;

    /// Whether the write side loops back to the read side: every byte
    /// the transport accepts becomes pending for reading, in order. No
    /// operation changes it.
    spec fn loopback(&self) -> bool;

    /// Accepts at least one byte of `buf[from..]`, appending what it
    /// accepted to `sent()`, or fails leaving `sent()` unchanged.
    fn write_some(&mut self, buf: &[u8], from: usize) -> (r: Result<usize, TransportError>)
        requires
            old(self).inv(),
            from < buf@.len(),
        ensures
            final(self).inv(),
            final(self).reliable() == old(self).reliable(),
            final(self).loopback() == old(self).loopback(),
            old(self).reliable() ==> r is Ok,
            match r {
                Ok(n) => {
                    &&& 1 <= n <= buf@.len() - from
                    &&& final(self).sent() == old(self).sent() + buf@.subrange(
                        from as int,
                        from + n,
                    )
                    &&& old(self).loopback() ==> final(self).to_read() == old(self).to_read()
                        + buf@.subrange(from as int, from + n)
                },
                Err(_) => {
                    &&& final(self).sent() == old(self).sent()
                    &&& old(self).loopback() ==> final(self).to_read() == old(self).to_read()
                },
            },
    ;

    /// Appends up to `max` of the next bytes of `to_read()` to `dest`:
    /// at least one unless the stream has ended, and zero exactly when
    /// it has.
    fn read_some(&mut self, dest: &mut Vec<u8>, max: usize) -> (r: Result<usize, TransportError>)
        requires
            old(self).inv(),
            max >= 1,
        ensures
            final(self).inv(),
            final(self).sent() == old(self).sent(),
            final(self).reliable() == old(self).reliable(),
            final(self).loopback() == old(self).loopback(),
            old(self).reliable() ==> r is Ok,
            match r {
                Ok(n) => {
                    &&& n <= max
                    &&& n <= old(self).to_read().len()
                    &&& (n == 0 <==> old(self).to_read().len() == 0)
                    &&& final(dest)@ == old(dest)@ + old(self).to_read().take(n as int)
                    &&& final(self).to_read() == old(self).to_read().skip(n as int)
                },
                Err(_) => final(dest)@ == old(dest)@ && final(self).to_read() == old(
                    self,
                ).to_read(),
            },
    ;
}

/// An in-memory loopback transport: everything written becomes readable,
/// in order, and each call accepts or delivers at most `chunk_size`
/// bytes, modeling a transport that services requests only partially.
pub struct ChunkedTransport {
    pub data: Vec<u8>,
    pub read_offset: usize,
    pub chunk_size: usize,
}

impl ChunkedTransport {
    /// A fresh loopback transport servicing at most `chunk_size` bytes
    /// per call.
    pub fn new(chunk_size: usize) -> (t: Self)
        requires
            chunk_size >= 1,
        ensures
            t.inv(),
            t.sent() == Seq::<u8>::empty(),
            t.to_read() == Seq::<u8>::empty(),
    {
        let t = ChunkedTransport { data: Vec::new(), read_offset: 0, chunk_size };
        proof {
            assert(t.to_read() =~= Seq::<u8>::empty());
        }
        t
    }
}

impl Transport for ChunkedTransport {
    open spec fn inv(&self) -> bool {
        self.read_offset <= self.data@.len() && self.chunk_size >= 1
    }

    open spec fn sent(&self) -> Seq<u8> {
        self.data@
    }

    open spec fn to_read(&self) -> Seq<u8> {
        self.data@.skip(self.read_offset as int)
    }

    open spec fn reliable(&self) -> bool {
        true
    }

    open spec fn loopback(&self) -> bool {
        true
    }

    fn write_some(&mut self, buf: &[u8], from: usize) -> Result<usize, TransportError> {
        let avail = buf.len() - from;
        let n = if avail < self.chunk_size {
            avail
        } else {
            self.chunk_size
        };
        let mut i: usize = 0;
        while i < n
            invariant
                from + n <= buf@.len() <= usize::MAX,
                i <= n,
                self.data@ == old(self).data@ + buf@.subrange(from as int, from + i),
                self.read_offset == old(self).read_offset,
                self.chunk_size == old(self).chunk_size,
                old(self).inv(),
            decreases n - i,
        {
            self.data.push(buf[from + i]);
            proof {
                assert(self.data@ =~= old(self).data@ + buf@.subrange(from as int, from + i + 1));
            }
            i += 1;
        }
        proof {
            assert(self.data@.skip(self.read_offset as int) =~= old(self).data@.skip(
                old(self).read_offset as int,
            ) + buf@.subrange(from as int, from + n));
        }
        Ok(n)
    }

    fn read_some(&mut self, dest: &mut Vec<u8>, max: usize) -> Result<usize, TransportError> {
        let pending = self.data.len() - self.read_offset;
        let mut n = if max < self.chunk_size {
            max
        } else {
            self.chunk_size
        };
        if pending < n {
            n = pending;
        }
        let mut i: usize = 0;
        while i < n
            invariant
                self.read_offset + n <= self.data@.len() <= usize::MAX,
                i <= n,
                dest@ == old(dest)@ + self.data@.subrange(
                    self.read_offset as int,
                    self.read_offset + i,
                ),
                *self == *old(self),
            decreases n - i,
        {
            dest.push(self.data[self.read_offset + i]);
            proof {
                assert(dest@ =~= old(dest)@ + self.data@.subrange(
                    self.read_offset as int,
                    self.read_offset + i + 1,
                ));
            }
            i += 1;
        }
        proof {
            let cur = self.data@.skip(self.read_offset as int);
            assert(self.data@.subrange(self.read_offset as int, self.read_offset + n) =~= cur.take(
                n as int,
            ));
            assert(self.data@.skip(self.read_offset + n) =~= cur.skip(n as int));
        }
        self.read_offset = self.read_offset + n;
        Ok(n)
    }
}

/// A transport that fails every operation: it exercises callers'
/// transport-error paths. Its read side holds one byte that is forever
/// pending and never delivered, so a failed read is distinguishable
/// from an orderly closure.
#[derive(Clone, Copy, Debug, PartialEq, Eq, Structural)]
pub struct FailingTransport {}

impl Transport for FailingTransport {
    open spec fn inv(&self) -> bool {
        true
    }

    open spec fn sent(&self) -> Seq<u8> {
        Seq::empty()
    }

    open spec fn to_read(&self) -> Seq<u8> {
        seq![0u8]
    }

    open spec fn reliable(&self) -> bool {
        false
    }

    open spec fn loopback(&self) -> bool {
        false
    }

    fn write_some(&mut self, buf: &[u8], from: usize) -> Result<usize, TransportError> {
        Err(TransportError {})
    }

    fn read_some(&mut self, dest: &mut Vec<u8>, max: usize) -> Result<usize, TransportError> {
        Err(TransportError {})
    }
}

/// Writes all of `buf`, looping over partial acceptances; on failure a
/// strict prefix of `buf` was accepted.
fn write_all<T: Transport>(t: &mut T, buf: &Vec<u8>) -> (r: Result<(), TransportError>)
    requires
        old(t).inv(),
    ensures
        final(t).inv(),
        final(t).reliable() == old(t).reliable(),
        final(t).loopback() == old(t).loopback(),
        old(t).reliable() ==> r is Ok,
        match r {
            Ok(()) => {
                &&& final(t).sent() == old(t).sent() + buf@
                &&& old(t).loopback() ==> final(t).to_read() == old(t).to_read() + buf@
            },
            Err(_) => exists|k: int|
                0 <= k < buf@.len() && final(t).sent() == old(t).sent() + buf@.take(k) && (old(
                    t,
                ).loopback() ==> final(t).to_read() == old(t).to_read() + buf@.take(k)),
        },
{
    let mut from: usize = 0;
    while from < buf.len()
        invariant
            t.inv(),
            t.reliable() == old(t).reliable(),
            t.loopback() == old(t).loopback(),
            from <= buf@.len(),
            t.sent() == old(t).sent() + buf@.take(from as int),
            old(t).loopback() ==> t.to_read() == old(t).to_read() + buf@.take(from as int),
        decreases buf@.len() - from,
    {
        match t.write_some(buf.as_slice(), from) {
            Ok(n) => {
                proof {
                    assert(buf@.take(from as int) + buf@.subrange(from as int, from + n)
                        =~= buf@.take(from + n));
                    assert((old(t).to_read() + buf@.take(from as int)) + buf@.subrange(
                        from as int,
                        from + n,
                    ) =~= old(t).to_read() + buf@.take(from + n));
                }
                from += n;
            },
            Err(_) => {
                proof {
                    assert((from as int) < buf@.len() && final(t).sent() == old(t).sent()
                        + buf@.take(from as int) && (old(t).loopback() ==> final(t).to_read()
                        == old(t).to_read() + buf@.take(from as int)));
                }
                return Err(TransportError {});
            },
        }
    }
    proof {
        assert(buf@.take(buf@.len() as int) =~= buf@);
    }
    Ok(())
}

/// Reads exactly `count` bytes into `buf`, looping over partial
/// deliveries; a delivery of zero bytes before `count` is reached means
/// the stream closed early.
fn read_exact<T: Transport>(t: &mut T, buf: &mut Vec<u8>, count: usize) -> (r: Result<
    (),
    MessageError,
>)
    requires
        old(t).inv(),
    ensures
        final(t).inv(),
        final(t).sent() == old(t).sent(),
        final(t).reliable() == old(t).reliable(),
        final(t).loopback() == old(t).loopback(),
        match r {
            Ok(()) => {
                &&& old(t).to_read().len() >= count
                &&& final(buf)@ == old(t).to_read().take(count as int)
                &&& final(t).to_read() == old(t).to_read().skip(count as int)
            },
            Err(MessageError::UnexpectedEof) => {
                &&& old(t).to_read().len() < count
                &&& final(t).to_read().len() == 0
            },
            Err(MessageError::TransportIo) => !old(t).reliable() && exists|k: int|
                0 <= k < count && k <= old(t).to_read().len() && final(t).to_read()
                    == old(t).to_read().skip(k),
            Err(_) => false,
        },
{
    buf.clear();
    while buf.len() < count
        invariant
            t.inv(),
            t.sent() == old(t).sent(),
            t.reliable() == old(t).reliable(),
            t.loopback() == old(t).loopback(),
            buf@.len() <= count,
            buf@.len() <= old(t).to_read().len(),
            buf@ == old(t).to_read().take(buf@.len() as int),
            t.to_read() == old(t).to_read().skip(buf@.len() as int),
        decreases count - buf@.len(),
    {
        let filled = buf.len();
        let want = count - filled;
        match t.read_some(buf, want) {
            Ok(n) => {
                if n == 0 {
                    proof {
                        assert(old(t).to_read().len() == buf@.len());
                        assert(final(t).to_read().len() == 0);
                    }
                    return Err(MessageError::UnexpectedEof);
                }
                proof {
                    let orig = old(t).to_read();
                    let cl = n as int;
                    assert(orig.skip(filled as int).take(cl) =~= orig.subrange(
                        filled as int,
                        filled + cl,
                    ));
                    assert(orig.skip(filled as int).skip(cl) =~= orig.skip(filled + cl));
                    assert(buf@ =~= old(t).to_read().take(buf@.len() as int));
                }
            },
            Err(_) => {
                proof {
                    let k = buf@.len() as int;
                    assert(0 <= k < count && k <= old(t).to_read().len() && final(t).to_read()
                        == old(t).to_read().skip(k));
                }
                return Err(MessageError::TransportIo);
            },
        }
    }
    proof {
        assert(buf@ =~= old(t).to_read().take(count as int));
    }
    Ok(())
}

/// A stream of framed messages: one transport connection coupled with
/// one reusable scratch buffer. The buffer is overwritten on each
/// operation and lives as long as the stream; it is never shared.
pub struct MessageStream<T> {
    pub byte_stream: T,
    pub buffer: Vec<u8>,
}

impl<T> MessageStream<T> {
    /// Binds a transport into a fresh stream with an empty scratch
    /// buffer.
    pub fn new(byte_stream: T) -> (s: Self)
        ensures
            s.byte_stream == byte_stream,
            s.buffer@ == Seq::<u8>::empty(),
    {
        MessageStream { byte_stream, buffer: Vec::new() }
    }

    /// Direct access to the underlying transport, for out-of-band
    /// operations such as closing the connection.
    pub fn inner_mut(&mut self) -> (r: &mut T)
        ensures
            *r == old(self).byte_stream,
            final(self).byte_stream == *final(r),
            final(self).buffer == old(self).buffer,
    {
        &mut self.byte_stream
    }
}

impl<T: Transport> MessageStream<T> {
    /// Writes one message as one frame: serializes the envelope, fails
    /// with `EncodingTooLarge` — before anything reaches the transport —
    /// exactly when the serialized length cannot be described by the
    /// 4-byte header, and otherwise assembles header and body in the
    /// scratch buffer and hands the whole frame to the transport,
    /// looping over partial acceptances.
    pub fn write_message<M: Message>(&mut self, message: &M) -> (r: Result<(), MessageError>)
        requires
            old(self).byte_stream.inv(),
        ensures
            final(self).byte_stream.inv(),
            final(self).byte_stream.reliable() == old(self).byte_stream.reliable(),
            final(self).byte_stream.loopback() == old(self).byte_stream.loopback(),
            match r {
                Ok(()) => {
                    &&& M::spec_encode(message@).len() <= max_frame_len()
                    &&& final(self).byte_stream.sent() == old(self).byte_stream.sent()
                        + spec_frame(M::spec_encode(message@))
                    &&& old(self).byte_stream.loopback() ==> final(self).byte_stream.to_read()
                        == old(self).byte_stream.to_read() + spec_frame(M::spec_encode(message@))
                    &&& final(self).buffer@ == spec_frame(M::spec_encode(message@))
                },
                Err(MessageError::EncodingTooLarge) => {
                    &&& M::spec_encode(message@).len() > max_frame_len()
                    &&& final(self).byte_stream == old(self).byte_stream
                    &&& final(self).buffer == old(self).buffer
                },
                Err(MessageError::TransportIo) => {
                    &&& M::spec_encode(message@).len() <= max_frame_len()
                    &&& !old(self).byte_stream.reliable()
                    &&& final(self).buffer@ == spec_frame(M::spec_encode(message@))
                    &&& exists|k: int|
                        0 <= k < spec_frame(M::spec_encode(message@)).len()
                            && final(self).byte_stream.sent() == old(self).byte_stream.sent()
                            + spec_frame(M::spec_encode(message@)).take(k) && (old(
                            self,
                        ).byte_stream.loopback() ==> final(self).byte_stream.to_read() == old(
                            self,
                        ).byte_stream.to_read() + spec_frame(M::spec_encode(message@)).take(k))
                },
                Err(_) => false,
            },
    {
        let body = match message.encode() {
            Ok(body) => body,
            Err(_) => {
                proof {
                    M::lemma_oversize(message@);
                }
                return Err(MessageError::EncodingTooLarge);
            },
        };
        if (body.len() as u64) > 0xFFFF_FFFFu64 {
            return Err(MessageError::EncodingTooLarge);
        }
        self.buffer.clear();
        be32_encode(body.len() as u32, &mut self.buffer);
        self.buffer.extend_from_slice(body.as_slice());
        proof {
            assert(self.buffer@ =~= spec_frame(M::spec_encode(message@)));
        }
        match write_all(&mut self.byte_stream, &self.buffer) {
            Ok(()) => Ok(()),
            Err(_) => {
                proof {
                    let frame = spec_frame(M::spec_encode(message@));
                    let k = choose|k: int|
                        0 <= k < frame.len() && final(self).byte_stream.sent() == old(
                            self,
                        ).byte_stream.sent() + frame.take(k) && (old(
                            self,
                        ).byte_stream.loopback() ==> final(self).byte_stream.to_read() == old(
                            self,
                        ).byte_stream.to_read() + frame.take(k));
                    assert(0 <= k < frame.len() && final(self).byte_stream.sent() == old(
                        self,
                    ).byte_stream.sent() + frame.take(k) && (old(self).byte_stream.loopback()
                        ==> final(self).byte_stream.to_read() == old(self).byte_stream.to_read()
                        + frame.take(k)));
                }
                Err(MessageError::TransportIo)
            },
        }
    }

    /// Reads one frame and decodes it as the caller-requested message
    /// type: reads exactly 4 header bytes, then exactly the declared
    /// body length into the scratch buffer, looping over partial
    /// deliveries; fails with `UnexpectedEof` if the stream closes
    /// early, and with `MalformedPayload` if the body does not decode.
    /// No partial frame is ever exposed.
    pub fn read_message<M: Message>(&mut self) -> (r: Result<M, MessageError>)
        requires
            old(self).byte_stream.inv(),
        ensures
            final(self).byte_stream.inv(),
            final(self).byte_stream.sent() == old(self).byte_stream.sent(),
            final(self).byte_stream.reliable() == old(self).byte_stream.reliable(),
            final(self).byte_stream.loopback() == old(self).byte_stream.loopback(),
            ({
                let s = old(self).byte_stream.to_read();
                match r {
                    Ok(m) => {
                        &&& stream_has_frame(s)
                        &&& M::spec_decode(stream_frame_body(s)) == Some(m@)
                        &&& final(self).byte_stream.to_read() == stream_rest(s)
                        &&& final(self).buffer@ == stream_frame_body(s)
                    },
                    Err(MessageError::UnexpectedEof) => {
                        &&& !stream_has_frame(s)
                        &&& final(self).byte_stream.to_read().len() == 0
                    },
                    Err(MessageError::MalformedPayload) => {
                        &&& stream_has_frame(s)
                        &&& M::spec_decode(stream_frame_body(s)) is None
                        &&& final(self).byte_stream.to_read() == stream_rest(s)
                        &&& final(self).buffer@ == stream_frame_body(s)
                    },
                    Err(MessageError::TransportIo) => !old(self).byte_stream.reliable()
                        && exists|k: int|
                        0 <= k <= s.len() && final(self).byte_stream.to_read() == s.skip(k),
                    Err(_) => false,
                }
            }),
    {
        let ghost s = old(self).byte_stream.to_read();
        match read_exact(&mut self.byte_stream, &mut self.buffer, 4) {
            Ok(()) => {},
            Err(e) => {
                proof {
                    if e == MessageError::TransportIo {
                        let k = choose|k: int|
                            0 <= k <= 4 && k <= s.len() && final(self).byte_stream.to_read()
                                == s.skip(k);
                        assert(0 <= k <= s.len() && final(self).byte_stream.to_read()
                            == s.skip(k));
                    }
                }
                return Err(e);
            },
        }
        let n32 = be32_decode(self.buffer.as_slice(), 0);
        proof {
            assert(self.buffer@.skip(0) =~= self.buffer@);
            assert(s.take(4)[0] == s[0] && s.take(4)[1] == s[1] && s.take(4)[2] == s[2]
                && s.take(4)[3] == s[3]);
            assert(crate::wire::spec_be32_val(self.buffer@) == crate::wire::spec_be32_val(s));
        }
        let n = n32 as usize;
        let ghost after_header = s.skip(4);
        match read_exact(&mut self.byte_stream, &mut self.buffer, n) {
            Ok(()) => {},
            Err(e) => {
                proof {
                    if e == MessageError::UnexpectedEof {
                        assert(after_header.len() < n);
                        assert(!stream_has_frame(s));
                    } else {
                        let k = choose|k: int|
                            0 <= k <= n && k <= after_header.len()
                                && final(self).byte_stream.to_read() == after_header.skip(k);
                        assert(after_header.skip(k) =~= s.skip(4 + k));
                        assert(0 <= 4 + k <= s.len() && final(self).byte_stream.to_read()
                            == s.skip(4 + k));
                    }
                }
                return Err(e);
            },
        }
        proof {
            assert(stream_has_frame(s));
            assert(self.buffer@ =~= stream_frame_body(s));
            assert(after_header.skip(n as int) =~= stream_rest(s));
        }
        match M::decode(self.buffer.as_slice()) {
            Some(m) => Ok(m),
            None => Err(MessageError::MalformedPayload),
        }
    }
}

/// Round-trip at the call level: writing any message whose encoding
/// fits one frame on a fresh loopback stream and reading it back yields
/// an equal message — a definite success, whatever per-call limit the
/// transport puts on a chunk. The `Result` is returned only to mirror
/// the stream API: the contract rules every error out.
pub fn round_trip_on_loopback<M: Message>(message: &M, chunk_size: usize) -> (r: Result<
    M,
    MessageError,
>)
    requires
        chunk_size >= 1,
        M::spec_encode(message@).len() <= max_frame_len(),
    ensures
        match r {
            Ok(m) => m@ == message@,
            Err(_) => false,
        },
{
    let mut stream = MessageStream::new(ChunkedTransport::new(chunk_size));
    match stream.write_message(message) {
        Ok(()) => {},
        Err(e) => {
            proof {
                assert(false);
            }
            return Err(e);
        },
    }
    proof {
        if !M::spec_wf(message@) {
            M::lemma_oversize(message@);
        }
        crate::wire::lemma_message_round_trip::<M>(message@, Seq::<u8>::empty());
        assert(stream.byte_stream.to_read() =~= spec_frame(M::spec_encode(message@))
            + Seq::<u8>::empty());
    }
    stream.read_message::<M>()
}

/// Order preservation at the call level: writing two messages on a
/// fresh loopback stream and reading twice yields the first then the
/// second, never the reverse, and never an error.
pub fn two_in_order_on_loopback<M: Message>(
    first: &M,
    second: &M,
    chunk_size: usize,
) -> (r: Result<(M, M), MessageError>)
    requires
        chunk_size >= 1,
        M::spec_encode(first@).len() <= max_frame_len(),
        M::spec_encode(second@).len() <= max_frame_len(),
    ensures
        match r {
            Ok((a, b)) => a@ == first@ && b@ == second@,
            Err(_) => false,
        },
{
    let mut stream = MessageStream::new(ChunkedTransport::new(chunk_size));
    match stream.write_message(first) {
        Ok(()) => {},
        Err(e) => {
            proof {
                assert(false);
            }
            return Err(e);
        },
    }
    match stream.write_message(second) {
        Ok(()) => {},
        Err(e) => {
            proof {
                assert(false);
            }
            return Err(e);
        },
    }
    proof {
        if !M::spec_wf(first@) {
            M::lemma_oversize(first@);
        }
        if !M::spec_wf(second@) {
            M::lemma_oversize(second@);
        }
        crate::wire::lemma_message_order_preserved::<M>(first@, second@, Seq::<u8>::empty());
        assert(stream.byte_stream.to_read() =~= spec_frame(M::spec_encode(first@)) + (spec_frame(
            M::spec_encode(second@),
        ) + Seq::<u8>::empty()));
    }
    let a = match stream.read_message::<M>() {
        Ok(a) => a,
        Err(e) => {
            proof {
                assert(false);
            }
            return Err(e);
        },
    };
    let b = match stream.read_message::<M>() {
        Ok(b) => b,
        Err(e) => {
            proof {
                assert(false);
            }
            return Err(e);
        },
    };
    Ok((a, b))
}

} // verus!
