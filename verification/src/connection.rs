//! Frames on a stream, typed messages in frames, and the connection that
//! keeps both ends of the types apart.
use crate::error::ConnectionError;
use crate::frame::{after_first, first_payload, frame, missing};
use crate::stream::Stream;
use core::marker::PhantomData;
use vstd::prelude::*;
use vstd::slice::slice_subrange;

verus! {

/// What a read buffer holds after a payload was read into its front: the
/// payload, and behind it what the buffer held there before.
pub open spec fn refilled(buffer: Seq<u8>, payload: Seq<u8>) -> Seq<u8> {
    if payload.len() <= buffer.len() {
        payload + buffer.skip(payload.len() as int)
    } else {
        payload
    }
}

/// A read buffer is as long as the longest payload it has held, or as it
/// was to begin with: a shorter payload after a longer one leaves its
/// length alone.
pub proof fn lemma_buffer_never_shrinks(buffer: Seq<u8>, first: Seq<u8>, second: Seq<u8>)
    ensures
        refilled(buffer, first).len() == if first.len() <= buffer.len() {
            buffer.len()
        } else {
            first.len()
        },
        refilled(refilled(buffer, first), second).len() >= refilled(buffer, first).len(),
        refilled(refilled(buffer, first), second).len() >= first.len(),
        second.len() <= first.len() ==> refilled(refilled(buffer, first), second).len()
            == refilled(buffer, first).len(),
{
}

/// Writes `bytes` as one frame: their number in eight bytes, then the bytes.
pub fn write(stream: &mut Stream, bytes: &[u8])
    ensures
        final(stream).sent() == old(stream).sent() + frame(bytes@),
        final(stream).received() == old(stream).received(),
{
    stream.write_u64(bytes.len() as u64);
    stream.write_all(bytes);
    assert(final(stream).sent() =~= old(stream).sent() + frame(bytes@));
}

/// Reads one frame into the front of `buffer` and returns the length of its
/// payload. The buffer grows where the payload is longer than it, and never
/// shrinks. Where the stream holds less than a whole frame the read fails
/// and leaves stream and buffer as they were.
pub fn read(stream: &mut Stream, buffer: &mut Vec<u8>) -> (r: Result<usize, ConnectionError>)
    ensures
        final(stream).sent() == old(stream).sent(),
        final(buffer)@.len() >= old(buffer)@.len(),
        match r {
            Ok(n) => {
                &&& missing(old(stream).received()) == 0
                &&& n == first_payload(old(stream).received()).len()
                &&& final(buffer)@ == refilled(old(buffer)@, first_payload(old(stream).received()))
                &&& final(stream).received() == after_first(old(stream).received())
            },
            Err(e) => {
                &&& missing(old(stream).received()) > 0
                &&& e == (ConnectionError::ShortRead {
                    missing: missing(old(stream).received()) as u64,
                })
                &&& *final(stream) == *old(stream)
                &&& final(buffer)@ == old(buffer)@
            },
        },
{
    let short = stream.missing();
    if short > 0 {
        return Err(ConnectionError::ShortRead { missing: short });
    }
    proof {
        stream.lemma_fits();
    }
    let message_size = match stream.read_u64() {
        Ok(n) => n as usize,
        Err(e) => {
            return Err(e);
        },
    };
    if buffer.len() < message_size {
        buffer.resize(message_size, 0);
    }
    match stream.read_exact(buffer, message_size) {
        Ok(n) => {
            proof {
                let wire = old(stream).received();
                assert(wire.skip(8).take(n as int) =~= first_payload(wire));
                assert(wire.skip(8).skip(n as int) =~= after_first(wire));
                assert(final(buffer)@ =~= refilled(old(buffer)@, first_payload(wire)));
            }
            Ok(n)
        },
        Err(e) => Err(e),
    }
}

/// Writes `data` as one frame of the text that `encode` makes of it. Where
/// `encode` fails nothing is written.
pub fn write_json<T, F>(stream: &mut Stream, data: T, encode: F) -> (r: Result<
    (),
    ConnectionError,
>) where F: FnOnce(&T) -> Result<Vec<u8>, serde_json::Error>
    requires
        encode.requires((&data,)),
    ensures
        final(stream).received() == old(stream).received(),
        match r {
            Ok(_) => exists|text: Vec<u8>|
                {
                    &&& encode.ensures((&data,), Ok(text))
                    &&& final(stream).sent() == old(stream).sent() + frame(text@)
                },
            Err(e) => exists|cause: serde_json::Error|
                {
                    &&& encode.ensures((&data,), Err(cause))
                    &&& e == ConnectionError::Encode(cause)
                    &&& final(stream).sent() == old(stream).sent()
                },
        },
{
    match encode(&data) {
        Ok(bytes) => {
            write(stream, bytes.as_slice());
            Ok(())
        },
        Err(cause) => Err(ConnectionError::Encode(cause)),
    }
}

/// Reads one frame and hands its payload, and nothing else, to `decode`.
/// The frame is used up whether `decode` accepts the payload or not.
pub fn read_json<T, F>(stream: &mut Stream, buffer: &mut Vec<u8>, decode: F) -> (r: Result<
    T,
    ConnectionError,
>) where F: FnOnce(&[u8]) -> Result<T, serde_json::Error>
    requires
        forall|payload: &[u8]| decode.requires((payload,)),
    ensures
        final(stream).sent() == old(stream).sent(),
        final(buffer)@.len() >= old(buffer)@.len(),
        missing(old(stream).received()) > 0 ==> {
            &&& r == Err::<T, ConnectionError>(
                ConnectionError::ShortRead { missing: missing(old(stream).received()) as u64 },
            )
            &&& *final(stream) == *old(stream)
            &&& final(buffer)@ == old(buffer)@
        },
        missing(old(stream).received()) == 0 ==> {
            &&& final(stream).received() == after_first(old(stream).received())
            &&& final(buffer)@ == refilled(old(buffer)@, first_payload(old(stream).received()))
            &&& exists|payload: &[u8]|
                {
                    &&& payload@ == first_payload(old(stream).received())
                    &&& match r {
                        Ok(value) => decode.ensures((payload,), Ok(value)),
                        Err(ConnectionError::Decode(cause)) => decode.ensures(
                            (payload,),
                            Err(cause),
                        ),
                        Err(_) => false,
                    }
                }
        },
{
    let message_size = match read(stream, buffer) {
        Ok(n) => n,
        Err(e) => {
            return Err(e);
        },
    };
    let payload = slice_subrange(buffer.as_slice(), 0, message_size);
    assert(payload@ =~= first_payload(old(stream).received()));
    match decode(payload) {
        Ok(data) => Ok(data),
        Err(cause) => Err(ConnectionError::Decode(cause)),
    }
}

/// One established transport with its read buffer. `write` takes values of
/// type `I`, `read` gives values of type `O`; both are fixed for the life of
/// the connection. The connection owns its transport alone.
pub struct Connection<I, O> {
    stream: Stream,
    buffer: Vec<u8>,
    _types: PhantomData<(I, O)>,
}

impl<I, O> Connection<I, O> {
    /// The transport of this connection.
    pub closed spec fn stream(&self) -> Stream {
        self.stream
    }

    /// The read buffer: the payload that was read last, and behind it what
    /// longer payloads before it left there.
    pub closed spec fn buffer(&self) -> Seq<u8> {
        self.buffer@
    }

    /// A connection over `stream` that reads into `buffer`.
    pub fn new(stream: Stream, buffer: Vec<u8>) -> (connection: Self)
        ensures
            connection.stream() == stream,
            connection.buffer() == buffer@,
    {
        Self { stream, buffer, _types: PhantomData }
    }

    /// A connection that takes over `stream`, with an empty read buffer.
    pub fn seize(stream: Stream) -> (connection: Self)
        ensures
            connection.stream() == stream,
            connection.buffer() == Seq::<u8>::empty(),
    {
        Self::new(stream, Vec::new())
    }

    /// The length of the read buffer.
    pub fn capacity(&self) -> (n: usize)
        ensures
            n == self.buffer().len(),
    {
        self.buffer.len()
    }

    /// How many bytes must still arrive before the next read can succeed;
    /// 0 when a whole frame is there.
    pub fn missing(&self) -> (n: u64)
        ensures
            n == missing(self.stream().received()),
    {
        self.stream.missing()
    }

    /// Hands the connection bytes that arrived from the peer.
    pub fn feed(&mut self, bytes: &[u8])
        ensures
            final(self).stream().received() == old(self).stream().received() + bytes@,
            final(self).stream().sent() == old(self).stream().sent(),
            final(self).buffer() == old(self).buffer(),
    {
        self.stream.feed(bytes)
    }

    /// Takes away all that was written, for the peer.
    pub fn take(&mut self) -> (bytes: Vec<u8>)
        ensures
            bytes@ == old(self).stream().sent(),
            final(self).stream().sent() == Seq::<u8>::empty(),
            final(self).stream().received() == old(self).stream().received(),
            final(self).buffer() == old(self).buffer(),
    {
        self.stream.take()
    }

    /// Writes `input` as one frame of the text that `encode` makes of it.
    pub fn write<F>(&mut self, input: I, encode: F) -> (r: Result<(), ConnectionError>) where
        F: FnOnce(&I) -> Result<Vec<u8>, serde_json::Error>,

        requires
            encode.requires((&input,)),
        ensures
            final(self).buffer() == old(self).buffer(),
            final(self).stream().received() == old(self).stream().received(),
            match r {
                Ok(_) => exists|text: Vec<u8>|
                    {
                        &&& encode.ensures((&input,), Ok(text))
                        &&& final(self).stream().sent() == old(self).stream().sent() + frame(
                            text@,
                        )
                    },
                Err(e) => exists|cause: serde_json::Error|
                    {
                        &&& encode.ensures((&input,), Err(cause))
                        &&& e == ConnectionError::Encode(cause)
                        &&& final(self).stream().sent() == old(self).stream().sent()
                    },
            },
    {
        write_json(&mut self.stream, input, encode)
    }

    /// Writes `input` as one frame, as it is.
    pub fn write_bytes(&mut self, input: &[u8])
        ensures
            final(self).buffer() == old(self).buffer(),
            final(self).stream().received() == old(self).stream().received(),
            final(self).stream().sent() == old(self).stream().sent() + frame(input@),
    {
        write(&mut self.stream, input)
    }

    /// Reads one frame and gives what `decode` makes of its payload.
    pub fn read<F>(&mut self, decode: F) -> (r: Result<O, ConnectionError>) where
        F: FnOnce(&[u8]) -> Result<O, serde_json::Error>,

        requires
            forall|payload: &[u8]| decode.requires((payload,)),
        ensures
            final(self).stream().sent() == old(self).stream().sent(),
            final(self).buffer().len() >= old(self).buffer().len(),
            missing(old(self).stream().received()) > 0 ==> {
                &&& r == Err::<O, ConnectionError>(
                    ConnectionError::ShortRead {
                        missing: missing(old(self).stream().received()) as u64,
                    },
                )
                &&& final(self).stream() == old(self).stream()
                &&& final(self).buffer() == old(self).buffer()
            },
            missing(old(self).stream().received()) == 0 ==> {
                &&& final(self).stream().received() == after_first(
                    old(self).stream().received(),
                )
                &&& final(self).buffer() == refilled(
                    old(self).buffer(),
                    first_payload(old(self).stream().received()),
                )
                &&& exists|payload: &[u8]|
                    {
                        &&& payload@ == first_payload(old(self).stream().received())
                        &&& match r {
                            Ok(value) => decode.ensures((payload,), Ok(value)),
                            Err(ConnectionError::Decode(cause)) => decode.ensures(
                                (payload,),
                                Err(cause),
                            ),
                            Err(_) => false,
                        }
                    }
            },
    {
        read_json(&mut self.stream, &mut self.buffer, decode)
    }

    /// Reads one frame and gives its payload as it is. The bytes stay in
    /// the read buffer until the next read.
    pub fn read_bytes(&mut self) -> (r: Result<&[u8], ConnectionError>)
        ensures
            final(self).stream().sent() == old(self).stream().sent(),
            final(self).buffer().len() >= old(self).buffer().len(),
            match r {
                Ok(payload) => {
                    &&& missing(old(self).stream().received()) == 0
                    &&& payload@ == first_payload(old(self).stream().received())
                    &&& final(self).buffer() == refilled(old(self).buffer(), payload@)
                    &&& final(self).stream().received() == after_first(
                        old(self).stream().received(),
                    )
                },
                Err(e) => {
                    &&& missing(old(self).stream().received()) > 0
                    &&& e == (ConnectionError::ShortRead {
                        missing: missing(old(self).stream().received()) as u64,
                    })
                    &&& final(self).stream() == old(self).stream()
                    &&& final(self).buffer() == old(self).buffer()
                },
            },
    {
        let n = match read(&mut self.stream, &mut self.buffer) {
            Ok(n) => n,
            Err(e) => {
                return Err(e);
            },
        };
        let payload = slice_subrange(self.buffer.as_slice(), 0, n);
        assert(payload@ =~= first_payload(old(self).stream().received()));
        Ok(payload)
    }
}

} // verus!
