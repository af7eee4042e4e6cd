//! A transport held in memory: what the peer has sent and what is to be
//! sent to it.
use crate::error::ConnectionError;
use crate::frame::{get_length, missing, prefix_value, put_length};
use vstd::prelude::*;

verus! {

/// One end of a duplex byte transport.
///
/// The stream keeps two queues. Bytes that arrived from the peer wait in the
/// first until a read takes them; bytes that were written wait in the second
/// until the owner of the socket takes them away. Both keep their order and
/// neither loses or invents a byte.
#[derive(Debug)]
pub struct Stream {
    incoming: Vec<u8>,
    outgoing: Vec<u8>,
}

impl Stream {
    /// The bytes that have arrived and were not read yet, oldest first.
    pub closed spec fn received(&self) -> Seq<u8> {
        self.incoming@
    }

    /// The bytes that were written and not taken away yet, oldest first.
    pub closed spec fn sent(&self) -> Seq<u8> {
        self.outgoing@
    }

    /// Both queues live in memory, so their lengths are machine words.
    pub proof fn lemma_fits(&self)
        ensures
            self.received().len() <= usize::MAX,
            self.sent().len() <= usize::MAX,
    {
        assert(self.incoming@.len() == self.incoming.len());
        assert(self.outgoing@.len() == self.outgoing.len());
    }

    /// A stream on which nothing has arrived and nothing was written.
    pub fn new() -> (stream: Self)
        ensures
            stream.received() == Seq::<u8>::empty(),
            stream.sent() == Seq::<u8>::empty(),
    {
        Stream { incoming: Vec::new(), outgoing: Vec::new() }
    }

    /// Hands the stream bytes that arrived from the peer.
    pub fn feed(&mut self, bytes: &[u8])
        ensures
            final(self).received() == old(self).received() + bytes@,
            final(self).sent() == old(self).sent(),
    {
        self.incoming.extend_from_slice(bytes);
        assert(self.incoming@ =~= old(self).incoming@ + bytes@);
    }

    /// Takes away all that was written, for the peer.
    pub fn take(&mut self) -> (bytes: Vec<u8>)
        ensures
            bytes@ == old(self).sent(),
            final(self).sent() == Seq::<u8>::empty(),
            final(self).received() == old(self).received(),
    {
        let mut bytes: Vec<u8> = Vec::new();
        core::mem::swap(&mut bytes, &mut self.outgoing);
        bytes
    }

    /// How many bytes must still arrive before a whole frame can be read;
    /// 0 when one is there.
    pub fn missing(&self) -> (n: u64)
        ensures
            n == missing(self.received()),
    {
        match get_length(self.incoming.as_slice()) {
            None => (crate::frame::PREFIX_LEN - self.incoming.len()) as u64,
            Some(length) => {
                let there: u64 = (self.incoming.len() - crate::frame::PREFIX_LEN) as u64;
                if there < length {
                    length - there
                } else {
                    0
                }
            },
        }
    }

    /// Writes `n` as eight bytes, most significant first.
    pub fn write_u64(&mut self, n: u64)
        ensures
            final(self).sent() == old(self).sent() + crate::frame::length_prefix(n),
            final(self).received() == old(self).received(),
    {
        put_length(&mut self.outgoing, n);
    }

    /// Writes all of `bytes`.
    pub fn write_all(&mut self, bytes: &[u8])
        ensures
            final(self).sent() == old(self).sent() + bytes@,
            final(self).received() == old(self).received(),
    {
        self.outgoing.extend_from_slice(bytes);
        assert(self.outgoing@ =~= old(self).outgoing@ + bytes@);
    }

    /// Reads eight bytes as a number, most significant byte first. With
    /// fewer than eight bytes there, nothing is read.
    pub fn read_u64(&mut self) -> (r: Result<u64, ConnectionError>)
        ensures
            final(self).sent() == old(self).sent(),
            match r {
                Ok(n) => {
                    &&& old(self).received().len() >= 8
                    &&& n == prefix_value(old(self).received())
                    &&& final(self).received() == old(self).received().skip(8)
                },
                Err(e) => {
                    &&& old(self).received().len() < 8
                    &&& e == (ConnectionError::ShortRead {
                        missing: (8 - old(self).received().len()) as u64,
                    })
                    &&& final(self).received() == old(self).received()
                },
            },
    {
        match get_length(self.incoming.as_slice()) {
            None => Err(
                ConnectionError::ShortRead { missing: (crate::frame::PREFIX_LEN - self.incoming.len()) as u64 },
            ),
            Some(n) => {
                let rest = self.incoming.split_off(crate::frame::PREFIX_LEN);
                self.incoming = rest;
                Ok(n)
            },
        }
    }

    /// Reads exactly `n` bytes into the first `n` places of `buffer`; the
    /// rest of `buffer` stays as it was. With fewer than `n` bytes there,
    /// nothing is read.
    pub fn read_exact(&mut self, buffer: &mut Vec<u8>, n: usize) -> (r: Result<
        usize,
        ConnectionError,
    >)
        requires
            n <= old(buffer)@.len(),
        ensures
            final(self).sent() == old(self).sent(),
            match r {
                Ok(count) => {
                    &&& count == n
                    &&& n <= old(self).received().len()
                    &&& final(buffer)@ == old(self).received().take(n as int) + old(
                        buffer,
                    )@.skip(n as int)
                    &&& final(self).received() == old(self).received().skip(n as int)
                },
                Err(e) => {
                    &&& old(self).received().len() < n
                    &&& e == (ConnectionError::ShortRead {
                        missing: (n - old(self).received().len()) as u64,
                    })
                    &&& final(self).received() == old(self).received()
                    &&& final(buffer)@ == old(buffer)@
                },
            },
    {
        if self.incoming.len() < n {
            return Err(ConnectionError::ShortRead { missing: (n - self.incoming.len()) as u64 });
        }
        let mut i: usize = 0;
        while i < n
            invariant
                i <= n <= self.incoming@.len(),
                n <= buffer@.len(),
                self.incoming@ == old(self).incoming@,
                self.outgoing@ == old(self).outgoing@,
                buffer@.len() == old(buffer)@.len(),
                forall|j: int| 0 <= j < i ==> buffer@[j] == self.incoming@[j],
                forall|j: int| i <= j < buffer@.len() ==> buffer@[j] == old(buffer)@[j],
            decreases n - i,
        {
            let byte: u8 = self.incoming[i];
            buffer.set(i, byte);
            i += 1;
        }
        let rest = self.incoming.split_off(n);
        self.incoming = rest;
        assert(buffer@ =~= old(self).received().take(n as int) + old(buffer)@.skip(n as int));
        Ok(n)
    }
}

} // verus!
