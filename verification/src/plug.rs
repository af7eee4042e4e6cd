//! The named, typed end of a channel.
use crate::connection::{write_json, Connection};
use crate::error::ConnectionError;
use crate::frame::frame;
use crate::json::{encode_name, json_of_text};
use crate::stream::Stream;
use core::marker::PhantomData;
use vstd::prelude::*;

verus! {

/// A channel: its name, and the types that go in and come out at the
/// client's end. The types exist for the compiler alone; at run time a plug
/// is its name.
#[derive(Debug)]
pub struct Plug<I, O> {
    name: &'static str,
    _types: PhantomData<(I, O)>,
}

impl<I, O> Copy for Plug<I, O> {

}

impl<I, O> Clone for Plug<I, O> {
    fn clone(&self) -> (plug: Self)
        ensures
            plug == *self,
    {
        *self
    }
}

impl<I, O> View for Plug<I, O> {
    type V = Seq<char>;

    /// The name that the client announces and the server looks up.
    closed spec fn view(&self) -> Seq<char> {
        self.name@
    }
}

impl<I, O> Plug<I, O> {
    /// The name of the channel.
    pub fn name(&self) -> (name: &'static str)
        ensures
            name@ == self@,
    {
        self.name
    }

    /// A plug for the channel called `name`.
    pub fn new(name: &'static str) -> (plug: Self)
        ensures
            plug@ == name@,
    {
        Self { name, _types: PhantomData }
    }

    /// Takes over `stream` for this channel: writes the name as the first
    /// frame and waits for no answer. The connection that comes back reads
    /// and writes on the same stream.
    pub fn seize(self, stream: Stream) -> (r: Result<Connection<I, O>, ConnectionError>)
        ensures
            match r {
                Ok(connection) => {
                    &&& json_of_text(self@) matches Some(text)
                    &&& connection.stream().sent() == stream.sent() + frame(text)
                    &&& connection.stream().received() == stream.received()
                    &&& connection.buffer() == Seq::<u8>::empty()
                },
                Err(e) => json_of_text(self@) is None && e is Encode,
            },
    {
        let mut stream = stream;
        match write_json(&mut stream, self.name, encode_name) {
            Ok(_) => Ok(Connection::seize(stream)),
            Err(e) => Err(e),
        }
    }
}

} // verus!
