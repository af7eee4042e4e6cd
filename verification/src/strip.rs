//! The server's table of channels.
use crate::connection::read_json;
use crate::error::ConnectionError;
use crate::frame::{after_first, first_payload, missing};
use crate::json::{decode_name, text_of_json};
use crate::plug::Plug;
use crate::stream::Stream;
use vstd::hash_map::StringHashMap;
use vstd::prelude::*;

verus! {

/// Where an accepted transport goes once its channel name was read.
pub enum Route<'a, H> {
    /// The name is in the table: `handler` is owed the transport and the
    /// buffer that the name was read into.
    Routed { handler: &'a H, client: Stream, buffer: Vec<u8> },
    /// The name is not in the table: the transport is dropped, and that is
    /// no error.
    Unrouted,
}

/// The handler that `table` keeps under `name`, if it keeps one.
pub open spec fn routed<H>(table: Map<Seq<char>, H>, name: Seq<char>) -> Option<H> {
    if table.contains_key(name) {
        Some(table[name])
    } else {
        None
    }
}

/// A name leads to the handler that was put under it; putting a handler
/// under one name changes nothing for any other; an empty table leads
/// nowhere.
pub proof fn lemma_routing<H>(
    table: Map<Seq<char>, H>,
    name: Seq<char>,
    handler: H,
    other: Seq<char>,
)
    ensures
        routed(table.insert(name, handler), name) == Some(handler),
        other != name ==> routed(table.insert(name, handler), other) == routed(table, other),
        routed(Map::<Seq<char>, H>::empty(), other) is None,
{
}

/// With handlers under two different names, each name leads to its own
/// handler and never to the other's, and a third name leads to none.
pub proof fn lemma_two_plugs<H>(
    first: Seq<char>,
    first_handler: H,
    second: Seq<char>,
    second_handler: H,
    third: Seq<char>,
)
    requires
        first != second,
        third != first,
        third != second,
    ensures
        ({
            let table = Map::<Seq<char>, H>::empty().insert(first, first_handler).insert(
                second,
                second_handler,
            );
            &&& routed(table, first) == Some(first_handler)
            &&& routed(table, second) == Some(second_handler)
            &&& routed(table, third) is None
        }),
{
}

/// A second handler under a name that is in use replaces the first: the
/// table is the one that never held the first, and the name leads to the
/// second.
pub proof fn lemma_overwrite<H>(
    table: Map<Seq<char>, H>,
    name: Seq<char>,
    first: H,
    second: H,
)
    ensures
        table.insert(name, first).insert(name, second) == table.insert(name, second),
        routed(table.insert(name, first).insert(name, second), name) == Some(second),
{
    assert(table.insert(name, first).insert(name, second) =~= table.insert(name, second));
}

/// A table from channel names to handlers. It is built once, plug by plug,
/// and then only read: any number of transports may be attached to it.
#[verifier::reject_recursive_types(H)]
pub struct Strip<H> {
    plugs: StringHashMap<H>,
}

impl<H> View for Strip<H> {
    type V = Map<Seq<char>, H>;

    closed spec fn view(&self) -> Map<Seq<char>, H> {
        self.plugs@
    }
}

impl<H> Strip<H> {
    /// A table with no channel.
    pub fn new() -> (strip: Self)
        ensures
            strip@ == Map::<Seq<char>, H>::empty(),
    {
        Self { plugs: StringHashMap::new() }
    }

    /// Puts `handler` under the name of `plug`. A handler that stood under
    /// that name before is replaced; all other names keep theirs.
    pub fn plug<I, O>(self, plug: Plug<I, O>, handler: H) -> (strip: Self)
        ensures
            strip@ == self@.insert(plug@, handler),
    {
        let mut strip = self;
        strip.plugs.insert(plug.name().to_owned(), handler);
        strip
    }

    /// Looks `name` up.
    pub fn route(&self, name: &str) -> (handler: Option<&H>)
        ensures
            match handler {
                Some(h) => routed(self@, name@) == Some(*h),
                None => routed(self@, name@) is None,
            },
    {
        self.plugs.get(name)
    }

    /// Serves a transport that was just accepted: reads the channel name
    /// from its first frame and looks it up.
    pub fn attach(&self, client: Stream) -> (r: Result<Route<'_, H>, ConnectionError>)
        ensures
            missing(client.received()) > 0 ==> r == Err::<Route<'_, H>, ConnectionError>(
                ConnectionError::ShortRead { missing: missing(client.received()) as u64 },
            ),
            missing(client.received()) == 0 ==> match text_of_json(
                first_payload(client.received()),
            ) {
                None => r is Err && r->Err_0 is Decode,
                Some(name) => match r {
                    Ok(Route::Routed { handler, client: rest, buffer }) => {
                        &&& routed(self@, name) == Some(*handler)
                        &&& rest.received() == after_first(client.received())
                        &&& rest.sent() == client.sent()
                        &&& buffer@ == first_payload(client.received())
                    },
                    Ok(Route::Unrouted) => routed(self@, name) is None,
                    Err(_) => false,
                },
            },
    {
        let mut client = client;
        let mut buffer: Vec<u8> = Vec::new();
        let name = match read_json(&mut client, &mut buffer, decode_name) {
            Ok(name) => name,
            Err(e) => {
                return Err(e);
            },
        };
        match self.route(name.as_str()) {
            Some(handler) => Ok(Route::Routed { handler, client, buffer }),
            None => Ok(Route::Unrouted),
        }
    }
}

impl<H> Default for Strip<H> {
    fn default() -> (strip: Self)
        ensures
            strip@ == Map::<Seq<char>, H>::empty(),
    {
        Self::new()
    }
}

} // verus!
