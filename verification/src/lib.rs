//! Typed, named channels over one byte transport.
//!
//! A [`Plug`] names a channel and fixes the types that travel over it. The
//! client announces the name in a first frame; the server looks it up in a
//! [`Strip`] and hands the transport to the matching handler. Every message
//! is one frame: an eight-byte big-endian length and then that many bytes.
//!
//! The library holds no socket. A [`Stream`] keeps the bytes that came from
//! the peer and the bytes that are to go to it; whoever owns the socket moves
//! them. All functions here return at once and are proved against the
//! contracts they state.
pub mod connection;
pub mod error;
pub mod frame;
pub mod json;
pub mod plug;
pub mod stream;
pub mod strip;

pub use connection::Connection;
pub use error::ConnectionError;
pub use plug::Plug;
pub use stream::Stream;
pub use strip::{Route, Strip};
