//! Events, their binary encoding, and framing over a byte stream.

pub mod connection;
pub mod event;
pub mod protocol;

pub use connection::{Connection, ConnectionView};
pub use event::{Event, EventListener, EventView, Handle, NULL_HANDLE};
pub use protocol::{Protocol, SmartProtocol};
