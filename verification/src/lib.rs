//! Simulation core of a two-player networked tank arena: the entity and
//! component store, the passes of a tick with their command buffer, the
//! collision rules, the session state machine and the framed wire protocol.
//!
//! The library does no input or output and keeps no time. A host moves bytes
//! between sockets and the connections kept here, measures the length of
//! each tick, and drives the server and the client one step at a time.
//!
//! Single-precision numbers are carried by their bit patterns. The library
//! compares them, halves them and writes whole numbers as patterns; it does
//! no other arithmetic on them. What takes trigonometry or other real
//! arithmetic is worked out by the host and handed in as plain values, and
//! every contract says what the library does with whatever it is handed.

pub mod game;
pub mod misc;
pub mod net;
