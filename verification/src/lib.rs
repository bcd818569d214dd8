//! A multi-room, line-oriented chat relay core: a registry of named rooms,
//! each with a member set and an append-only message history, and the
//! per-connection session state machine that drives handshake, messaging and
//! departure. Transport I/O stays outside; the library works on plain lines.

pub mod registry;
pub mod room;
pub mod session;
pub mod text;
