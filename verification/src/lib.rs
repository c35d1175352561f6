//! A minimal IRC client core.
//!
//! - [`message`]: the wire-message parser, one raw line in, one structured
//!   message out.
//! - [`grammar`]: the wire grammar, and the proof that the parser reads back
//!   what the grammar writes.
//! - [`session`]: the rules of a connection session, as a step from the
//!   session and an event to the next session and an action.
//! - [`wire`]: framing of outgoing commands.
//! - [`plugin`]: which directory entries are native plugins.
//! - [`config`]: the configuration a session reads.
//! - [`text`]: searching and cutting text by character position.
//!
//! Everything here works on plain values. Sockets, files and dynamic
//! libraries are the caller's business: the caller performs the I/O and hands
//! what it read to the functions of this crate, which decide what happens next.

pub mod config;
pub mod grammar;
pub mod message;
pub mod plugin;
pub mod session;
pub mod text;
pub mod wire;
