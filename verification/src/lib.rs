//! A Wayland proxy's message rewriting, verified: the requests of a client
//! and the events of the compositor are scanned message by message, and
//! the client's first `xdg_surface` is turned into a `zwlr_layer_surface_v1`
//! placed by the command line's settings.
//!
//! - `wire`: little-endian integers, message headers, fixed strings.
//! - `state`: the ids the proxy tracks and its settings.
//! - `message`: messages and what is done with each.
//! - `requests`, `events`: the decision for one message of each stream.
//! - `scan`: splitting a buffer into messages and rebuilding it.
//! - `sockets`: socket names.
//! - `text`: decimal text.
//! - `laws`: properties of the decisions across messages and calls.
//! - `framing`: whole messages, and scanning in pieces and in steps.
//! - `layouts`: the fields of the messages the proxy sends in place of others.
pub mod events;
pub mod framing;
pub mod laws;
pub mod layouts;
pub mod message;
pub mod requests;
pub mod scan;
pub mod sockets;
pub mod state;
pub mod text;
pub mod wire;
