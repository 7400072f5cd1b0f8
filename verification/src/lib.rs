//! Reading Codex conversations from two sides.
//!
//! On one side is a `codex app-server --stdio` child: [`client`] is a
//! read-only client of it, [`rpc`] is the lines the two exchange, and
//! [`threads`] is what is shown of its threads. On the other side is the Codex
//! desktop app, which runs a thread and publishes it on a local bus: [`bus`]
//! is a client on that bus, [`wire`] is its frames and messages, and
//! [`mirror`] keeps a copy of a conversation current from what is published.
//!
//! [`lifecycle`] and [`laws`] state what all of this is for: how results relate
//! to what went in, over all inputs and over runs of events.
//!
//! Nothing here touches a process, a socket or a window. What has to be done
//! comes out as a value, and what happened goes in as one.

pub mod bus;
pub mod client;
pub mod json;
pub mod laws;
pub mod lifecycle;
pub mod mirror;
pub mod rpc;
pub mod table;
pub mod text;
pub mod threads;
pub mod wire;
