//! A minimal actor runtime: isolated, stateful processes that communicate
//! through bounded, ordered mailboxes, plus a request/response protocol layer
//! (`GenServer`) offering fire-and-forget casts and calls that resolve with
//! exactly one reply.
//!
//! The runtime is modelled synchronously: a process owns its identifier, its
//! private state and the receiving end of its mailbox, and an embedding drives
//! its run loop one message at a time. Every step of the loop, the dispatch of
//! cast and call envelopes, and the reply-channel discipline carry proved
//! contracts.

pub mod error;
pub mod mailbox;
pub mod process;
pub mod gen_server;

pub use error::SwErlError;
pub use mailbox::Mailbox;
pub use process::{Process, ProcessBuilder};
pub use gen_server::{GenServer, GenServerBehavior};
