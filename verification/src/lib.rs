//! Synchronization core of an interactive volume mixer.
//!
//! The library models the audio-engine loop that sits between a UI and a
//! stateful audio server: the connect handshake, the translation of inbound
//! commands into server requests, and the bookkeeping of a bounded set of
//! per-target peak-level monitors.  All server and terminal I/O lives outside
//! the library; the functions here decide, from plain values, what the next
//! state is and which server calls to issue.

pub mod connect;
pub mod dispatch;
pub mod engine;
pub mod ids;
pub mod monitors;
pub mod seqs;
