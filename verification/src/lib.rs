//! Core of a Nostr protocol client: identities, event drafts and signing,
//! query filters, and the relay pool's bookkeeping.
//!
//! Nothing here touches the network. A driver owns the sockets, performs the
//! work this crate asks for and reports back what happened; the crate
//! decides what is sent and what an answer means.

pub mod client;
pub mod error;
pub mod event;
pub mod fetch;
pub mod filter;
pub mod hex;
pub mod keys;
pub mod metadata;
pub mod pool;
pub mod relay;
pub mod seqs;
pub mod subscription;
