//! A per-account encrypted note store.
//!
//! Each account owns a densely indexed collection of notes (ids `0..count`
//! with no gaps, kept dense by swap-compaction on delete), an optional
//! encryption key, and a stream of structured event records describing every
//! state transition.  Note contents are bound to their owning account by a
//! 20-byte identity prefix on the ciphertext, so only the creating account
//! can decrypt them.
//!
//! The host environment (persistent storage, caller identity, block time,
//! log transport) is kept outside: operations take the acting identity and
//! the current timestamp as explicit parameters and record the events they
//! would emit.

pub mod cipher;
pub mod events;
pub mod notes;
pub mod store;
pub mod types;
