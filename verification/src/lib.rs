//! Eight-byte discriminators for Anchor instructions and events.
//!
//! A discriminator is the leading eight bytes of the SHA-256 digest of
//! `namespace:name`. Instruction names are put into snake case before
//! hashing; event names are hashed as written.

pub mod encoding;
pub mod hasher;
pub mod idl;

pub use encoding::{bytes_to_hex, encode_discriminator, Encodings};
pub use hasher::{effective_namespace, get_hash};
pub use idl::{EntryKind, Idl, IdlEntry, IdlMetadata, Resolution, Resolved};
