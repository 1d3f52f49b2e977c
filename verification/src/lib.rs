//! A memory-and-lifecycle bridge that lets a host with only integers to
//! exchange — offsets and lengths into a flat byte space — drive an MD5
//! hashing routine living inside a module it cannot otherwise inspect.
//!
//! The bridge owns a linear byte memory, a table of live allocations, and a
//! table of hash sessions. The host allocates regions, writes input bytes
//! into them, feeds them to a session or to the one-shot digest entry point,
//! and reads the 16-byte digest back out of a region the bridge allocated
//! for it. Every entry point's effect on that state is stated against the
//! ghost model in [`model`] and verified.
//!
//! Where the underlying protocol leaves a contract violation (stale handle,
//! mismatched size, out-of-bounds region) undefined, this implementation
//! deliberately hardens it into a reported [`bridge::BridgeError`]: each
//! entry point's contract says exactly on which inputs each error is
//! returned, and that the bridge's state is untouched when one is.

pub mod bridge;
pub mod hashing;
pub mod model;
