//! Verified cores of a collection of small concurrency demonstrations:
//! the values that threads compute, send and share, and the decisions a
//! worker takes, stated over plain values. Spawning, locking, parking and
//! printing live with the caller.

pub mod text;
pub mod chunks;
pub mod tasks;
pub mod once;
pub mod lazy;
pub mod counters;
pub mod channel;
pub mod aba;
