//! A single-document diary service: a client proves knowledge of a shared
//! secret, receives the content written so far for the current calendar day,
//! and then streams full-content updates that overwrite that day's entry.
//!
//! The library holds the verified core: the session protocol state machine,
//! the day-keyed storage model with its laws, the in-memory reference store,
//! the file-backend path planning, and the configuration formatting.
//! Transport and persistence I/O live outside the library and drive it
//! through plain values.

pub mod config;
pub mod day;
pub mod error;
pub mod file;
pub mod memory;
pub mod session;
pub mod store;
