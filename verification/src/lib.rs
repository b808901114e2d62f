//! An in-memory index of encrypted credential files beneath a root
//! directory: entry construction from file paths, a one-shot scan, a
//! decision function for live filesystem events, an append-only shared
//! index with a change signal, and a case-insensitive substring search.
#![verifier::loop_isolation(false)]

pub mod entry;
pub mod search;
pub mod secret;
pub mod session;

pub use entry::PasswordEntry;
pub use search::search;
pub use session::PasswordEvent;
pub use entry::to_name;
pub use entry::to_password;
