//! A flat, read-only filesystem view of a key-value store.
//!
//! Every key of the store that holds a simple value is shown as one regular
//! file in a single root directory: the key is the file's name and the value
//! is its contents. The crate holds the decisions of that view: which keys
//! are shown and under which identifier, what metadata a file reports, and
//! what each filesystem request is answered with. Talking to the store and
//! to the kernel is left to the caller.

pub mod adapter;
pub mod attr;
pub mod builder;
pub mod dispatch;
pub mod error;
pub mod laws;
pub mod snapshot;
pub mod store;
