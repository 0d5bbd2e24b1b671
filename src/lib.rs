//! An in-memory key-value store with a Redis-like command set: string and
//! list values, per-key expiry with lazy sweeping, and the commands SET, GET,
//! DEL, LPUSH, LPOP and LRANGE.
//!
//! - `value`, `store`: the stored values and the key-to-value mapping.
//! - `expire`: expiry entries, their registration and the sweep.
//! - `reply`: the output lines of a command and their text.
//! - `command`: parsed commands and their evaluation against a store.
//! - `tokenizer`, `scanner`: splitting a command line into tokens.
//! - `laws`: properties of sequences of commands, proved over the models.

pub mod value;
pub mod store;
pub mod reply;
pub mod expire;
pub mod command;
pub mod tokenizer;
pub mod scanner;
pub mod parser;
pub mod laws;
