//! The state of a to-do list, with every operation on it verified.
//!
//! The crate holds the in-memory side of a small to-do application: the items
//! (`todo`), the collection that owns them and hands out identifiers (`app`),
//! the statistics computed from it (`stats`), and the rules by which a stored
//! collection is taken up again (`storage`). `model` says what each operation
//! does to the list as a mathematical value, and `laws` proves what holds of
//! the list whatever is done with it.
//!
//! Files, encoding and the terminal are left to the caller. The list keeps
//! note of whether it has changed since it was read or written, and so tells
//! its caller when it is to be written out.
//!
//! `lessons` holds a few small functions on numbers, text and records.
//!
//! Two things are done here that Verus does not see through and takes on
//! trust: reading the clock (`clock::now`) and the standard library's reading
//! of a decimal number (in `lessons::error_handling`). Two error types of other
//! libraries are carried through as opaque values (`storage`).

pub mod clock;
pub mod todo;
pub mod storage;
pub mod model;
pub mod app;
pub mod stats;
pub mod laws;
pub mod lessons;
