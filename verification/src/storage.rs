//! Where the collection is kept between runs, and how a stored collection is
//! taken up again.
//!
//! The file itself is read, decoded and written by the caller. What is
//! decided here is where the file lies and what a load yields for each thing
//! that the caller may find there.

use vstd::prelude::*;
use crate::todo::Todo;

verus! {

/// The name of the file that holds the collection, relative to the working
/// directory.
pub const STORAGE_FILE: &'static str = "todos.json";

/// The error with which the operating system refuses a read or a write. It is
/// carried through untouched.
#[verifier::external_type_specification]
#[verifier::external_body]
pub struct ExIoError(std::io::Error);

/// The error with which `serde_json` refuses a text. It is carried through
/// untouched.
#[verifier::external_type_specification]
#[verifier::external_body]
pub struct ExJsonError(serde_json::Error);

/// What the caller found at the storage path.
pub enum Found {
    /// No file exists there.
    Nothing,
    /// A file exists, but reading it failed.
    Unreadable(std::io::Error),
    /// The file was read, but its text is not a list of items.
    Malformed(serde_json::Error),
    /// The file was read and its text is this list of items.
    Items(Vec<Todo>),
}

/// Why a load failed.
#[derive(Debug)]
pub enum StorageError {
    /// The file could not be read.
    Io(std::io::Error),
    /// The file does not hold a list of items.
    InvalidData(serde_json::Error),
}

/// The place where the collection is kept.
pub struct Storage {
    file_path: String,
}

impl Storage {
    /// The path of the file, as text.
    pub closed spec fn path(&self) -> Seq<char> {
        self.file_path@
    }

    /// The storage at the fixed path `STORAGE_FILE`.
    pub fn new() -> (storage: Storage)
        ensures
            storage.path() == STORAGE_FILE@,
    {
        Storage { file_path: STORAGE_FILE.to_owned() }
    }

    /// The path of the file.
    pub fn file_path(&self) -> (path: &str)
        ensures
            path@ == self.path(),
    {
        self.file_path.as_str()
    }

    /// The collection that a load yields, given what was found at the path.
    ///
    /// A missing file is no error: it stands for the empty collection. A file
    /// that cannot be read and a file that does not decode are two different
    /// errors, each carrying what the caller was told.
    pub fn load(&self, found: Found) -> (loaded: Result<Vec<Todo>, StorageError>)
        ensures
            match found {
                Found::Nothing => loaded matches Ok(items) && items@.len() == 0,
                Found::Unreadable(cause) => loaded matches Err(StorageError::Io(kept))
                    && kept == cause,
                Found::Malformed(cause) => loaded matches Err(StorageError::InvalidData(kept))
                    && kept == cause,
                Found::Items(stored) => loaded matches Ok(items) && items == stored,
            },
    {
        match found {
            Found::Nothing => Ok(Vec::new()),
            Found::Unreadable(cause) => Err(StorageError::Io(cause)),
            Found::Malformed(cause) => Err(StorageError::InvalidData(cause)),
            Found::Items(items) => Ok(items),
        }
    }
}

} // verus!
