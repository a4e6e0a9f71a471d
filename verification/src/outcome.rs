use vstd::prelude::*;

verus! {

/// How an attempt to create a file that must not exist yet ended.
#[derive(Debug)]
pub enum CreateOutcome {
    /// The file was created by this attempt.
    Created,
    /// Something was already at the path; nothing was changed.
    AlreadyExists,
    /// Any other failure, with the system's message.
    Failed(String),
}

/// How an attempt to read a whole file ended.
#[derive(Debug)]
pub enum ReadOutcome {
    /// The file was read; these are its bytes.
    Content(Vec<u8>),
    /// There is no file at the path.
    NotFound,
    /// Any other failure, with the system's message.
    Failed(String),
}

/// How an attempt to replace a file's contents ended.
#[derive(Debug)]
pub enum WriteOutcome {
    /// The file now holds exactly the bytes that were handed over.
    Written,
    /// The write failed, with the system's message.
    Failed(String),
}

/// How an attempt to remove a file ended.
#[derive(Debug)]
pub enum RemoveOutcome {
    /// The file was there and is now gone.
    Removed,
    /// There was no file to remove.
    NotFound,
    /// Any other failure, with the system's message.
    Failed(String),
}

} // verus!
