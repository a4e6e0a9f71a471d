use vstd::prelude::*;

verus! {

/// Why initialisation was refused.
#[derive(Debug, Copy, Clone, PartialEq, Eq, Structural)]
pub enum LocketError {
    /// A configuration file is already present at the chosen path.
    ConfigAlreadyExistsError,
    /// A database file is already present at the chosen path.
    DatabaseAlreadyExistsError,
}

impl LocketError {
    /// The text shown to the user for this error.
    pub fn message(&self) -> (text: &'static str)
        ensures
            text@ == match *self {
                LocketError::ConfigAlreadyExistsError =>
                    "Tried to initialise a configuration file where one already exists"@,
                LocketError::DatabaseAlreadyExistsError =>
                    "Tried to initialise a database file where one already exists"@,
            },
    {
        match self {
            LocketError::ConfigAlreadyExistsError =>
                "Tried to initialise a configuration file where one already exists",
            LocketError::DatabaseAlreadyExistsError =>
                "Tried to initialise a database file where one already exists",
        }
    }
}

/// Why an operation on the store did not go through.
#[derive(Debug)]
pub enum StoreError {
    /// The file to be created is already there.
    AlreadyExists(LocketError),
    /// There is no file at the path.
    NotFound,
    /// The file system refused; the text is the system's own message.
    Io(String),
    /// The file holds bytes that are not an encoded collection.
    Malformed,
    /// The collection could not be encoded.
    Unencodable,
    /// A freshly drawn identifier is already in use.
    IdCollision,
}

} // verus!
