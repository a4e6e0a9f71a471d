use vstd::prelude::*;

verus! {

/// What the program was asked to do.
#[derive(Debug)]
pub enum Subcommands {
    /// Initialise a database and configuration.
    Init(InitArgs),
    /// Add a record.
    New,
    /// Show the records that a query selects.
    Query(QueryArgs),
    /// Remove a record.
    Remove,
    /// Serve the web pages and the HTTP interface.
    Serve,
}

/// The arguments of initialisation.
#[derive(Debug)]
pub struct InitArgs {
    /// The port of the server, where it was given.
    pub port: Option<u16>,
}

/// The arguments of a query.
#[derive(Debug)]
pub struct QueryArgs {
    /// The text to look for in the records' names.
    pub name: Option<String>,
}

impl Subcommands {
    /// Whether the command works on an existing store. Only initialisation
    /// does not: it creates the store, and needs neither an open store nor
    /// the instance lock.
    pub fn needs_store(&self) -> (needed: bool)
        ensures
            needed == !(*self is Init),
    {
        match self {
            Subcommands::Init(_) => false,
            _ => true,
        }
    }
}

} // verus!
