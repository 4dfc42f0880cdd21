use vstd::prelude::*;

use crate::catalog::{catalog_of_text, load_catalog, LoadError};
use crate::workflow::{install, installation, list_models, listing, outputs_view, update_db, updating, Output};

verus! {

/// The catalog file read when no other path is given, relative to the
/// working directory.
pub const DEFAULT_CATALOG_PATH: &'static str = "hardware_db.json";

/// The installer's commands.
#[derive(Debug, PartialEq, Eq)]
pub enum Command {
    /// Show every model in the catalog.
    ListModels,
    /// Simulate installing the drivers of one model.
    Install { model: String },
    /// Simulate refreshing the catalog from a remote source.
    UpdateDb,
}

impl Command {
    /// Whether the command reads the catalog file.
    pub fn needs_catalog(&self) -> (r: bool)
        ensures
            r == !(self is UpdateDb),
    {
        match self {
            Command::UpdateDb => false,
            _ => true,
        }
    }
}

/// Runs a command on what reading the catalog file gave (`None` where it
/// could not be read; ignored by update-db), giving what to show, or the
/// load failure, which ends the program.
pub fn run(cmd: &Command, contents: Option<String>) -> (r: Result<Vec<Output>, LoadError>)
    ensures
        match cmd {
            Command::UpdateDb => r matches Ok(v) && outputs_view(v@) == updating(),
            _ => match contents {
                None => r == Err::<Vec<Output>, LoadError>(LoadError::FileUnreadable),
                Some(text) => match catalog_of_text(text@) {
                    None => r == Err::<Vec<Output>, LoadError>(LoadError::MalformedData),
                    Some(c) => r matches Ok(v) && outputs_view(v@) == match cmd {
                        Command::Install { model } => installation(c, model@),
                        _ => listing(c),
                    },
                },
            },
        },
{
    match cmd {
        Command::UpdateDb => Ok(update_db()),
        Command::ListModels => match load_catalog(contents) {
            Ok(c) => Ok(list_models(&c)),
            Err(e) => Err(e),
        },
        Command::Install { model } => match load_catalog(contents) {
            Ok(c) => Ok(install(&c, model.as_str())),
            Err(e) => Err(e),
        },
    }
}

impl LoadError {
    /// The diagnostic shown when loading fails.
    pub fn message(&self) -> (r: String)
        ensures
            r@ == match self {
                LoadError::FileUnreadable => "Unable to read the catalog file"@,
                LoadError::MalformedData => "The catalog file is not well-formed JSON of a catalog"@,
            },
    {
        match self {
            LoadError::FileUnreadable => String::from_str("Unable to read the catalog file"),
            LoadError::MalformedData => String::from_str("The catalog file is not well-formed JSON of a catalog"),
        }
    }
}

} // verus!
