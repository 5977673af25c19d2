//! Storage settings shared by the server and the maintenance commands.
use vstd::prelude::*;

verus! {

/// Where the SQLite database lives. Its parent directories must already
/// exist; the command line defaults it to `synod.db`.
#[derive(Debug, Clone)]
pub struct StorageArgs {
    pub database: String,
}

} // verus!
