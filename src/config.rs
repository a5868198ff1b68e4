use vstd::prelude::*;

use crate::text::copy_str;

verus! {

/// Settings read from the configuration file.
#[derive(Debug, Clone, PartialEq)]
pub struct Config {
    pub db_path: String,
}

impl Default for Config {
    fn default() -> (r: Config)
        ensures
            r.db_path@ == "issuecraft.db"@,
    {
        Config { db_path: copy_str("issuecraft.db") }
    }
}

/// The command line: an optional database path, the query, and the user.
#[derive(Debug, Clone, PartialEq)]
pub struct Cli {
    pub database: Option<String>,
    pub query: String,
    pub user: String,
}

} // verus!
