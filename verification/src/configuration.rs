//! Runtime configuration.

use vstd::prelude::*;
use vstd::string::StringExecFns;

use crate::errors::ConfigurationError;

verus! {

/// Runtime configuration of the server and the ingest tool.
#[derive(Debug, Clone)]
pub struct Configuration {
    /// Postgres connection string. Secret: never log it.
    pub database_url: String,
}

impl Configuration {
    /// The configuration from the value of `DATABASE_URL`, if it is set.
    /// There is deliberately no default: a misconfigured container must die
    /// at boot.
    pub fn from_env_value(database_url: Option<String>) -> (res: Result<Self, ConfigurationError>)
        ensures
            match database_url {
                Some(url) => res matches Ok(c) && c.database_url == url,
                None => res matches Err(ConfigurationError::MissingVar(v)) && v@ == "DATABASE_URL"@,
            },
    {
        match database_url {
            Some(url) => Ok(Configuration { database_url: url }),
            None => Err(ConfigurationError::MissingVar(String::from_str("DATABASE_URL"))),
        }
    }
}

} // verus!
