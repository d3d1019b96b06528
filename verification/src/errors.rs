//! The error types of the blog and their messages.

use vstd::prelude::*;
use vstd::string::StringExecFns;

verus! {

/// Domain errors shared across the blog's layers.
#[derive(Debug, Clone)]
pub enum DomainError {
    Invariant(String),
    NotFound(String),
    InvalidState(String),
}

impl DomainError {
    /// The message the error displays.
    pub fn message(&self) -> (res: String)
        ensures
            res@ == match self {
                DomainError::Invariant(s) => "invariant violated: "@ + s@,
                DomainError::NotFound(s) => "entity not found: "@ + s@,
                DomainError::InvalidState(s) => "operation not allowed in the current state: "@ + s@,
            },
    {
        let (mut res, detail) = match self {
            DomainError::Invariant(s) => (String::from_str("invariant violated: "), s),
            DomainError::NotFound(s) => (String::from_str("entity not found: "), s),
            DomainError::InvalidState(s) => (
                String::from_str("operation not allowed in the current state: "),
                s,
            ),
        };
        res.append(detail.as_str());
        res
    }
}

/// Failure of the persistence port.
#[derive(Debug, Clone)]
pub enum RepositoryError {
    Infrastructure(String),
}

impl RepositoryError {
    /// The message the error displays.
    pub fn message(&self) -> (res: String)
        ensures
            res@ == match self {
                RepositoryError::Infrastructure(s) => "infrastructure error: "@ + s@,
            },
    {
        match self {
            RepositoryError::Infrastructure(s) => {
                let mut res = String::from_str("infrastructure error: ");
                res.append(s.as_str());
                res
            },
        }
    }
}

/// Failure of a use case.
#[derive(Debug, Clone)]
pub enum UseCaseError {
    Repository(RepositoryError),
    NotFound,
}

impl UseCaseError {
    /// The message the error displays: a repository failure shows its own.
    pub fn message(&self) -> (res: String)
        ensures
            res@ == match self {
                UseCaseError::Repository(RepositoryError::Infrastructure(s)) => "infrastructure error: "@
                    + s@,
                UseCaseError::NotFound => "post not found"@,
            },
    {
        match self {
            UseCaseError::Repository(e) => e.message(),
            UseCaseError::NotFound => String::from_str("post not found"),
        }
    }
}

impl From<RepositoryError> for UseCaseError {
    fn from(e: RepositoryError) -> (res: Self) {
        UseCaseError::Repository(e)
    }
}

impl vstd::std_specs::convert::FromSpecImpl<RepositoryError> for UseCaseError {
    open spec fn obeys_from_spec() -> bool {
        true
    }

    open spec fn from_spec(e: RepositoryError) -> UseCaseError {
        UseCaseError::Repository(e)
    }
}

/// Missing runtime configuration.
#[derive(Debug, Clone)]
pub enum ConfigurationError {
    MissingVar(String),
}

impl ConfigurationError {
    /// The message the error displays.
    pub fn message(&self) -> (res: String)
        ensures
            res@ == match self {
                ConfigurationError::MissingVar(v) => "missing required env var "@ + v@
                    + ". Locally: `make dev/up` (docker) or run under `sops exec-env secrets/dev.enc.env '<cmd>'`. See README > Secrets."@,
            },
    {
        match self {
            ConfigurationError::MissingVar(v) => {
                let mut res = String::from_str("missing required env var ");
                res.append(v.as_str());
                res.append(
                    ". Locally: `make dev/up` (docker) or run under `sops exec-env secrets/dev.enc.env '<cmd>'`. See README > Secrets.",
                );
                res
            },
        }
    }
}

} // verus!
