//! Errors of the library, each carrying its message.
use vstd::prelude::*;

verus! {

/// The error kinds the application reports.
#[derive(Debug)]
pub enum AppError {
    /// An AI API call failed or answered unusably.
    Api(String),
    /// The agent CLI failed or its output could not be used.
    Agent(String),
    /// An operation ran out of time.
    Timeout(String),
    /// The configuration is missing something that is needed.
    Config(String),
    /// A Discord request failed.
    Discord(String),
    /// A feed could not be fetched or parsed.
    RssParse(String),
    /// A transport-level HTTP failure.
    Http(String),
    /// A database failure.
    Database(String),
    /// A file system failure.
    Io(String),
    /// A JSON document could not be read.
    Json(String),
    /// A YAML document could not be read or written.
    Yaml(String),
    /// Anything else.
    Other(String),
}

/// The kind of an [`AppError`], without its message.
#[derive(Debug)]
pub enum ErrorKind {
    Api,
    Agent,
    Timeout,
    Config,
    Discord,
    RssParse,
    Http,
    Database,
    Io,
    Json,
    Yaml,
    Other,
}

/// Result type of the library.
pub type AppResult<T> = Result<T, AppError>;

impl AppError {
    /// The kind of the error.
    pub open spec fn kind(&self) -> ErrorKind {
        match self {
            AppError::Api(_) => ErrorKind::Api,
            AppError::Agent(_) => ErrorKind::Agent,
            AppError::Timeout(_) => ErrorKind::Timeout,
            AppError::Config(_) => ErrorKind::Config,
            AppError::Discord(_) => ErrorKind::Discord,
            AppError::RssParse(_) => ErrorKind::RssParse,
            AppError::Http(_) => ErrorKind::Http,
            AppError::Database(_) => ErrorKind::Database,
            AppError::Io(_) => ErrorKind::Io,
            AppError::Json(_) => ErrorKind::Json,
            AppError::Yaml(_) => ErrorKind::Yaml,
            AppError::Other(_) => ErrorKind::Other,
        }
    }

    /// The message carried by the error.
    pub open spec fn msg(&self) -> Seq<char> {
        match self {
            AppError::Api(m) => m@,
            AppError::Agent(m) => m@,
            AppError::Timeout(m) => m@,
            AppError::Config(m) => m@,
            AppError::Discord(m) => m@,
            AppError::RssParse(m) => m@,
            AppError::Http(m) => m@,
            AppError::Database(m) => m@,
            AppError::Io(m) => m@,
            AppError::Json(m) => m@,
            AppError::Yaml(m) => m@,
            AppError::Other(m) => m@,
        }
    }

    /// The text shown for the error.
    pub fn message(&self) -> (r: String)
        ensures
            r@ == self.msg(),
    {
        match self {
            AppError::Api(m) => m.clone(),
            AppError::Agent(m) => m.clone(),
            AppError::Timeout(m) => m.clone(),
            AppError::Config(m) => m.clone(),
            AppError::Discord(m) => m.clone(),
            AppError::RssParse(m) => m.clone(),
            AppError::Http(m) => m.clone(),
            AppError::Database(m) => m.clone(),
            AppError::Io(m) => m.clone(),
            AppError::Json(m) => m.clone(),
            AppError::Yaml(m) => m.clone(),
            AppError::Other(m) => m.clone(),
        }
    }

    /// A copy of the error, of the same kind and message.
    pub fn duplicate(&self) -> (r: AppError)
        ensures
            r == *self,
    {
        match self {
            AppError::Api(m) => AppError::Api(m.clone()),
            AppError::Agent(m) => AppError::Agent(m.clone()),
            AppError::Timeout(m) => AppError::Timeout(m.clone()),
            AppError::Config(m) => AppError::Config(m.clone()),
            AppError::Discord(m) => AppError::Discord(m.clone()),
            AppError::RssParse(m) => AppError::RssParse(m.clone()),
            AppError::Http(m) => AppError::Http(m.clone()),
            AppError::Database(m) => AppError::Database(m.clone()),
            AppError::Io(m) => AppError::Io(m.clone()),
            AppError::Json(m) => AppError::Json(m.clone()),
            AppError::Yaml(m) => AppError::Yaml(m.clone()),
            AppError::Other(m) => AppError::Other(m.clone()),
        }
    }
}

} // verus!
