use vstd::prelude::*;
use crate::text::{concat, push_text, string_of};

verus! {

/// The kind of a database error, without its message.
#[derive(Clone, Copy, PartialEq, Eq, Structural, Debug)]
pub enum ErrorKind {
    Connection,
    Query,
    Parse,
    Config,
    NotFound,
    Auth,
    Unsupported,
    Transaction,
    Parsing,
    Other,
}

/// Database error types. Each carries the diagnostic text as its message.
#[derive(Debug)]
pub enum DbError {
    /// Error connecting to the database
    Connection(String),
    /// Error executing a query
    Query(String),
    /// Error parsing or preparing a query
    Parse(String),
    /// Error with the configuration
    Config(String),
    /// Resource not found
    NotFound(String),
    /// Authentication error
    Auth(String),
    /// Operation not supported for this database type
    Unsupported(String),
    /// Transaction error
    Transaction(String),
    /// SQL parsing error
    Parsing(String),
    /// Other error
    Other(String),
}

impl View for DbError {
    type V = (ErrorKind, Seq<char>);

    open spec fn view(&self) -> (ErrorKind, Seq<char>) {
        match self {
            DbError::Connection(m) => (ErrorKind::Connection, m@),
            DbError::Query(m) => (ErrorKind::Query, m@),
            DbError::Parse(m) => (ErrorKind::Parse, m@),
            DbError::Config(m) => (ErrorKind::Config, m@),
            DbError::NotFound(m) => (ErrorKind::NotFound, m@),
            DbError::Auth(m) => (ErrorKind::Auth, m@),
            DbError::Unsupported(m) => (ErrorKind::Unsupported, m@),
            DbError::Transaction(m) => (ErrorKind::Transaction, m@),
            DbError::Parsing(m) => (ErrorKind::Parsing, m@),
            DbError::Other(m) => (ErrorKind::Other, m@),
        }
    }
}

/// The prefix of the displayed message for each kind of error.
pub open spec fn display_prefix(k: ErrorKind) -> Seq<char> {
    match k {
        ErrorKind::Connection => "Database connection error: "@,
        ErrorKind::Query => "Database query error: "@,
        ErrorKind::Parse => "SQL parse error: "@,
        ErrorKind::Config => "Database configuration error: "@,
        ErrorKind::NotFound => "Not found: "@,
        ErrorKind::Auth => "Authentication error: "@,
        ErrorKind::Unsupported => "Operation not supported: "@,
        ErrorKind::Transaction => "Transaction error: "@,
        ErrorKind::Parsing => "SQL parsing error: "@,
        ErrorKind::Other => "Database error: "@,
    }
}

impl DbError {
    /// The message shown to a user: a prefix naming the kind, then the
    /// diagnostic text.
    pub fn to_display_string(&self) -> (r: String)
        ensures
            r@ == display_prefix(self@.0) + self@.1,
    {
        match self {
            DbError::Connection(m) => concat("Database connection error: ", m.as_str()),
            DbError::Query(m) => concat("Database query error: ", m.as_str()),
            DbError::Parse(m) => concat("SQL parse error: ", m.as_str()),
            DbError::Config(m) => concat("Database configuration error: ", m.as_str()),
            DbError::NotFound(m) => concat("Not found: ", m.as_str()),
            DbError::Auth(m) => concat("Authentication error: ", m.as_str()),
            DbError::Unsupported(m) => concat("Operation not supported: ", m.as_str()),
            DbError::Transaction(m) => concat("Transaction error: ", m.as_str()),
            DbError::Parsing(m) => concat("SQL parsing error: ", m.as_str()),
            DbError::Other(m) => concat("Database error: ", m.as_str()),
        }
    }
}

/// A failure that the database driver reported, as plain values.
#[derive(Debug)]
pub enum DriverFailure {
    /// The backend rejected a statement; its message
    Database(String),
    RowNotFound,
    PoolTimedOut,
    PoolClosed,
    WorkerCrashed,
    /// Any other failure; its message
    Other(String),
}

impl DbError {
    /// The error for a driver failure: a rejected statement is a query
    /// error, a missing row is not-found, pool timeouts, closed pools and
    /// crashed workers are connection errors, and the rest keep their text.
    pub fn from_driver(f: DriverFailure) -> (r: DbError)
        ensures
            r@ == match f {
                DriverFailure::Database(m) => (ErrorKind::Query, m@),
                DriverFailure::RowNotFound => (ErrorKind::NotFound, "Row not found"@),
                DriverFailure::PoolTimedOut => (ErrorKind::Connection, "Connection pool timeout"@),
                DriverFailure::PoolClosed => (ErrorKind::Connection, "Connection pool closed"@),
                DriverFailure::WorkerCrashed => (ErrorKind::Connection, "Database worker crashed"@),
                DriverFailure::Other(m) => (ErrorKind::Other, m@),
            },
    {
        match f {
            DriverFailure::Database(m) => DbError::Query(m),
            DriverFailure::RowNotFound => DbError::NotFound(String::from_str("Row not found")),
            DriverFailure::PoolTimedOut => DbError::Connection(String::from_str("Connection pool timeout")),
            DriverFailure::PoolClosed => DbError::Connection(String::from_str("Connection pool closed")),
            DriverFailure::WorkerCrashed => DbError::Connection(String::from_str("Database worker crashed")),
            DriverFailure::Other(m) => DbError::Other(m),
        }
    }
}

/// Errors of loading a project's configuration.
#[derive(Debug)]
pub enum ConfigError {
    /// The file could not be read; the system's message
    Io(String),
    /// The file's content is not a valid configuration
    Parse(String),
    Other(String),
}

impl ConfigError {
    /// The message shown to a user.
    pub fn to_display_string(&self) -> (r: String)
        ensures
            r@ == self.to_display_string_spec(),
    {
        match self {
            ConfigError::Io(m) => concat("IO error: ", m.as_str()),
            ConfigError::Parse(m) => concat("Parse error: ", m.as_str()),
            ConfigError::Other(m) => concat("Other error: ", m.as_str()),
        }
    }
}

/// Errors reported to the surrounding application.
#[derive(Debug)]
pub enum AppError {
    /// An I/O failure; the system's message
    Io(String),
    Db(DbError),
    Config(ConfigError),
    Other(String),
}

impl AppError {
    /// The message shown to a user: that of the wrapped error, or
    /// ``Other: `<text>` ``.
    pub fn to_display_string(&self) -> (r: String)
        ensures
            match self {
                AppError::Io(m) => r@ == m@,
                AppError::Db(e) => r@ == display_prefix(e@.0) + e@.1,
                AppError::Config(e) => r@ == e.to_display_string_spec(),
                AppError::Other(m) => r@ == "Other: `"@ + m@ + "`"@,
            },
    {
        match self {
            AppError::Io(m) => {
                let mut out: Vec<char> = Vec::new();
                push_text(&mut out, m.as_str());
                string_of(out.as_slice())
            },
            AppError::Db(e) => e.to_display_string(),
            AppError::Config(e) => e.to_display_string(),
            AppError::Other(m) => {
                let mut out: Vec<char> = Vec::new();
                push_text(&mut out, "Other: `");
                push_text(&mut out, m.as_str());
                push_text(&mut out, "`");
                string_of(out.as_slice())
            },
        }
    }
}

impl ConfigError {
    pub open spec fn to_display_string_spec(&self) -> Seq<char> {
        match self {
            ConfigError::Io(m) => "IO error: "@ + m@,
            ConfigError::Parse(m) => "Parse error: "@ + m@,
            ConfigError::Other(m) => "Other error: "@ + m@,
        }
    }
}

/// Result type for database operations
pub type DbResult<T> = Result<T, DbError>;

} // verus!
