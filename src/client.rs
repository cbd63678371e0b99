use vstd::prelude::*;
use crate::config::{resolvable, resolve_connection_string, resolve_error, resolved_text, ConnectionConfig, DatabaseType};
use crate::error::{DbError, ErrorKind};

verus! {

/// Lifecycle of a database client.
#[derive(Debug, Clone, Copy, PartialEq, Eq, Structural)]
pub enum ClientState {
    /// Configuration known, no connection attempted
    Unbound,
    /// A pool or session is active
    Connected,
    /// Explicitly closed
    Disconnected,
}

/// What the caller dials: the connection URL, and whether TLS is required.
#[derive(Debug)]
pub struct ConnectPlan {
    pub url: String,
    pub require_tls: bool,
}

/// The decisions of a database client: whether to dial, with what, and
/// whether a pool must be released. The caller owns the pool itself.
pub struct ClientSession {
    config: ConnectionConfig,
    state: ClientState,
}

impl ClientSession {
    pub closed spec fn state(&self) -> ClientState {
        self.state
    }

    pub closed spec fn config(&self) -> ConnectionConfig {
        self.config
    }

    /// The configuration the client connects with.
    pub fn connection_config(&self) -> (r: &ConnectionConfig)
        ensures
            *r == self.config(),
    {
        &self.config
    }

    /// A client for a configuration, not yet connected.
    pub fn new(config: ConnectionConfig) -> (r: Self)
        ensures
            r.state() == ClientState::Unbound,
            r.config() == config,
    {
        ClientSession { config, state: ClientState::Unbound }
    }

    pub fn state_now(&self) -> (r: ClientState)
        ensures
            r == self.state(),
    {
        self.state
    }

    pub fn is_connected(&self) -> (r: bool)
        ensures
            r == (self.state() == ClientState::Connected),
    {
        matches!(self.state, ClientState::Connected)
    }

    /// The first half of `connect`: `None` when already connected (nothing
    /// is dialled); else the URL resolved from the configuration and whether
    /// TLS is required. A backend kind without a client is unsupported; a
    /// configuration that cannot be resolved is an error.
    pub fn connect_plan(&self) -> (r: Result<Option<ConnectPlan>, DbError>)
        ensures
            self.state() == ClientState::Connected ==> r is Ok && r->Ok_0 is None,
            self.state() != ClientState::Connected && self.config().db_type == DatabaseType::MySql ==> r is Err
                && r->Err_0@ == (ErrorKind::Unsupported, unsupported_message()),
            self.state() != ClientState::Connected && self.config().db_type == DatabaseType::Postgres ==> {
                &&& (r is Ok) == resolvable(self.config())
                &&& r is Ok ==> r->Ok_0 is Some && r->Ok_0->Some_0.url@ == resolved_text(self.config())
                    && r->Ok_0->Some_0.require_tls == self.config().ssl_enabled
                &&& r is Err ==> r->Err_0@ == resolve_error(self.config())
            },
    {
        if self.is_connected() {
            return Ok(None);
        }
        if let DatabaseType::MySql = self.config.db_type {
            return Err(DbError::Unsupported(String::from_str("MySQL support not yet implemented")));
        }
        match resolve_connection_string(&self.config) {
            Ok(url) => Ok(Some(ConnectPlan { url, require_tls: self.config.ssl_enabled })),
            Err(e) => Err(e),
        }
    }

    /// The second half of `connect`: the pool the plan asked for is up.
    pub fn mark_connected(&mut self)
        ensures
            final(self).state() == ClientState::Connected,
            final(self).config() == old(self).config(),
    {
        self.state = ClientState::Connected;
    }

    /// `disconnect`, which may be called in any state: tells whether a pool
    /// is to be released, and leaves the client disconnected.
    pub fn disconnect(&mut self) -> (release: bool)
        ensures
            release == (old(self).state() == ClientState::Connected),
            final(self).state() == ClientState::Disconnected,
            final(self).config() == old(self).config(),
    {
        let release = self.is_connected();
        self.state = ClientState::Disconnected;
        release
    }
}

pub open spec fn unsupported_message() -> Seq<char> {
    "MySQL support not yet implemented"@
}

/// A transaction handle's state: open until committed or rolled back.
pub struct TransactionState {
    finalized: bool,
}

pub open spec fn finalized_message() -> Seq<char> {
    "Transaction already committed or rolled back"@
}

impl TransactionState {
    pub closed spec fn is_finalized(&self) -> bool {
        self.finalized
    }

    /// A transaction just begun.
    pub fn begin() -> (r: Self)
        ensures
            !r.is_finalized(),
    {
        TransactionState { finalized: false }
    }

    /// Permission to run a statement inside the transaction.
    pub fn check_open(&self) -> (r: Result<(), DbError>)
        ensures
            !self.is_finalized() ==> r is Ok,
            self.is_finalized() ==> r is Err && r->Err_0@ == (ErrorKind::Transaction, finalized_message()),
    {
        if self.finalized {
            Err(DbError::Transaction(String::from_str("Transaction already committed or rolled back")))
        } else {
            Ok(())
        }
    }

    /// Commit or rollback: succeeds once, and finalizes the transaction; any
    /// later call fails.
    pub fn finalize(&mut self) -> (r: Result<(), DbError>)
        ensures
            final(self).is_finalized(),
            !old(self).is_finalized() ==> r is Ok,
            old(self).is_finalized() ==> r is Err && r->Err_0@ == (ErrorKind::Transaction, finalized_message()),
    {
        let r = self.check_open();
        self.finalized = true;
        r
    }
}

} // verus!
