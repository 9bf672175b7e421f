//! The library's error types.  Each carries plain values; the embedding
//! process renders and logs them.

use vstd::prelude::*;

verus! {

/// Failures of the startup configuration: the environment file, a
/// missing variable, or an unparseable value.
#[derive(Debug, PartialEq, Eq)]
pub enum ConfigError {
    EnvFileReadError(String),
    EnvVarError(String),
    EnvVarParseError(String),
}

/// Failures of the startup sequence as a whole.
#[derive(Debug, PartialEq, Eq)]
pub enum InitProcessError {
    LoggerError(String),
    ConfigurationError(String),
    InterfaceSelectionError(String),
    DatabaseConnectionError(String),
    TaskExecutionProcessError(String),
}

/// Failures when choosing the capture interface.
#[derive(Debug, PartialEq, Eq)]
pub enum InterfaceError {
    NoAvailableNetworkInterfaceError,
    DockerInterfaceNotFound(String),
    StdoutFlushError(String),
    ReadLineError(String),
    InvalidInterfaceNumberError(String),
    OutOfRangeInterfaceNumberError,
}

/// Failures of the log sinks.
#[derive(Debug, PartialEq, Eq)]
pub enum LoggerError {
    LogFileCreateError(String),
    LoggerLockError(String),
}

/// Failures of the capture loop.
#[derive(Debug, PartialEq, Eq)]
pub enum MonitorError {
    NetworkError(String),
    UnsupportedChannelType,
}

/// Failures of the replay loop.
#[derive(Debug, PartialEq, Eq)]
pub enum PacketReaderError {
    NetworkError(String),
    UnsupportedChannelType,
    DatabaseError(String),
    SendError(String),
    ConfigurationError(String),
}

/// Failures of the writer's flush.
#[derive(Debug, PartialEq, Eq)]
pub enum WriterError {
    PacketBufferFlushError(String),
    ConfigurationError(String),
}

/// Failures of the storage adapter.
#[derive(Debug, PartialEq, Eq)]
pub enum DatabaseError {
    ConnectionManagerError(String),
    CreatePoolError(String),
    InitFailedConnectDatabase(String),
    InitializationError,
    PoolNotInitialized,
    ConnectionError(String),
    QueryExecutionError(String),
    QueryPreparationError(String),
    PoolRetrievalError(String),
    TransactionError(String),
}

/// Failures of the node bookkeeping and firewall loading services.
#[derive(Debug, PartialEq, Eq)]
pub enum ServiceError {
    DatabaseError(DatabaseError),
    NodeNotFound(i16),
    FirewallLoadError(String),
    FirewallRuleParseError(String),
    /// The stored firewall settings mix whitelist and blacklist rows.
    InconsistentPolicyError(String),
}

/// Failures of the supervised tasks.
#[derive(Debug, PartialEq, Eq)]
pub enum TaskError {
    TaskExecutionError(String),
    ExecutionError(String),
    StateUpdateError(String),
    TimeoutError(String),
    PanicError(String),
}

} // verus!
