//! The error type of every Telescope command.

use vstd::prelude::*;

verus! {

/// The category of an I/O failure, after `std::io::ErrorKind`: one variant
/// for each kind that stable Rust names. A kind that a later Rust adds is
/// `Other`.
#[derive(Clone, Copy, Debug, PartialEq, Eq, Structural)]
pub enum ErrorKind {
    NotFound,
    PermissionDenied,
    ConnectionRefused,
    ConnectionReset,
    ConnectionAborted,
    NotConnected,
    AddrInUse,
    AddrNotAvailable,
    BrokenPipe,
    AlreadyExists,
    WouldBlock,
    InvalidInput,
    InvalidData,
    TimedOut,
    WriteZero,
    Interrupted,
    Unsupported,
    UnexpectedEof,
    OutOfMemory,
    HostUnreachable,
    NetworkUnreachable,
    NetworkDown,
    NotADirectory,
    IsADirectory,
    DirectoryNotEmpty,
    ReadOnlyFilesystem,
    StaleNetworkFileHandle,
    StorageFull,
    NotSeekable,
    QuotaExceeded,
    FileTooLarge,
    ResourceBusy,
    ExecutableFileBusy,
    Deadlock,
    CrossesDevices,
    TooManyLinks,
    InvalidFilename,
    ArgumentListTooLong,
    Other,
}

/// An I/O failure: its kind and the text that it displays as.
#[derive(Debug)]
pub struct IoError {
    pub kind: ErrorKind,
    pub message: String,
}

/// Library-wide error type for Telescope commands.
#[derive(Debug)]
pub enum AppError {
    Io(IoError),
    /// Configuration or environment issue that prevents command execution.
    ConfigError(String),
    /// A request to the model service failed or its answer was unusable.
    NetworkError(String),
}

/// The view of an [`AppError`]: its variant with the views of its fields.
pub enum ErrorView {
    Io(ErrorKind, Seq<char>),
    Config(Seq<char>),
    Network(Seq<char>),
}

impl View for AppError {
    type V = ErrorView;

    open spec fn view(&self) -> ErrorView {
        match self {
            AppError::Io(err) => ErrorView::Io(err.kind, err.message@),
            AppError::ConfigError(message) => ErrorView::Config(message@),
            AppError::NetworkError(message) => ErrorView::Network(message@),
        }
    }
}

/// A result with its error taken by its view.
pub open spec fn err_view<T>(r: Result<T, AppError>) -> Result<T, ErrorView> {
    match r {
        Ok(v) => Ok(v),
        Err(e) => Err(e@),
    }
}

impl AppError {
    /// The kind that `kind` reports: that of the I/O failure, `InvalidInput`
    /// for a configuration error, `Other` for a network error.
    pub open spec fn kind_spec(&self) -> ErrorKind {
        match self {
            AppError::Io(err) => err.kind,
            AppError::ConfigError(_) => ErrorKind::InvalidInput,
            AppError::NetworkError(_) => ErrorKind::Other,
        }
    }

    /// The text that the error displays as.
    pub open spec fn message_spec(&self) -> Seq<char> {
        match self {
            AppError::Io(err) => err.message@,
            AppError::ConfigError(message) => message@,
            AppError::NetworkError(message) => message@,
        }
    }

    /// Provide an `io::ErrorKind`-like view for callers expecting legacy behavior.
    pub fn kind(&self) -> (k: ErrorKind)
        ensures
            k == self.kind_spec(),
    {
        match self {
            AppError::Io(err) => err.kind,
            AppError::ConfigError(_) => ErrorKind::InvalidInput,
            AppError::NetworkError(_) => ErrorKind::Other,
        }
    }

    /// The text that the error displays as.
    pub fn message(&self) -> (m: String)
        ensures
            m@ == self.message_spec(),
    {
        match self {
            AppError::Io(err) => err.message.clone(),
            AppError::ConfigError(message) => message.clone(),
            AppError::NetworkError(message) => message.clone(),
        }
    }
}

} // verus!
