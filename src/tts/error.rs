//! Errors of the speech-synthesis client.
use vstd::prelude::*;

verus! {

/// Everything that can go wrong while synthesising speech.
#[derive(Debug, Clone, PartialEq, Eq)]
pub enum TTSError {
    /// The transport failed (connection refused, reset, unreachable).
    NetworkError(String),
    /// The service answered with a non-2xx status.
    ServerError { status_code: u16, message: String },
    /// The decoded payload holds no usable audio.
    AudioFormatError(String),
    /// The configuration is unusable.
    ConfigError(String),
    /// The cache failed; callers log it and go on.
    CacheError(String),
    /// A call did not finish within its deadline.
    TimeoutError,
    /// A response envelope was malformed.
    ParseError(String),
    /// A value could not be encoded for the wire.
    EncodingError(String),
    /// The remote application reported a failure of its own.
    GradioError(String),
    /// Anything else.
    Unknown(String),
}

/// How serious an error is.
#[derive(Debug, Clone, Copy, PartialEq, Eq)]
pub enum ErrorSeverity {
    Low,
    Medium,
    High,
    Critical,
}

/// The severity that `TTSError::severity` gives each error.
pub open spec fn severity_of(e: TTSError) -> ErrorSeverity {
    match e {
        TTSError::NetworkError(_) | TTSError::TimeoutError => ErrorSeverity::Medium,
        TTSError::ServerError { status_code, .. } => if status_code >= 500 {
            ErrorSeverity::High
        } else {
            ErrorSeverity::Medium
        },
        TTSError::AudioFormatError(_) | TTSError::ConfigError(_) => ErrorSeverity::High,
        TTSError::CacheError(_) => ErrorSeverity::Low,
        TTSError::ParseError(_) | TTSError::EncodingError(_) => ErrorSeverity::Medium,
        TTSError::GradioError(_) => ErrorSeverity::High,
        TTSError::Unknown(_) => ErrorSeverity::Medium,
    }
}

/// Whether retrying the failed call may succeed: transport failures,
/// timeouts and 5xx answers.
pub open spec fn retryable(e: TTSError) -> bool {
    match e {
        TTSError::NetworkError(_) | TTSError::TimeoutError => true,
        TTSError::ServerError { status_code, .. } => status_code >= 500,
        _ => false,
    }
}

impl TTSError {
    /// A `ServerError` with the given status and body text.
    pub fn server_error(status_code: u16, message: String) -> (r: Self)
        ensures
            r == (TTSError::ServerError { status_code, message }),
    {
        TTSError::ServerError { status_code, message }
    }

    /// An `AudioFormatError` with the given message.
    pub fn audio_format(msg: String) -> (r: Self)
        ensures
            r == TTSError::AudioFormatError(msg),
    {
        TTSError::AudioFormatError(msg)
    }

    /// A `ConfigError` with the given message.
    pub fn config(msg: String) -> (r: Self)
        ensures
            r == TTSError::ConfigError(msg),
    {
        TTSError::ConfigError(msg)
    }

    /// A `CacheError` with the given message.
    pub fn cache(msg: String) -> (r: Self)
        ensures
            r == TTSError::CacheError(msg),
    {
        TTSError::CacheError(msg)
    }

    /// A `ParseError` with the given message.
    pub fn parse(msg: String) -> (r: Self)
        ensures
            r == TTSError::ParseError(msg),
    {
        TTSError::ParseError(msg)
    }

    /// An `EncodingError` with the given message.
    pub fn encoding(msg: String) -> (r: Self)
        ensures
            r == TTSError::EncodingError(msg),
    {
        TTSError::EncodingError(msg)
    }

    /// A `GradioError` with the given message.
    pub fn gradio(msg: String) -> (r: Self)
        ensures
            r == TTSError::GradioError(msg),
    {
        TTSError::GradioError(msg)
    }

    /// An `Unknown` error with the given message.
    pub fn unknown(msg: String) -> (r: Self)
        ensures
            r == TTSError::Unknown(msg),
    {
        TTSError::Unknown(msg)
    }

    /// Whether the error comes from the transport: a network failure or a timeout.
    pub fn is_network_error(&self) -> (r: bool)
        ensures
            r == (self is NetworkError || self is TimeoutError),
    {
        match self {
            TTSError::NetworkError(_) | TTSError::TimeoutError => true,
            _ => false,
        }
    }

    /// Whether the service answered with an error status.
    pub fn is_server_error(&self) -> (r: bool)
        ensures
            r == self is ServerError,
    {
        match self {
            TTSError::ServerError { .. } => true,
            _ => false,
        }
    }

    /// Whether retrying may succeed.
    pub fn is_retryable(&self) -> (r: bool)
        ensures
            r == retryable(*self),
    {
        match self {
            TTSError::NetworkError(_) | TTSError::TimeoutError => true,
            TTSError::ServerError { status_code, .. } => *status_code >= 500,
            _ => false,
        }
    }

    /// How serious the error is.
    pub fn severity(&self) -> (r: ErrorSeverity)
        ensures
            r == severity_of(*self),
    {
        match self {
            TTSError::NetworkError(_) | TTSError::TimeoutError => ErrorSeverity::Medium,
            TTSError::ServerError { status_code, .. } => {
                if *status_code >= 500 {
                    ErrorSeverity::High
                } else {
                    ErrorSeverity::Medium
                }
            },
            TTSError::AudioFormatError(_) | TTSError::ConfigError(_) => ErrorSeverity::High,
            TTSError::CacheError(_) => ErrorSeverity::Low,
            TTSError::ParseError(_) | TTSError::EncodingError(_) => ErrorSeverity::Medium,
            TTSError::GradioError(_) => ErrorSeverity::High,
            TTSError::Unknown(_) => ErrorSeverity::Medium,
        }
    }
}

/// The label of each severity.
pub open spec fn severity_label(s: ErrorSeverity) -> &'static str {
    match s {
        ErrorSeverity::Low => "低",
        ErrorSeverity::Medium => "中",
        ErrorSeverity::High => "高",
        ErrorSeverity::Critical => "严重",
    }
}

impl ErrorSeverity {
    /// The label of this severity.
    pub fn as_str(&self) -> (r: &'static str)
        ensures
            r == severity_label(*self),
    {
        match self {
            ErrorSeverity::Low => "低",
            ErrorSeverity::Medium => "中",
            ErrorSeverity::High => "高",
            ErrorSeverity::Critical => "严重",
        }
    }
}

} // verus!
