//! Errors of the domain and of the download pipeline.
use vstd::prelude::*;

use crate::job::DownloadId;

verus! {

/// Stable machine-readable reason of a failed download.
#[derive(Debug, Clone, Copy, PartialEq, Eq, Structural)]
pub enum DownloadErrorCode {
    YtdlpNotFound,
    YtdlpStartFailed,
    YtdlpUpdateRequired,
    NetworkUnavailable,
    VideoUnavailable,
    AuthenticationRequired,
    RateLimited,
    FormatNotAvailable,
    FfmpegNotFound,
    FfmpegFailed,
    OutputPermissionDenied,
    OutputFileNotFound,
    SourceUrlInvalid,
    HistorySaveFailed,
    DiskFull,
    DownloadCanceled,
    DownloadProcessFailed,
}

pub open spec fn error_code_text(code: DownloadErrorCode) -> Seq<char> {
    match code {
        DownloadErrorCode::YtdlpNotFound => "YTDLP_NOT_FOUND"@,
        DownloadErrorCode::YtdlpStartFailed => "YTDLP_START_FAILED"@,
        DownloadErrorCode::YtdlpUpdateRequired => "YTDLP_UPDATE_REQUIRED"@,
        DownloadErrorCode::NetworkUnavailable => "NETWORK_UNAVAILABLE"@,
        DownloadErrorCode::VideoUnavailable => "VIDEO_UNAVAILABLE"@,
        DownloadErrorCode::AuthenticationRequired => "AUTHENTICATION_REQUIRED"@,
        DownloadErrorCode::RateLimited => "RATE_LIMITED"@,
        DownloadErrorCode::FormatNotAvailable => "FORMAT_NOT_AVAILABLE"@,
        DownloadErrorCode::FfmpegNotFound => "FFMPEG_NOT_FOUND"@,
        DownloadErrorCode::FfmpegFailed => "FFMPEG_FAILED"@,
        DownloadErrorCode::OutputPermissionDenied => "OUTPUT_PERMISSION_DENIED"@,
        DownloadErrorCode::OutputFileNotFound => "OUTPUT_FILE_NOT_FOUND"@,
        DownloadErrorCode::SourceUrlInvalid => "SOURCE_URL_INVALID"@,
        DownloadErrorCode::HistorySaveFailed => "HISTORY_SAVE_FAILED"@,
        DownloadErrorCode::DiskFull => "DISK_FULL"@,
        DownloadErrorCode::DownloadCanceled => "DOWNLOAD_CANCELED"@,
        DownloadErrorCode::DownloadProcessFailed => "DOWNLOAD_PROCESS_FAILED"@,
    }
}

/// Transient failures that are worth retrying.
pub open spec fn error_code_retryable(code: DownloadErrorCode) -> bool {
    match code {
        DownloadErrorCode::NetworkUnavailable
        | DownloadErrorCode::RateLimited
        | DownloadErrorCode::HistorySaveFailed
        | DownloadErrorCode::DownloadProcessFailed => true,
        _ => false,
    }
}

impl DownloadErrorCode {
    /// The machine code, in SCREAMING_SNAKE_CASE.
    pub fn as_str(self) -> (r: &'static str)
        ensures
            r@ == error_code_text(self),
    {
        match self {
            DownloadErrorCode::YtdlpNotFound => "YTDLP_NOT_FOUND",
            DownloadErrorCode::YtdlpStartFailed => "YTDLP_START_FAILED",
            DownloadErrorCode::YtdlpUpdateRequired => "YTDLP_UPDATE_REQUIRED",
            DownloadErrorCode::NetworkUnavailable => "NETWORK_UNAVAILABLE",
            DownloadErrorCode::VideoUnavailable => "VIDEO_UNAVAILABLE",
            DownloadErrorCode::AuthenticationRequired => "AUTHENTICATION_REQUIRED",
            DownloadErrorCode::RateLimited => "RATE_LIMITED",
            DownloadErrorCode::FormatNotAvailable => "FORMAT_NOT_AVAILABLE",
            DownloadErrorCode::FfmpegNotFound => "FFMPEG_NOT_FOUND",
            DownloadErrorCode::FfmpegFailed => "FFMPEG_FAILED",
            DownloadErrorCode::OutputPermissionDenied => "OUTPUT_PERMISSION_DENIED",
            DownloadErrorCode::OutputFileNotFound => "OUTPUT_FILE_NOT_FOUND",
            DownloadErrorCode::SourceUrlInvalid => "SOURCE_URL_INVALID",
            DownloadErrorCode::HistorySaveFailed => "HISTORY_SAVE_FAILED",
            DownloadErrorCode::DiskFull => "DISK_FULL",
            DownloadErrorCode::DownloadCanceled => "DOWNLOAD_CANCELED",
            DownloadErrorCode::DownloadProcessFailed => "DOWNLOAD_PROCESS_FAILED",
        }
    }

    pub fn is_retryable(self) -> (r: bool)
        ensures
            r == error_code_retryable(self),
    {
        match self {
            DownloadErrorCode::NetworkUnavailable
            | DownloadErrorCode::RateLimited
            | DownloadErrorCode::HistorySaveFailed
            | DownloadErrorCode::DownloadProcessFailed => true,
            _ => false,
        }
    }
}

/// Structured description of a failed download.
#[derive(Debug, Clone)]
pub struct DownloadErrorDetails {
    pub code: DownloadErrorCode,
    pub message: String,
    pub retryable: bool,
    pub stderr_tail: Option<String>,
}

impl DownloadErrorDetails {
    /// Details for a code: its machine text as message, its retry policy, no stderr.
    pub fn from_code(code: DownloadErrorCode) -> (d: Self)
        ensures
            d.code == code,
            d.message@ == error_code_text(code),
            d.retryable == error_code_retryable(code),
            d.stderr_tail is None,
    {
        DownloadErrorDetails {
            code,
            message: String::from_str(code.as_str()),
            retryable: code.is_retryable(),
            stderr_tail: None,
        }
    }

    /// Details for a code with the given message.
    pub fn with_message(code: DownloadErrorCode, message: String) -> (d: Self)
        ensures
            d.code == code,
            d.message == message,
            d.retryable == error_code_retryable(code),
            d.stderr_tail is None,
    {
        DownloadErrorDetails { code, message, retryable: code.is_retryable(), stderr_tail: None }
    }

    /// A field-by-field copy.
    pub fn duplicate(&self) -> (d: Self)
        ensures
            d == *self,
    {
        DownloadErrorDetails {
            code: self.code,
            message: self.message.clone(),
            retryable: self.retryable,
            stderr_tail: match &self.stderr_tail {
                Some(t) => Some(t.clone()),
                None => None,
            },
        }
    }
}

/// Errors of the domain, the services and the adapters.
#[derive(Debug, Clone)]
pub enum CoreError {
    InvalidUrl(String),
    PlaylistNotSupported(String),
    InvalidSettings(String),
    ValidationError(String),
    InvalidState(String),
    JobNotFound(DownloadId),
    OperationCancelled,
    DownloadFailed(DownloadErrorDetails),
    StorageError(String),
    ConverterError(String),
    ProviderError(String),
}

pub open spec fn core_error_code_text(e: CoreError) -> Seq<char> {
    match e {
        CoreError::InvalidUrl(_) => "INVALID_URL"@,
        CoreError::PlaylistNotSupported(_) => "PLAYLIST_NOT_SUPPORTED"@,
        CoreError::InvalidSettings(_) => "INVALID_SETTINGS"@,
        CoreError::ValidationError(_) => "VALIDATION_ERROR"@,
        CoreError::InvalidState(_) => "INVALID_STATE"@,
        CoreError::JobNotFound(_) => "JOB_NOT_FOUND"@,
        CoreError::OperationCancelled => "DOWNLOAD_CANCELED"@,
        CoreError::DownloadFailed(d) => error_code_text(d.code),
        CoreError::StorageError(_) => "STORAGE_ERROR"@,
        CoreError::ConverterError(_) => "FFMPEG_FAILED"@,
        CoreError::ProviderError(_) => "DOWNLOAD_PROCESS_FAILED"@,
    }
}

impl CoreError {
    /// Machine-readable code of the error; a failed download reports its own code.
    pub fn machine_code(&self) -> (r: &'static str)
        ensures
            r@ == core_error_code_text(*self),
    {
        match self {
            CoreError::InvalidUrl(_) => "INVALID_URL",
            CoreError::PlaylistNotSupported(_) => "PLAYLIST_NOT_SUPPORTED",
            CoreError::InvalidSettings(_) => "INVALID_SETTINGS",
            CoreError::ValidationError(_) => "VALIDATION_ERROR",
            CoreError::InvalidState(_) => "INVALID_STATE",
            CoreError::JobNotFound(_) => "JOB_NOT_FOUND",
            CoreError::OperationCancelled => "DOWNLOAD_CANCELED",
            CoreError::DownloadFailed(d) => d.code.as_str(),
            CoreError::StorageError(_) => "STORAGE_ERROR",
            CoreError::ConverterError(_) => "FFMPEG_FAILED",
            CoreError::ProviderError(_) => "DOWNLOAD_PROCESS_FAILED",
        }
    }

    /// The structured details that a failed job records for this error.
    pub fn to_download_error_details(&self) -> (d: DownloadErrorDetails)
        ensures
            is_download_details_of(*self, d),
    {
        match self {
            CoreError::DownloadFailed(d) => d.duplicate(),
            CoreError::OperationCancelled => DownloadErrorDetails::from_code(
                DownloadErrorCode::DownloadCanceled,
            ),
            CoreError::InvalidUrl(m) => DownloadErrorDetails::with_message(
                DownloadErrorCode::SourceUrlInvalid,
                m.clone(),
            ),
            CoreError::PlaylistNotSupported(m) => DownloadErrorDetails::with_message(
                DownloadErrorCode::SourceUrlInvalid,
                m.clone(),
            ),
            CoreError::ConverterError(m) => DownloadErrorDetails::with_message(
                DownloadErrorCode::FfmpegFailed,
                m.clone(),
            ),
            CoreError::JobNotFound(_) => DownloadErrorDetails::from_code(
                DownloadErrorCode::DownloadProcessFailed,
            ),
            CoreError::InvalidSettings(m) | CoreError::ValidationError(m) | CoreError::InvalidState(
                m,
            ) | CoreError::StorageError(m) | CoreError::ProviderError(m) => {
                DownloadErrorDetails::with_message(DownloadErrorCode::DownloadProcessFailed, m.clone())
            },
        }
    }
}

pub open spec fn details(code: DownloadErrorCode, message: String) -> DownloadErrorDetails {
    DownloadErrorDetails {
        code,
        message,
        retryable: error_code_retryable(code),
        stderr_tail: None,
    }
}

/// The details recorded for an error: a failed download keeps its own, a
/// cancellation is `DOWNLOAD_CANCELED`, URL errors are `SOURCE_URL_INVALID`,
/// converter errors `FFMPEG_FAILED`, everything else `DOWNLOAD_PROCESS_FAILED`
/// with the error's text as message.
pub open spec fn is_download_details_of(e: CoreError, d: DownloadErrorDetails) -> bool {
    match e {
        CoreError::DownloadFailed(x) => d == x,
        CoreError::OperationCancelled => {
            &&& d.code == DownloadErrorCode::DownloadCanceled
            &&& d.message@ == error_code_text(DownloadErrorCode::DownloadCanceled)
            &&& !d.retryable
            &&& d.stderr_tail is None
        },
        CoreError::JobNotFound(_) => {
            &&& d.code == DownloadErrorCode::DownloadProcessFailed
            &&& d.message@ == error_code_text(DownloadErrorCode::DownloadProcessFailed)
            &&& d.retryable
            &&& d.stderr_tail is None
        },
        CoreError::InvalidUrl(m) => d == details(DownloadErrorCode::SourceUrlInvalid, m),
        CoreError::PlaylistNotSupported(m) => d == details(DownloadErrorCode::SourceUrlInvalid, m),
        CoreError::ConverterError(m) => d == details(DownloadErrorCode::FfmpegFailed, m),
        CoreError::InvalidSettings(m) => d == details(DownloadErrorCode::DownloadProcessFailed, m),
        CoreError::ValidationError(m) => d == details(DownloadErrorCode::DownloadProcessFailed, m),
        CoreError::InvalidState(m) => d == details(DownloadErrorCode::DownloadProcessFailed, m),
        CoreError::StorageError(m) => d == details(DownloadErrorCode::DownloadProcessFailed, m),
        CoreError::ProviderError(m) => d == details(DownloadErrorCode::DownloadProcessFailed, m),
    }
}

/// Structured error payload returned to the user interface.
#[derive(Debug, Clone)]
pub struct IpcError {
    pub code: String,
    pub message: String,
    pub retryable: bool,
    pub details: Option<DownloadErrorDetails>,
}

impl IpcError {
    /// A non-retryable error with a code and a message, without details.
    pub fn new(code: String, message: String) -> (e: Self)
        ensures
            e.code == code,
            e.message == message,
            !e.retryable,
            e.details is None,
    {
        IpcError { code, message, retryable: false, details: None }
    }

    /// The payload for a core error: its details' code, message and retry policy.
    pub fn from_core(err: &CoreError) -> (e: Self)
        ensures
            e.details matches Some(d) && is_download_details_of(*err, d) && e.code@
                == error_code_text(d.code) && e.message == d.message && e.retryable == d.retryable,
    {
        let details = err.to_download_error_details();
        IpcError {
            code: String::from_str(details.code.as_str()),
            message: details.message.clone(),
            retryable: details.retryable,
            details: Some(details),
        }
    }
}

} // verus!
