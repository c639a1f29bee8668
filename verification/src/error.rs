//! Errors that may reach the process entry point, and the exit statuses for them.
use crate::application::hosts::HostError;
use crate::ipc::ErrorCode;
use crate::text;
use vstd::prelude::*;
use vstd::string::*;

verus! {

#[derive(Debug)]
pub enum AppError {
    Unavailable { feature: &'static str },
    Configuration(String),
    Ipc(String),
    Host(HostError),
    Connection(String),
    /// The daemon refused a request.
    Daemon { code: ErrorCode, message: String },
    /// As `Daemon`, for a user who asked for JSON.
    JsonDaemon { code: ErrorCode, message: String },
}

impl AppError {
    pub open spec fn shown(self) -> Seq<char> {
        match self {
            AppError::Unavailable { feature } => feature@ + " is not implemented yet"@,
            AppError::Configuration(cause) => "configuration error: "@ + cause@,
            AppError::Ipc(cause) => "IPC error: "@ + cause@,
            AppError::Host(error) => "SSH host operation failed: "@ + error.shown(),
            AppError::Connection(cause) => "SSH connection test failed: "@ + cause@,
            AppError::Daemon { message, .. } => message@,
            AppError::JsonDaemon { message, .. } => message@,
        }
    }

    pub fn to_string(&self) -> (r: String)
        ensures
            r@ == self.shown(),
    {
        match self {
            AppError::Unavailable { feature } => text::joined(feature, " is not implemented yet"),
            AppError::Configuration(cause) => text::joined("configuration error: ", cause.as_str()),
            AppError::Ipc(cause) => text::joined("IPC error: ", cause.as_str()),
            AppError::Host(error) => text::joined(
                "SSH host operation failed: ",
                error.to_string().as_str(),
            ),
            AppError::Connection(cause) => text::joined(
                "SSH connection test failed: ",
                cause.as_str(),
            ),
            AppError::Daemon { message, .. } => message.clone(),
            AppError::JsonDaemon { message, .. } => message.clone(),
        }
    }
}

/// Stable process exit statuses used by scripts.
#[derive(Clone, Copy, Debug, PartialEq, Eq, Structural)]
pub enum ExitStatus {
    Success,
    Usage,
    Unavailable,
    NotFound,
    Conflict,
    ServiceUnavailable,
    Software,
}

/// The exit status for an error code of the daemon.
pub open spec fn daemon_status(code: ErrorCode) -> ExitStatus {
    match code {
        ErrorCode::InvalidRequest => ExitStatus::Usage,
        ErrorCode::MessageTooLarge => ExitStatus::Usage,
        ErrorCode::UnsupportedVersion => ExitStatus::Usage,
        ErrorCode::NotFound => ExitStatus::NotFound,
        ErrorCode::Conflict => ExitStatus::Conflict,
        ErrorCode::Unavailable => ExitStatus::ServiceUnavailable,
        ErrorCode::Internal => ExitStatus::Software,
    }
}

pub open spec fn status_of(error: AppError) -> ExitStatus {
    match error {
        AppError::Unavailable { .. } => ExitStatus::Unavailable,
        AppError::Host(HostError::InvalidAlias(_)) => ExitStatus::Usage,
        AppError::Daemon { code, .. } => daemon_status(code),
        AppError::JsonDaemon { code, .. } => daemon_status(code),
        _ => ExitStatus::Software,
    }
}

fn from_code(code: ErrorCode) -> (r: ExitStatus)
    ensures
        r == daemon_status(code),
{
    match code {
        ErrorCode::InvalidRequest => ExitStatus::Usage,
        ErrorCode::MessageTooLarge => ExitStatus::Usage,
        ErrorCode::UnsupportedVersion => ExitStatus::Usage,
        ErrorCode::NotFound => ExitStatus::NotFound,
        ErrorCode::Conflict => ExitStatus::Conflict,
        ErrorCode::Unavailable => ExitStatus::ServiceUnavailable,
        ErrorCode::Internal => ExitStatus::Software,
    }
}

impl ExitStatus {
    pub fn from(error: &AppError) -> (r: Self)
        ensures
            r == status_of(*error),
    {
        match error {
            AppError::Unavailable { .. } => ExitStatus::Unavailable,
            AppError::Host(HostError::InvalidAlias(_)) => ExitStatus::Usage,
            AppError::Daemon { code, .. } => from_code(*code),
            AppError::JsonDaemon { code, .. } => from_code(*code),
            _ => ExitStatus::Software,
        }
    }

    pub fn code(self) -> (r: u8)
        ensures
            r == (match self {
                ExitStatus::Success => 0u8,
                ExitStatus::Usage => 2u8,
                ExitStatus::Unavailable => 3u8,
                ExitStatus::NotFound => 4u8,
                ExitStatus::Conflict => 5u8,
                ExitStatus::ServiceUnavailable => 6u8,
                ExitStatus::Software => 70u8,
            }),
    {
        match self {
            ExitStatus::Success => 0,
            ExitStatus::Usage => 2,
            ExitStatus::Unavailable => 3,
            ExitStatus::NotFound => 4,
            ExitStatus::Conflict => 5,
            ExitStatus::ServiceUnavailable => 6,
            ExitStatus::Software => 70,
        }
    }
}

/// Scripts can tell failures apart: what the user got wrong, what does not exist, what is in the
/// way, what is not available, and everything else. It does not matter whether JSON was asked for.
pub proof fn statuses_tell_failures_apart(code: ErrorCode, message: String, error: AppError)
    ensures
        status_of(AppError::Daemon { code, message }) == status_of(
            AppError::JsonDaemon { code, message },
        ),
        status_of(AppError::Daemon { code, message }) == daemon_status(code),
        daemon_status(code) == ExitStatus::Usage <==> code == ErrorCode::InvalidRequest || code
            == ErrorCode::MessageTooLarge || code == ErrorCode::UnsupportedVersion,
        daemon_status(code) == ExitStatus::NotFound <==> code == ErrorCode::NotFound,
        daemon_status(code) == ExitStatus::Conflict <==> code == ErrorCode::Conflict,
        daemon_status(code) == ExitStatus::ServiceUnavailable <==> code == ErrorCode::Unavailable,
        daemon_status(code) == ExitStatus::Software <==> code == ErrorCode::Internal,
        status_of(error) != ExitStatus::Success,
        status_of(error) == ExitStatus::Unavailable <==> error is Unavailable,
        error is Configuration || error is Ipc || error is Connection ==> status_of(error)
            == ExitStatus::Software,
        error matches AppError::Host(cause) ==> status_of(error) == (if cause is InvalidAlias {
            ExitStatus::Usage
        } else {
            ExitStatus::Software
        }),
{
}

/// An error says what failed and why. What the daemon said is passed on word by word.
pub proof fn errors_say_what_failed(error: AppError)
    ensures
        match error {
            AppError::Unavailable { feature } => error.shown() == feature@
                + " is not implemented yet"@,
            AppError::Configuration(cause) => error.shown() == "configuration error: "@ + cause@,
            AppError::Ipc(cause) => error.shown() == "IPC error: "@ + cause@,
            AppError::Host(cause) => error.shown() == "SSH host operation failed: "@
                + cause.shown(),
            AppError::Connection(cause) => error.shown() == "SSH connection test failed: "@
                + cause@,
            AppError::Daemon { code, message } => error.shown() == message@,
            AppError::JsonDaemon { code, message } => error.shown() == message@,
        },
{
}

} // verus!
