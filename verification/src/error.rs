//! Errors of the companion and the codes that the user interface receives.
use vstd::prelude::*;

verus! {

/// `std::io::Error`, carried inside `AppError::Io` and never read.
#[verifier::external_type_specification]
#[verifier::external_body]
pub struct ExIoError(std::io::Error);

/// `rusqlite::Error`, carried inside `AppError::Database` and never read.
#[verifier::external_type_specification]
#[verifier::external_body]
pub struct ExSqliteError(rusqlite::Error);

/// `serde_json::Error`, carried inside `AppError::Json` and never read.
#[verifier::external_type_specification]
#[verifier::external_body]
pub struct ExJsonError(serde_json::Error);

/// Everything that can go wrong in the companion.
#[derive(Debug)]
pub enum AppError {
    Io(std::io::Error),
    Database(rusqlite::Error),
    Json(serde_json::Error),
    InvalidSetting(String),
    ProviderUnavailable(String),
    Window(String),
    Notification(String),
    StatePoisoned,
    Other(String),
}

pub type AppResult<T> = Result<T, AppError>;

/// The stable code that the user interface keys its messages on.
pub open spec fn error_code(error: AppError) -> Seq<char> {
    match error {
        AppError::Io(_) => "local_io_failed"@,
        AppError::Database(_) => "database_failed"@,
        AppError::Json(_) => "local_data_invalid"@,
        AppError::InvalidSetting(_) => "invalid_setting"@,
        AppError::ProviderUnavailable(_) => "quota_unavailable"@,
        AppError::Window(_) => "window_failed"@,
        AppError::Notification(_) => "notification_failed"@,
        AppError::StatePoisoned => "state_unavailable"@,
        AppError::Other(_) => "operation_failed"@,
    }
}

/// The human-readable text of an error. Outside errors are never quoted:
/// their details can hold private paths or data.
pub open spec fn error_message(error: AppError) -> Seq<char> {
    match error {
        AppError::Io(_) => "local I/O operation failed"@,
        AppError::Database(_) => "local database operation failed"@,
        AppError::Json(_) => "local data could not be parsed"@,
        AppError::InvalidSetting(detail) => "invalid setting: "@ + detail@,
        AppError::ProviderUnavailable(detail) => "Codex quota provider is unavailable: "@ + detail@,
        AppError::Window(detail) => "window operation failed: "@ + detail@,
        AppError::Notification(detail) => "notification operation failed: "@ + detail@,
        AppError::StatePoisoned => "application state lock is poisoned"@,
        AppError::Other(detail) => "operation failed: "@ + detail@,
    }
}

fn prefixed(prefix: &str, detail: &String) -> (text: String)
    ensures
        text@ == prefix@ + detail@,
{
    let mut text: String = prefix.to_owned();
    text.append(detail.as_str());
    text
}

impl AppError {
    /// The error's message, as its `Display` text reads.
    pub fn message(&self) -> (text: String)
        ensures
            text@ == error_message(*self),
    {
        match self {
            AppError::Io(_) => "local I/O operation failed".to_owned(),
            AppError::Database(_) => "local database operation failed".to_owned(),
            AppError::Json(_) => "local data could not be parsed".to_owned(),
            AppError::InvalidSetting(detail) => prefixed("invalid setting: ", detail),
            AppError::ProviderUnavailable(detail) => prefixed(
                "Codex quota provider is unavailable: ",
                detail,
            ),
            AppError::Window(detail) => prefixed("window operation failed: ", detail),
            AppError::Notification(detail) => prefixed("notification operation failed: ", detail),
            AppError::StatePoisoned => "application state lock is poisoned".to_owned(),
            AppError::Other(detail) => prefixed("operation failed: ", detail),
        }
    }

    /// The error's stable code.
    pub fn code(&self) -> (code: &'static str)
        ensures
            code@ == error_code(*self),
    {
        match self {
            AppError::Io(_) => "local_io_failed",
            AppError::Database(_) => "database_failed",
            AppError::Json(_) => "local_data_invalid",
            AppError::InvalidSetting(_) => "invalid_setting",
            AppError::ProviderUnavailable(_) => "quota_unavailable",
            AppError::Window(_) => "window_failed",
            AppError::Notification(_) => "notification_failed",
            AppError::StatePoisoned => "state_unavailable",
            AppError::Other(_) => "operation_failed",
        }
    }
}

/// What a command reports to the user interface when it fails.
#[derive(Debug, Clone)]
pub struct CommandError {
    pub code: &'static str,
    pub message: String,
}

pub type CommandResult<T> = Result<T, CommandError>;

impl CommandError {
    /// The command error for an application error: its code and its message.
    pub fn from_error(value: AppError) -> (error: CommandError)
        ensures
            error.code@ == error_code(value),
            error.message@ == error_message(value),
    {
        let code: &'static str = value.code();
        let message: String = value.message();
        CommandError { code, message }
    }
}

} // verus!
