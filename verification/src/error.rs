//! Error type of the deployment service.

use vstd::prelude::*;
use vstd::string::*;

verus! {

/// `std::io::Error`, carried through unchanged.
#[verifier::external_type_specification]
#[verifier::external_body]
pub struct ExIoError(std::io::Error);

/// `serde_json::Error`, carried through unchanged.
#[verifier::external_type_specification]
#[verifier::external_body]
pub struct ExJsonError(serde_json::Error);

/// Application error types.
#[derive(Debug)]
pub enum AppError {
    Config(String),
    Git(String),
    ProjectNotFound(String),
    WebhookValidation(String),
    Deployment(String),
    Io(std::io::Error),
    Serialization(serde_json::Error),
}

/// Result type of the service's operations.
pub type AppResult<T> = Result<T, AppError>;

/// The HTTP status that answers each kind of error.
pub open spec fn status_of(e: AppError) -> u16 {
    match e {
        AppError::Config(_) => 500,
        AppError::Git(_) => 500,
        AppError::ProjectNotFound(_) => 404,
        AppError::WebhookValidation(_) => 401,
        AppError::Deployment(_) => 500,
        AppError::Io(_) => 500,
        AppError::Serialization(_) => 400,
    }
}

/// The result is a webhook-validation error with message `m`.
pub open spec fn is_webhook_rejection<T>(r: Result<T, AppError>, m: Seq<char>) -> bool {
    match r {
        Err(AppError::WebhookValidation(e)) => e@ == m,
        _ => false,
    }
}

/// The result is a deployment error with message `m`.
pub open spec fn is_deployment_error<T>(r: Result<T, AppError>, m: Seq<char>) -> bool {
    match r {
        Err(AppError::Deployment(e)) => e@ == m,
        _ => false,
    }
}

/// The result is a git error with message `m`.
pub open spec fn is_git_error<T>(r: Result<T, AppError>, m: Seq<char>) -> bool {
    match r {
        Err(AppError::Git(e)) => e@ == m,
        _ => false,
    }
}

/// The text of an I/O error, as its `Display` gives it.
///
/// Trusted: `std::io::Error::to_string`. Nothing is stated of the text: for
/// operating-system errors it comes from the system.
#[verifier::external_body]
fn io_error_text(e: &std::io::Error) -> String {
    e.to_string()
}

/// The text of a JSON error, as its `Display` gives it.
///
/// Trusted: `serde_json::Error::to_string`. Nothing is stated of the text,
/// which depends on the error's hidden contents.
#[verifier::external_body]
fn json_error_text(e: &serde_json::Error) -> String {
    e.to_string()
}

/// `prefix` followed by `rest`.
pub fn concat_str(prefix: &str, rest: &str) -> (s: String)
    ensures
        s@ == prefix@ + rest@,
{
    let mut s = String::from_str(prefix);
    s.append(rest);
    s
}

impl AppError {
    /// The HTTP status code with which the error is answered.
    pub fn status_code(&self) -> (code: u16)
        ensures
            code == status_of(*self),
    {
        match self {
            AppError::Config(_) => 500,
            AppError::Git(_) => 500,
            AppError::ProjectNotFound(_) => 404,
            AppError::WebhookValidation(_) => 401,
            AppError::Deployment(_) => 500,
            AppError::Io(_) => 500,
            AppError::Serialization(_) => 400,
        }
    }

    /// The error's display text: the kind's label, a colon, and the detail.
    pub fn to_string(&self) -> (s: String)
        ensures
            match *self {
                AppError::Config(m) => s@ == "Configuration error: "@ + m@,
                AppError::Git(m) => s@ == "Git error: "@ + m@,
                AppError::ProjectNotFound(m) => s@ == "Project not found: "@ + m@,
                AppError::WebhookValidation(m) => s@ == "Webhook validation failed: "@ + m@,
                AppError::Deployment(m) => s@ == "Deployment error: "@ + m@,
                AppError::Io(_) => "IO error: "@.is_prefix_of(s@),
                AppError::Serialization(_) => "Serialization error: "@.is_prefix_of(s@),
            },
    {
        match self {
            AppError::Config(m) => concat_str("Configuration error: ", m.as_str()),
            AppError::Git(m) => concat_str("Git error: ", m.as_str()),
            AppError::ProjectNotFound(m) => concat_str("Project not found: ", m.as_str()),
            AppError::WebhookValidation(m) => concat_str("Webhook validation failed: ", m.as_str()),
            AppError::Deployment(m) => concat_str("Deployment error: ", m.as_str()),
            AppError::Io(e) => {
                let t = io_error_text(e);
                let s = concat_str("IO error: ", t.as_str());
                assert("IO error: "@ =~= s@.subrange(0, "IO error: "@.len() as int));
                s
            },
            AppError::Serialization(e) => {
                let t = json_error_text(e);
                let s = concat_str("Serialization error: ", t.as_str());
                assert("Serialization error: "@ =~= s@.subrange(
                    0,
                    "Serialization error: "@.len() as int,
                ));
                s
            },
        }
    }

    /// The detail carried in an error response's body: the message alone,
    /// without the kind's label.
    pub fn detail(&self) -> (s: String)
        ensures
            match *self {
                AppError::Config(m) => s@ == m@,
                AppError::Git(m) => s@ == m@,
                AppError::ProjectNotFound(m) => s@ == m@,
                AppError::WebhookValidation(m) => s@ == m@,
                AppError::Deployment(m) => s@ == m@,
                _ => true,
            },
    {
        match self {
            AppError::Config(m) => m.clone(),
            AppError::Git(m) => m.clone(),
            AppError::ProjectNotFound(m) => m.clone(),
            AppError::WebhookValidation(m) => m.clone(),
            AppError::Deployment(m) => m.clone(),
            AppError::Io(e) => io_error_text(e),
            AppError::Serialization(e) => json_error_text(e),
        }
    }
}

} // verus!
