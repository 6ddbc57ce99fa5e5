//! The error taxonomy shared by every component of the client.
use vstd::prelude::*;

verus! {

/// What went wrong, as shown to the user.
#[derive(Debug, Clone, PartialEq, Eq, Default)]
pub enum LemmyAppErrorType {
    #[default]
    Unknown,
    NotFound,
    InternalServerError,
    ParamsError,
    /// An error reported by the remote API, carrying the API's error tag.
    ApiError(String),
    EmptyUsername,
    EmptyPassword,
    MissingToken,
    MissingReason,
    /// The remote call failed while the client was online.
    NetworkError,
    /// No connectivity and no cached response for the request.
    OfflineError,
    /// A response could not be read into the expected shape.
    DecodeError,
}

/// An error with its kind and a free-form description.
#[derive(Debug, Clone)]
pub struct LemmyAppError {
    pub error_type: LemmyAppErrorType,
    pub content: String,
}

impl LemmyAppError {
    /// An error of the given kind with an empty description.
    pub fn new(error_type: LemmyAppErrorType) -> (r: LemmyAppError)
        ensures
            r.error_type == error_type,
            r.content@ == Seq::<char>::empty(),
    {
        LemmyAppError { error_type, content: String::new() }
    }
}

/// Checks a login form before it is sent: the user name (or e-mail) must be
/// given first, then the password.
pub fn validate_login(username_or_email: &str, password: &str) -> (r: Option<LemmyAppErrorType>)
    ensures
        username_or_email@.len() == 0 ==> r == Some(LemmyAppErrorType::EmptyUsername),
        username_or_email@.len() != 0 && password@.len() == 0 ==> r == Some(
            LemmyAppErrorType::EmptyPassword,
        ),
        username_or_email@.len() != 0 && password@.len() != 0 ==> r is None,
{
    if username_or_email.is_empty() {
        return Some(LemmyAppErrorType::EmptyUsername);
    }
    if password.is_empty() {
        return Some(LemmyAppErrorType::EmptyPassword);
    }
    None
}

/// Checks a report form before it is sent: a reason must be given.
pub fn validate_report(reason: &str) -> (r: Option<LemmyAppErrorType>)
    ensures
        reason@.len() == 0 <==> r == Some(LemmyAppErrorType::MissingReason),
        reason@.len() != 0 <==> r is None,
{
    if reason.is_empty() {
        return Some(LemmyAppErrorType::MissingReason);
    }
    None
}

} // verus!
