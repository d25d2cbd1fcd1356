//! Errors that requests are answered with.
use vstd::prelude::*;

verus! {

/// What kind of failure a request met.
#[derive(Clone, Copy, Debug, PartialEq, Eq, Structural)]
pub enum AppErrorCode {
    /// The request itself is not acceptable.
    InvalidInput,
    /// Something the request names does not exist.
    NotFound,
    /// Something the request would create exists already.
    AlreadyExists,
    /// A step of the operation failed; the message says which.
    IoError,
    /// A failure of the operating system, passed on with its own wording.
    Os,
}

/// The sizes behind a refused upload, for a localised message.
#[derive(Clone, Copy, Debug, PartialEq, Eq, Structural)]
pub struct TooLarge {
    pub size: u64,
    pub limit: u64,
}

/// A refused or failed request.
#[derive(Debug)]
pub struct AppCommandError {
    pub code: AppErrorCode,
    pub message: String,
    pub detail: Option<String>,
    pub too_large: Option<TooLarge>,
}

/// What an `AppCommandError` says.
pub struct AppErrorView {
    pub code: AppErrorCode,
    pub message: Seq<char>,
    pub detail: Option<Seq<char>>,
    pub too_large: Option<TooLarge>,
}

impl View for AppCommandError {
    type V = AppErrorView;

    open spec fn view(&self) -> AppErrorView {
        AppErrorView {
            code: self.code,
            message: self.message@,
            detail: match self.detail {
                Some(d) => Some(d@),
                None => None,
            },
            too_large: self.too_large,
        }
    }
}

/// An error with a code and a message and nothing else.
pub open spec fn plain_error(code: AppErrorCode, message: Seq<char>) -> AppErrorView {
    AppErrorView { code, message, detail: None, too_large: None }
}

/// An error with a code, a message and a detail.
pub open spec fn detailed_error(
    code: AppErrorCode,
    message: Seq<char>,
    detail: Seq<char>,
) -> AppErrorView {
    AppErrorView { code, message, detail: Some(detail), too_large: None }
}

/// An unacceptable request.
pub open spec fn invalid(message: Seq<char>) -> AppErrorView {
    plain_error(AppErrorCode::InvalidInput, message)
}

/// A failed step of an operation, with its reason.
pub open spec fn io_failure(message: Seq<char>, reason: Seq<char>) -> AppErrorView {
    detailed_error(AppErrorCode::IoError, message, reason)
}

/// A failure of the operating system.
pub open spec fn os_failure(reason: Seq<char>) -> AppErrorView {
    plain_error(AppErrorCode::Os, reason)
}

/// A failed step of an operation, with its reason.
pub fn io_failed(message: &str, reason: &String) -> (e: AppCommandError)
    ensures
        e@ == io_failure(message@, reason@),
{
    AppCommandError::io_error(message).with_detail(reason.as_str())
}

impl AppCommandError {
    fn plain(code: AppErrorCode, message: &str) -> (e: AppCommandError)
        ensures
            e@ == plain_error(code, message@),
    {
        AppCommandError { code, message: message.to_owned(), detail: None, too_large: None }
    }

    /// An unacceptable request.
    pub fn invalid_input(message: &str) -> (e: AppCommandError)
        ensures
            e@ == invalid(message@),
    {
        AppCommandError::plain(AppErrorCode::InvalidInput, message)
    }

    /// Something that does not exist.
    pub fn not_found(message: &str) -> (e: AppCommandError)
        ensures
            e@ == plain_error(AppErrorCode::NotFound, message@),
    {
        AppCommandError::plain(AppErrorCode::NotFound, message)
    }

    /// Something that exists already.
    pub fn already_exists(message: &str) -> (e: AppCommandError)
        ensures
            e@ == plain_error(AppErrorCode::AlreadyExists, message@),
    {
        AppCommandError::plain(AppErrorCode::AlreadyExists, message)
    }

    /// A failed step.
    pub fn io_error(message: &str) -> (e: AppCommandError)
        ensures
            e@ == plain_error(AppErrorCode::IoError, message@),
    {
        AppCommandError::plain(AppErrorCode::IoError, message)
    }

    /// A failure of the operating system, in its own words.
    pub fn io(reason: &str) -> (e: AppCommandError)
        ensures
            e@ == os_failure(reason@),
    {
        AppCommandError::plain(AppErrorCode::Os, reason)
    }

    /// The error with the given detail.
    pub fn with_detail(self, detail: &str) -> (e: AppCommandError)
        ensures
            e@ == (AppErrorView { detail: Some(detail@), ..self@ }),
    {
        AppCommandError {
            code: self.code,
            message: self.message,
            detail: Some(detail.to_owned()),
            too_large: self.too_large,
        }
    }

    /// The error with the sizes behind it.
    pub fn with_too_large(self, size: u64, limit: u64) -> (e: AppCommandError)
        ensures
            e@ == (AppErrorView { too_large: Some(TooLarge { size, limit }), ..self@ }),
    {
        AppCommandError {
            code: self.code,
            message: self.message,
            detail: self.detail,
            too_large: Some(TooLarge { size, limit }),
        }
    }
}

/// The result of an operation that gives a string, with both sides by what they say.
pub open spec fn text_result(r: Result<String, AppCommandError>) -> Result<
    Seq<char>,
    AppErrorView,
> {
    match r {
        Ok(s) => Ok(s@),
        Err(e) => Err(e@),
    }
}

/// The result of an operation that gives nothing, with the error by what it says.
pub open spec fn unit_result(r: Result<(), AppCommandError>) -> Result<(), AppErrorView> {
    match r {
        Ok(_) => Ok(()),
        Err(e) => Err(e@),
    }
}

/// An error says what it was made with: its code and its message, a detail only where one was
/// given, and no sizes.
pub proof fn law_errors_say_what_they_were_made_with(
    code: AppErrorCode,
    message: Seq<char>,
    reason: Seq<char>,
)
    ensures
        plain_error(code, message).code == code,
        plain_error(code, message).message == message,
        plain_error(code, message).detail is None,
        plain_error(code, message).too_large is None,
        detailed_error(code, message, reason).code == code,
        detailed_error(code, message, reason).message == message,
        detailed_error(code, message, reason).detail == Some(reason),
        detailed_error(code, message, reason).too_large is None,
        invalid(message) == plain_error(AppErrorCode::InvalidInput, message),
        io_failure(message, reason) == detailed_error(AppErrorCode::IoError, message, reason),
        os_failure(reason) == plain_error(AppErrorCode::Os, reason),
{
}

/// An error, and the outcome of an operation, are seen by what they say.
pub proof fn law_errors_are_seen_as_they_are(e: AppCommandError, s: String)
    ensures
        e@.code == e.code,
        e@.message == e.message@,
        e@.detail is Some <==> e.detail is Some,
        e.detail matches Some(d) ==> e@.detail == Some(d@),
        e@.too_large == e.too_large,
        text_result(Ok(s)) == Ok::<Seq<char>, AppErrorView>(s@),
        text_result(Err(e)) == Err::<Seq<char>, AppErrorView>(e@),
        unit_result(Ok(())) == Ok::<(), AppErrorView>(()),
        unit_result(Err(e)) == Err::<(), AppErrorView>(e@),
{
}

} // verus!
