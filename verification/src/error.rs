//! What can go wrong, and what a client is told of it.

use vstd::prelude::*;
use vstd::string::StringExecFns;

verus! {

/// A result with an error of the router.
pub type AppResult<T> = Result<T, AppError>;

/// An error of the router. Errors of the database, its migrations, the HTTP client and of
/// input and output carry their own words.
#[derive(Debug)]
pub enum AppError {
    Config(String),
    BadRequest(String),
    Signature(String),
    Database(String),
    Migration(String),
    HttpClient(String),
    Io(String),
}

/// An error as mathematics sees it.
pub enum ErrorView {
    Config(Seq<char>),
    BadRequest(Seq<char>),
    Signature(Seq<char>),
    Database(Seq<char>),
    Migration(Seq<char>),
    HttpClient(Seq<char>),
    Io(Seq<char>),
}

impl View for AppError {
    type V = ErrorView;

    open spec fn view(&self) -> ErrorView {
        match self {
            AppError::Config(words) => ErrorView::Config(words@),
            AppError::BadRequest(words) => ErrorView::BadRequest(words@),
            AppError::Signature(words) => ErrorView::Signature(words@),
            AppError::Database(words) => ErrorView::Database(words@),
            AppError::Migration(words) => ErrorView::Migration(words@),
            AppError::HttpClient(words) => ErrorView::HttpClient(words@),
            AppError::Io(words) => ErrorView::Io(words@),
        }
    }
}

impl ErrorView {
    /// Whether the client caused the error.
    pub open spec fn is_client_error(self) -> bool {
        self is BadRequest || self is Signature
    }

    /// The full message of the error, for the log.
    pub open spec fn message(self) -> Seq<char> {
        match self {
            ErrorView::Config(words) => "configuration error: "@ + words,
            ErrorView::BadRequest(words) => "bad request: "@ + words,
            ErrorView::Signature(words) => "webhook signature verification failed: "@ + words,
            ErrorView::Database(words) => "database error: "@ + words,
            ErrorView::Migration(words) => "database migration error: "@ + words,
            ErrorView::HttpClient(words) => "http client error: "@ + words,
            ErrorView::Io(words) => "io error: "@ + words,
        }
    }
}

impl AppError {
    /// A configuration error.
    pub fn config(message: String) -> (r: Self)
        ensures
            r@ == ErrorView::Config(message@),
    {
        AppError::Config(message)
    }

    /// A request that cannot be read.
    pub fn bad_request(message: String) -> (r: Self)
        ensures
            r@ == ErrorView::BadRequest(message@),
    {
        AppError::BadRequest(message)
    }

    /// A signature that does not hold.
    pub fn signature(message: String) -> (r: Self)
        ensures
            r@ == ErrorView::Signature(message@),
    {
        AppError::Signature(message)
    }

    /// The HTTP status of the answer.
    pub fn status_code(&self) -> (r: u16)
        ensures
            r == (if self@.is_client_error() { 400u16 } else { 500u16 }),
    {
        match self {
            AppError::Config(_)
            | AppError::Database(_)
            | AppError::Migration(_)
            | AppError::HttpClient(_)
            | AppError::Io(_) => 500,
            AppError::BadRequest(_) | AppError::Signature(_) => 400,
        }
    }

    /// The body of the answer, which tells nothing of the error's own words.
    pub fn public_message(&self) -> (r: &'static str)
        ensures
            r@ == (match self@ {
                ErrorView::BadRequest(_) => "bad request"@,
                ErrorView::Signature(_) => "invalid webhook signature"@,
                _ => "internal server error"@,
            }),
    {
        match self {
            AppError::Config(_)
            | AppError::Database(_)
            | AppError::Migration(_)
            | AppError::HttpClient(_)
            | AppError::Io(_) => "internal server error",
            AppError::BadRequest(_) => "bad request",
            AppError::Signature(_) => "invalid webhook signature",
        }
    }

    /// The full message of the error, for the log.
    pub fn message(&self) -> (r: String)
        ensures
            r@ == self@.message(),
    {
        match self {
            AppError::Config(words) => "configuration error: ".to_owned().concat(words.as_str()),
            AppError::BadRequest(words) => "bad request: ".to_owned().concat(words.as_str()),
            AppError::Signature(words) => "webhook signature verification failed: ".to_owned()
                .concat(words.as_str()),
            AppError::Database(words) => "database error: ".to_owned().concat(words.as_str()),
            AppError::Migration(words) => "database migration error: ".to_owned()
                .concat(words.as_str()),
            AppError::HttpClient(words) => "http client error: ".to_owned().concat(words.as_str()),
            AppError::Io(words) => "io error: ".to_owned().concat(words.as_str()),
        }
    }
}

} // verus!
