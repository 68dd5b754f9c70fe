use vstd::prelude::*;

verus! {

/// Errors of the upstream adapter: the login flow and the RPC surface.
#[derive(Debug)]
pub enum Error {
    /// The upstream rejected the username/password pair.
    BadCredentials,
    /// An HTTP round-trip failed at the transport level.
    Http,
    /// The upstream served a document the adapter could not make sense of.
    ScrapingFailed { details: String },
}

impl Error {
    /// Short human-readable description, safe to log.
    pub fn message(&self) -> (r: String)
        ensures
            self is BadCredentials ==> r@ == "bad credentials"@,
            self is Http ==> r@ == "http client error"@,
            self is ScrapingFailed ==> r@ == "scraping failed"@,
    {
        match self {
            Error::BadCredentials => String::from_str("bad credentials"),
            Error::Http => String::from_str("http client error"),
            Error::ScrapingFailed { .. } => String::from_str("scraping failed"),
        }
    }
}

/// Errors of the service layer, mapped to HTTP statuses at the boundary.
#[derive(Debug)]
pub enum AppError {
    InternalError,
    BadRequest(&'static str),
    NotFound(&'static str),
    TimetableNotFound,
    MissingCredentials,
    InvalidShareLink,
}

impl AppError {
    /// The HTTP status code the boundary answers with for this error.
    pub fn status_code(&self) -> (r: u16)
        ensures
            r == self.spec_status_code(),
    {
        match self {
            AppError::InternalError => 500,
            AppError::BadRequest(_) => 400,
            AppError::NotFound(_) => 404,
            AppError::TimetableNotFound => 404,
            AppError::MissingCredentials => 401,
            AppError::InvalidShareLink => 401,
        }
    }

    /// Status mapping as the error-handling design states it.
    pub open spec fn spec_status_code(&self) -> u16 {
        match self {
            AppError::InternalError => 500u16,
            AppError::BadRequest(_) => 400u16,
            AppError::NotFound(_) => 404u16,
            AppError::TimetableNotFound => 404u16,
            AppError::MissingCredentials => 401u16,
            AppError::InvalidShareLink => 401u16,
        }
    }
}

/// How an adapter error surfaces at the service layer: a rejected password is
/// the caller's fault, everything else is internal.
pub open spec fn spec_app_error_of(e: Error) -> AppError {
    match e {
        Error::BadCredentials => AppError::BadRequest("bad credentials"),
        Error::Http => AppError::InternalError,
        Error::ScrapingFailed { .. } => AppError::InternalError,
    }
}

impl From<Error> for AppError {
    fn from(e: Error) -> (r: AppError) {
        match e {
            Error::BadCredentials => AppError::BadRequest("bad credentials"),
            Error::Http => AppError::InternalError,
            Error::ScrapingFailed { .. } => AppError::InternalError,
        }
    }
}

impl vstd::std_specs::convert::FromSpecImpl<Error> for AppError {
    open spec fn obeys_from_spec() -> bool {
        true
    }

    open spec fn from_spec(e: Error) -> AppError {
        spec_app_error_of(e)
    }
}

} // verus!
