//! The error type of the whole service and its client-visible rendering.

use crate::models::ErrorResponse;
use crate::utils::text::{concat, concat3, decimal, decimal_digits, owned};
use vstd::prelude::*;

verus! {

/// Why a request failed.
#[derive(Debug)]
pub enum AppError {
    /// An upload of this many bytes is over the limit.
    FileTooLarge(usize),
    /// The content does not match an accepted file type.
    InvalidFileType(String),
    /// No stored file has this name.
    FileNotFound(String),
    /// The request is malformed.
    BadRequest(String),
    /// A folder or file that the request names does not exist.
    NotFound(String),
    /// The request collides with what is stored: a sibling of the same name,
    /// or a folder that is not empty.
    Conflict(String),
    /// The request would break the folder tree: a move into the folder's
    /// own subtree.
    InvalidOperation(String),
    /// Reading or writing storage failed.
    Io(String),
    /// An image could not be decoded or encoded.
    ImageProcessing(String),
    /// An image could not be written as QOI.
    QoiEncoding(String),
    /// A multipart body could not be read.
    Multipart(String),
    /// No credentials were presented.
    AuthenticationRequired,
    /// The presented username or password is wrong.
    InvalidCredentials,
    /// The presented token or credentials are not accepted.
    Unauthorized(String),
    /// The client has used up its request allowance.
    RateLimited,
    /// The service itself failed.
    Internal(String),
}

/// A failure as the client sees it: the HTTP status, whether a Basic
/// challenge accompanies it, and the body.
#[derive(Debug)]
pub struct ErrorReply {
    pub status: u16,
    pub challenge: bool,
    pub body: ErrorResponse,
}

impl AppError {
    /// The text of this error.
    pub open spec fn message_text(self) -> Seq<char> {
        match self {
            AppError::FileTooLarge(n) => "File too large: "@ + decimal_digits(n as nat) + " bytes"@,
            AppError::InvalidFileType(s) => "Invalid file type: "@ + s@,
            AppError::FileNotFound(s) => "File not found: "@ + s@,
            AppError::BadRequest(s) => "Bad request: "@ + s@,
            AppError::NotFound(s) => "Not found: "@ + s@,
            AppError::Conflict(s) => "Bad request: "@ + s@,
            AppError::InvalidOperation(s) => "Bad request: "@ + s@,
            AppError::Io(s) => "IO error: "@ + s@,
            AppError::ImageProcessing(s) => "Image processing error: "@ + s@,
            AppError::QoiEncoding(s) => "QOI encoding error: "@ + s@,
            AppError::Multipart(s) => "Multipart error: "@ + s@,
            AppError::AuthenticationRequired => "Authentication required"@,
            AppError::InvalidCredentials => "Invalid credentials"@,
            AppError::Unauthorized(s) => "Unauthorized: "@ + s@,
            AppError::RateLimited => "Rate limit exceeded"@,
            AppError::Internal(s) => "Internal server error: "@ + s@,
        }
    }

    /// The HTTP status that answers this error.
    pub open spec fn status_code(self) -> u16 {
        match self {
            AppError::FileTooLarge(_) => 413,
            AppError::InvalidFileType(_) => 400,
            AppError::FileNotFound(_) => 404,
            AppError::BadRequest(_) => 400,
            AppError::NotFound(_) => 404,
            AppError::Conflict(_) => 400,
            AppError::InvalidOperation(_) => 400,
            AppError::AuthenticationRequired => 401,
            AppError::InvalidCredentials => 401,
            AppError::Unauthorized(_) => 401,
            AppError::RateLimited => 429,
            _ => 500,
        }
    }

    /// The short label of this error in the body.
    pub open spec fn label_text(self) -> Seq<char> {
        match self {
            AppError::FileTooLarge(_) => "File too large"@,
            AppError::InvalidFileType(_) => "Invalid file type"@,
            AppError::FileNotFound(_) => "File not found"@,
            AppError::BadRequest(_) => "Bad request"@,
            AppError::NotFound(_) => "Not found"@,
            AppError::Conflict(_) => "Bad request"@,
            AppError::InvalidOperation(_) => "Bad request"@,
            AppError::AuthenticationRequired => "Authentication required"@,
            AppError::InvalidCredentials => "Invalid credentials"@,
            AppError::Unauthorized(_) => "Unauthorized"@,
            AppError::RateLimited => "Too many requests"@,
            _ => "Internal server error"@,
        }
    }

    /// The message of this error in the body. Failures of storage and of
    /// image and multipart handling are not detailed to the client.
    pub open spec fn body_text(self) -> Seq<char> {
        match self {
            AppError::AuthenticationRequired => "Please provide valid credentials"@,
            AppError::InvalidCredentials => "Username or password is incorrect"@,
            AppError::Io(_) => "An unexpected error occurred"@,
            AppError::ImageProcessing(_) => "An unexpected error occurred"@,
            AppError::QoiEncoding(_) => "An unexpected error occurred"@,
            AppError::Multipart(_) => "An unexpected error occurred"@,
            _ => self.message_text(),
        }
    }

    /// The text of this error.
    pub fn message(&self) -> (out: String)
        ensures
            out@ == self.message_text(),
    {
        match self {
            AppError::FileTooLarge(n) => {
                let digits = decimal(*n);
                concat3("File too large: ", digits.as_str(), " bytes")
            },
            AppError::InvalidFileType(s) => concat("Invalid file type: ", s.as_str()),
            AppError::FileNotFound(s) => concat("File not found: ", s.as_str()),
            AppError::BadRequest(s) => concat("Bad request: ", s.as_str()),
            AppError::NotFound(s) => concat("Not found: ", s.as_str()),
            AppError::Conflict(s) => concat("Bad request: ", s.as_str()),
            AppError::InvalidOperation(s) => concat("Bad request: ", s.as_str()),
            AppError::Io(s) => concat("IO error: ", s.as_str()),
            AppError::ImageProcessing(s) => concat("Image processing error: ", s.as_str()),
            AppError::QoiEncoding(s) => concat("QOI encoding error: ", s.as_str()),
            AppError::Multipart(s) => concat("Multipart error: ", s.as_str()),
            AppError::AuthenticationRequired => owned("Authentication required"),
            AppError::InvalidCredentials => owned("Invalid credentials"),
            AppError::Unauthorized(s) => concat("Unauthorized: ", s.as_str()),
            AppError::RateLimited => owned("Rate limit exceeded"),
            AppError::Internal(s) => concat("Internal server error: ", s.as_str()),
        }
    }

    /// This error as the client sees it.
    pub fn error_response(&self) -> (reply: ErrorReply)
        ensures
            reply.status == self.status_code(),
            reply.challenge == (*self is AuthenticationRequired),
            reply.body.error@ == self.label_text(),
            reply.body.message@ == self.body_text(),
    {
        let (status, label): (u16, &str) = match self {
            AppError::FileTooLarge(_) => (413, "File too large"),
            AppError::InvalidFileType(_) => (400, "Invalid file type"),
            AppError::FileNotFound(_) => (404, "File not found"),
            AppError::BadRequest(_) => (400, "Bad request"),
            AppError::NotFound(_) => (404, "Not found"),
            AppError::Conflict(_) => (400, "Bad request"),
            AppError::InvalidOperation(_) => (400, "Bad request"),
            AppError::AuthenticationRequired => (401, "Authentication required"),
            AppError::InvalidCredentials => (401, "Invalid credentials"),
            AppError::Unauthorized(_) => (401, "Unauthorized"),
            AppError::RateLimited => (429, "Too many requests"),
            _ => (500, "Internal server error"),
        };
        let message = match self {
            AppError::AuthenticationRequired => owned("Please provide valid credentials"),
            AppError::InvalidCredentials => owned("Username or password is incorrect"),
            AppError::Io(_) => owned("An unexpected error occurred"),
            AppError::ImageProcessing(_) => owned("An unexpected error occurred"),
            AppError::QoiEncoding(_) => owned("An unexpected error occurred"),
            AppError::Multipart(_) => owned("An unexpected error occurred"),
            _ => self.message(),
        };
        let challenge = match self {
            AppError::AuthenticationRequired => true,
            _ => false,
        };
        ErrorReply { status, challenge, body: ErrorResponse { error: owned(label), message } }
    }
}

} // verus!
