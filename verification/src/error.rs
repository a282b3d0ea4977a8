use vstd::prelude::*;

verus! {

/// Errors of the quote service.
///
/// Failures reported by the HTTP client, the database, the websocket or the
/// environment are carried as their message text.
#[derive(Debug, Clone, PartialEq, Eq)]
pub enum AppError {
    /// A required environment variable is missing or not unicode.
    EnvVar(String),
    /// The HTTP client failed to send a request or decode a reply.
    Http(String),
    /// The document store failed.
    Firestore(String),
    /// The websocket connection failed.
    WebSocket(String),
    /// The login endpoints answered with a server error.
    LoginServerError,
    /// The login init reply carries no nonce.
    LoginNonceMissing,
    /// The login endpoint rejected the credentials.
    BadCredentials,
    /// The login reply carries no access token.
    LoginResponseMissingToken,
    /// The websocket was closed because the token was rejected.
    WebSocketBadCredentials,
    /// Not every quote arrived before the deadline.
    WebSocketTimeout,
    /// The stream closed or ended before every quote arrived.
    IncompleteQuotes,
    /// No attempt was made at all.
    MaxRetriesExceeded,
}

impl AppError {
    /// Whether the error means that the access token is no longer accepted.
    pub fn is_credentials_error(&self) -> (r: bool)
        ensures
            r == (*self is WebSocketBadCredentials || *self is BadCredentials),
    {
        match self {
            AppError::WebSocketBadCredentials => true,
            AppError::BadCredentials => true,
            _ => false,
        }
    }
}

} // verus!
