use vstd::prelude::*;

verus! {

/// This error is returned by [`crate::Authenticator`] during authentication.
#[derive(Debug, Clone, PartialEq, Eq, Structural)]
pub enum AuthenticationError {
    /// It took the user too long to press the button on the hue bridge.
    TimedOut,
    /// API error code `101` is caught by the [`crate::Authenticator`], but others
    /// aren't, since they are terminal protocol errors rather than "waiting for
    /// the button press".
    Other(u16),
}

/// Typed errors that may occur while using this crate.
#[derive(Debug, Clone)]
pub enum Error {
    /// An error connected with the HTTP exchange with the hue bridge or the
    /// discovery service: a network failure, a non-2xx status, or a malformed
    /// response body. The string describes the failure; it never contains
    /// credentials.
    Http(String),
    /// Errors that may happen during authentication.
    Authentication(AuthenticationError),
}

/// The mathematical value of an [`Error`].
#[verifier::ext_equal]
pub enum ErrorV {
    Http(Seq<char>),
    Authentication(AuthenticationError),
}

impl View for Error {
    type V = ErrorV;

    open spec fn view(&self) -> ErrorV {
        match self {
            Error::Http(m) => ErrorV::Http(m@),
            Error::Authentication(a) => ErrorV::Authentication(*a),
        }
    }
}

} // verus!
