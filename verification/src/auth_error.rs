//! The error record the server answers with when it rejects a request.

use vstd::prelude::*;
use crate::json::push_lit;
use crate::text::chars_to_string;

verus! {

/// The mathematical model of an [`AuthError`].
pub struct AuthErrorView {
    pub error: Seq<char>,
    pub error_message: Seq<char>,
    pub cause: Seq<char>,
}

/// A protocol-level error returned by the authentication server: an error
/// kind identifier, a human-readable message, and a cause.
#[derive(Debug, Clone)]
pub struct AuthError {
    /// A general identifier for the error.
    pub error: String,

    /// A detailed message explaining the error.
    pub error_message: String,

    /// The cause of the error.
    pub cause: String,
}

impl View for AuthError {
    type V = AuthErrorView;

    open spec fn view(&self) -> AuthErrorView {
        AuthErrorView { error: self.error@, error_message: self.error_message@, cause: self.cause@ }
    }
}

impl DeepView for AuthError {
    type V = AuthErrorView;

    open spec fn deep_view(&self) -> AuthErrorView {
        self.view()
    }
}

impl AuthError {
    /// Creates a new `AuthError` with the provided error details.
    pub fn new(error: String, error_message: String, cause: String) -> (r: AuthError)
        ensures
            r@ == (AuthErrorView { error: error@, error_message: error_message@, cause: cause@ }),
    {
        AuthError { error, error_message, cause }
    }

    /// The display form of the error: the kind identifier and the message,
    /// separated by a colon.
    pub fn display_string(&self) -> (r: String)
        ensures
            r@ == self.error@ + ": "@ + self.error_message@,
    {
        let mut out: Vec<char> = Vec::new();
        push_lit(&mut out, self.error.as_str());
        push_lit(&mut out, ": ");
        push_lit(&mut out, self.error_message.as_str());
        proof {
            assert(out@ =~= self.error@ + ": "@ + self.error_message@);
        }
        chars_to_string(out.as_slice())
    }
}

} // verus!
