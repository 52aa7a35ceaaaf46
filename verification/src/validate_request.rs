//! The request record for the validate operation.

use vstd::prelude::*;
use crate::json::{quoted, push_quoted, push_lit};
use crate::text::chars_to_string;

verus! {

/// The mathematical model of a [`ValidateRequest`].
pub struct ValidateRequestView {
    pub access_token: Seq<char>,
}

/// A validate request: the access token whose validity is asked about.
pub struct ValidateRequest {
    /// The access token to validate.
    pub access_token: String,
}

impl View for ValidateRequest {
    type V = ValidateRequestView;

    open spec fn view(&self) -> ValidateRequestView {
        ValidateRequestView { access_token: self.access_token@ }
    }
}

/// The serialized wire form of a validate request: an object with the single
/// member `accessToken`.
pub open spec fn validate_request_text(r: ValidateRequestView) -> Seq<char> {
    "{\"accessToken\":"@ + quoted(r.access_token) + "}"@
}

impl ValidateRequest {
    /// Creates a new `ValidateRequest` with the provided access token.
    pub fn new(access_token: String) -> (r: ValidateRequest)
        ensures
            r@ == (ValidateRequestView { access_token: access_token@ }),
    {
        ValidateRequest { access_token }
    }

    /// Serializes the request to its JSON wire form.
    pub fn to_json_text(&self) -> (r: String)
        ensures
            r@ == validate_request_text(self@),
    {
        let mut out: Vec<char> = Vec::new();
        push_lit(&mut out, "{\"accessToken\":");
        push_quoted(&mut out, self.access_token.as_str());
        push_lit(&mut out, "}");
        proof {
            assert(out@ =~= validate_request_text(self@));
        }
        chars_to_string(out.as_slice())
    }
}

} // verus!
