//! The request record for the invalidate operation.

use vstd::prelude::*;
use crate::json::{quoted, push_quoted, push_lit};
use crate::text::chars_to_string;

verus! {

/// The mathematical model of an [`InvalidateRequest`].
pub struct InvalidateRequestView {
    pub access_token: Seq<char>,
    pub client_token: Seq<char>,
}

/// An invalidate request: the access token to withdraw and the client token
/// it was issued against.
pub struct InvalidateRequest {
    /// The access token to invalidate.
    pub access_token: String,

    /// The client token.
    pub client_token: String,
}

impl View for InvalidateRequest {
    type V = InvalidateRequestView;

    open spec fn view(&self) -> InvalidateRequestView {
        InvalidateRequestView { access_token: self.access_token@, client_token: self.client_token@ }
    }
}

/// The serialized wire form of an invalidate request: an object with the
/// members `accessToken` and `clientToken`, in that order.
pub open spec fn invalidate_request_text(r: InvalidateRequestView) -> Seq<char> {
    "{\"accessToken\":"@ + quoted(r.access_token) + ",\"clientToken\":"@ + quoted(r.client_token)
        + "}"@
}

impl InvalidateRequest {
    /// Creates a new `InvalidateRequest` with the provided access token and
    /// client token.
    pub fn new(access_token: String, client_token: String) -> (r: InvalidateRequest)
        ensures
            r@ == (InvalidateRequestView {
                access_token: access_token@,
                client_token: client_token@,
            }),
    {
        InvalidateRequest { access_token, client_token }
    }

    /// Serializes the request to its JSON wire form.
    pub fn to_json_text(&self) -> (r: String)
        ensures
            r@ == invalidate_request_text(self@),
    {
        let mut out: Vec<char> = Vec::new();
        push_lit(&mut out, "{\"accessToken\":");
        push_quoted(&mut out, self.access_token.as_str());
        push_lit(&mut out, ",\"clientToken\":");
        push_quoted(&mut out, self.client_token.as_str());
        push_lit(&mut out, "}");
        proof {
            assert(out@ =~= invalidate_request_text(self@));
        }
        chars_to_string(out.as_slice())
    }
}

} // verus!
