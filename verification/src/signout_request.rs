//! The request record for the signout operation.

use vstd::prelude::*;
use crate::json::{quoted, push_quoted, push_lit};
use crate::text::chars_to_string;

verus! {

/// The mathematical model of a [`SignoutRequest`].
pub struct SignoutRequestView {
    pub username: Seq<char>,
    pub password: Seq<char>,
}

/// A signout request: the credentials of the user signing out.
pub struct SignoutRequest {
    username: String,
    password: String,
}

impl View for SignoutRequest {
    type V = SignoutRequestView;

    closed spec fn view(&self) -> SignoutRequestView {
        SignoutRequestView { username: self.username@, password: self.password@ }
    }
}

/// The serialized wire form of a signout request: an object with the members
/// `username` and `password`, in that order.
pub open spec fn signout_request_text(r: SignoutRequestView) -> Seq<char> {
    "{\"username\":"@ + quoted(r.username) + ",\"password\":"@ + quoted(r.password) + "}"@
}

impl SignoutRequest {
    /// Creates a new `SignoutRequest` with the provided username and password.
    pub fn new(username: String, password: String) -> (r: SignoutRequest)
        ensures
            r@ == (SignoutRequestView { username: username@, password: password@ }),
    {
        SignoutRequest { username, password }
    }

    /// Serializes the request to its JSON wire form.
    pub fn to_json_text(&self) -> (r: String)
        ensures
            r@ == signout_request_text(self@),
    {
        let mut out: Vec<char> = Vec::new();
        push_lit(&mut out, "{\"username\":");
        push_quoted(&mut out, self.username.as_str());
        push_lit(&mut out, ",\"password\":");
        push_quoted(&mut out, self.password.as_str());
        push_lit(&mut out, "}");
        proof {
            assert(out@ =~= signout_request_text(self@));
        }
        chars_to_string(out.as_slice())
    }
}

} // verus!
