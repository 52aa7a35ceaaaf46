//! The request record for the refresh operation.

use vstd::prelude::*;
use crate::auth_profile::{AuthProfile, AuthProfileView, profile_text, push_profile_text};
use crate::json::{bool_text, quoted, push_quoted, push_lit, push_bool_text};
use crate::text::chars_to_string;

verus! {

/// The mathematical model of a [`RefreshRequest`].
pub struct RefreshRequestView {
    pub access_token: Seq<char>,
    pub client_token: Seq<char>,
    pub request_user: bool,
    pub selected_profile: Option<AuthProfileView>,
}

/// A refresh request: the tokens to refresh, whether user information is
/// wanted, and optionally a profile to select.
pub struct RefreshRequest {
    access_token: String,
    client_token: String,
    request_user: bool,
    selected_profile: Option<AuthProfile>,
}

impl View for RefreshRequest {
    type V = RefreshRequestView;

    closed spec fn view(&self) -> RefreshRequestView {
        RefreshRequestView {
            access_token: self.access_token@,
            client_token: self.client_token@,
            request_user: self.request_user,
            selected_profile: match self.selected_profile {
                Some(p) => Some(p@),
                None => None,
            },
        }
    }
}

/// The serialized wire form of a refresh request: an object with the members
/// `accessToken`, `clientToken` and `requestUser`, in that order, followed by
/// a `selectedProfile` member only when a profile is selected. An absent
/// profile leaves no trace in the payload — no member, no `null`.
pub open spec fn refresh_request_text(r: RefreshRequestView) -> Seq<char> {
    "{\"accessToken\":"@ + quoted(r.access_token) + ",\"clientToken\":"@ + quoted(r.client_token)
        + ",\"requestUser\":"@ + bool_text(r.request_user) + (match r.selected_profile {
        Some(p) => ",\"selectedProfile\":"@ + profile_text(p),
        None => Seq::<char>::empty(),
    }) + "}"@
}

impl RefreshRequest {
    /// Creates a new `RefreshRequest` with the provided tokens and optionally
    /// a selected profile.
    pub fn new(
        access_token: String,
        client_token: String,
        request_user: bool,
        selected_profile: Option<AuthProfile>,
    ) -> (r: RefreshRequest)
        ensures
            r@ == (RefreshRequestView {
                access_token: access_token@,
                client_token: client_token@,
                request_user: request_user,
                selected_profile: match selected_profile {
                    Some(p) => Some(p@),
                    None => None,
                },
            }),
    {
        RefreshRequest { access_token, client_token, request_user, selected_profile }
    }

    /// Serializes the request to its JSON wire form.
    pub fn to_json_text(&self) -> (r: String)
        ensures
            r@ == refresh_request_text(self@),
    {
        let mut out: Vec<char> = Vec::new();
        push_lit(&mut out, "{\"accessToken\":");
        push_quoted(&mut out, self.access_token.as_str());
        push_lit(&mut out, ",\"clientToken\":");
        push_quoted(&mut out, self.client_token.as_str());
        push_lit(&mut out, ",\"requestUser\":");
        push_bool_text(&mut out, self.request_user);
        match &self.selected_profile {
            Some(p) => {
                push_lit(&mut out, ",\"selectedProfile\":");
                push_profile_text(&mut out, p);
            },
            None => {},
        }
        push_lit(&mut out, "}");
        proof {
            assert(out@ =~= refresh_request_text(self@));
        }
        chars_to_string(out.as_slice())
    }
}

/// An absent selected profile is omitted from the wire payload outright: the
/// serialized text is exactly the three-member object, with no
/// `selectedProfile` member and no `null` in its place.
pub proof fn lemma_refresh_text_omits_absent_profile(r: RefreshRequestView)
    requires
        r.selected_profile is None,
    ensures
        refresh_request_text(r) == "{\"accessToken\":"@ + quoted(r.access_token)
            + ",\"clientToken\":"@ + quoted(r.client_token) + ",\"requestUser\":"@
            + bool_text(r.request_user) + "}"@,
{
    assert(refresh_request_text(r) =~= "{\"accessToken\":"@ + quoted(r.access_token)
        + ",\"clientToken\":"@ + quoted(r.client_token) + ",\"requestUser\":"@
        + bool_text(r.request_user) + "}"@);
}

} // verus!
