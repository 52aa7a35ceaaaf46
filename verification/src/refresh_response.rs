//! The response record for the refresh operation.

use vstd::prelude::*;
use crate::auth_profile::{AuthProfile, AuthProfileView};
use crate::auth_user::{AuthUser, AuthUserView};
use crate::decode::{decode_opt_profile_member, decode_opt_user_member, get_member_string,
    member_str, opt_profile_member, opt_user_member};
use crate::json::{Json, JsonValue};
use crate::json_parse::{parse_json, spec_parse_json};

verus! {

/// The mathematical model of a [`RefreshResponse`].
pub struct RefreshResponseView {
    pub access_token: Seq<char>,
    pub client_token: Seq<char>,
    pub selected_profile: Option<AuthProfileView>,
    pub user: Option<AuthUserView>,
}

/// A successful refresh: the tokens after the refresh, the selected profile
/// if any, and the user record if it was asked for.
#[derive(Debug)]
pub struct RefreshResponse {
    /// The new access token assigned after the refresh.
    pub access_token: String,

    /// The client token used for authentication.
    pub client_token: String,

    /// The profile selected by the user, if any.
    pub selected_profile: Option<AuthProfile>,

    /// Optional user information for the authenticated user, if available.
    pub user: Option<AuthUser>,
}

impl View for RefreshResponse {
    type V = RefreshResponseView;

    open spec fn view(&self) -> RefreshResponseView {
        RefreshResponseView {
            access_token: self.access_token@,
            client_token: self.client_token@,
            selected_profile: match self.selected_profile {
                Some(p) => Some(p@),
                None => None,
            },
            user: match self.user {
                Some(u) => Some(u@),
                None => None,
            },
        }
    }
}

/// The refresh payload a JSON document stands for: an object whose
/// `accessToken` and `clientToken` members are strings and whose
/// `selectedProfile` and `user` members are optional.
pub open spec fn refresh_response_of_json(j: Json) -> Option<RefreshResponseView> {
    match j {
        Json::Obj(m) => match member_str(m, "accessToken"@) {
            Some(at) => match member_str(m, "clientToken"@) {
                Some(ct) => match opt_profile_member(m, "selectedProfile"@) {
                    Some(sp) => match opt_user_member(m, "user"@) {
                        Some(u) => Some(
                            RefreshResponseView {
                                access_token: at,
                                client_token: ct,
                                selected_profile: sp,
                                user: u,
                            },
                        ),
                        None => None,
                    },
                    None => None,
                },
                None => None,
            },
            None => None,
        },
        _ => None,
    }
}

/// The refresh payload a text stands for, if it is a JSON document of the
/// expected shape.
pub open spec fn spec_refresh_response_of_text(t: Seq<char>) -> Option<RefreshResponseView> {
    match spec_parse_json(t) {
        Some(j) => refresh_response_of_json(j),
        None => None,
    }
}

impl RefreshResponse {
    /// Decodes a refresh payload from its JSON text.
    pub fn from_json_text(t: &[char]) -> (r: Option<RefreshResponse>)
        ensures
            r matches Some(resp) ==> spec_refresh_response_of_text(t@) == Some(resp@),
            r is None ==> spec_refresh_response_of_text(t@) is None,
    {
        let doc = match parse_json(t) {
            Some(doc) => doc,
            None => {
                return None;
            },
        };
        match &doc {
            JsonValue::Obj(m) => {
                let access_token = match get_member_string(m, "accessToken") {
                    Some(at) => at,
                    None => {
                        return None;
                    },
                };
                let client_token = match get_member_string(m, "clientToken") {
                    Some(ct) => ct,
                    None => {
                        return None;
                    },
                };
                let selected_profile = match decode_opt_profile_member(m, "selectedProfile") {
                    Some(sp) => sp,
                    None => {
                        return None;
                    },
                };
                let user = match decode_opt_user_member(m, "user") {
                    Some(u) => u,
                    None => {
                        return None;
                    },
                };
                Some(RefreshResponse { access_token, client_token, selected_profile, user })
            },
            _ => None,
        }
    }
}

} // verus!
