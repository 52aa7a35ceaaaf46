//! The response record for the authenticate operation.

use vstd::prelude::*;
use crate::auth_profile::{AuthProfile, AuthProfileView};
use crate::auth_user::{AuthUser, AuthUserView};
use crate::decode::{decode_opt_profile_member, decode_opt_user_member, decode_profiles_from,
    get_member_string, lookup, member_str, obj_lookup, opt_profile_member, opt_user_member,
    profiles_of_json_from};
use crate::json::{Json, JsonValue};
use crate::json_parse::{parse_json, spec_parse_json};

verus! {

/// The mathematical model of an [`AuthResponse`].
pub struct AuthResponseView {
    pub access_token: Seq<char>,
    pub client_token: Seq<char>,
    pub available_profiles: Seq<AuthProfileView>,
    pub selected_profile: Option<AuthProfileView>,
    pub user: Option<AuthUserView>,
}

/// A successful authentication: the issued tokens, the profiles available to
/// the user, the selected profile if any, and the user record if it was asked
/// for.
#[derive(Debug)]
pub struct AuthResponse {
    /// The access token assigned to the authenticated user.
    pub access_token: String,

    /// The client token used for authenticating the user.
    pub client_token: String,

    /// A list of available profiles for the authenticated user.
    pub available_profiles: Vec<AuthProfile>,

    /// The profile selected by the user, if any.
    pub selected_profile: Option<AuthProfile>,

    /// Optional user information for the authenticated user.
    pub user: Option<AuthUser>,
}

impl View for AuthResponse {
    type V = AuthResponseView;

    open spec fn view(&self) -> AuthResponseView {
        AuthResponseView {
            access_token: self.access_token@,
            client_token: self.client_token@,
            available_profiles: self.available_profiles.deep_view(),
            selected_profile: match self.selected_profile {
                Some(p) => Some(p@),
                None => None,
            },
            user: match self.user {
                Some(u) => Some(u@),
                None => None,
            },
        }
    }
}

/// The authenticate payload a JSON document stands for: an object whose
/// `accessToken` and `clientToken` members are strings, whose
/// `availableProfiles` member is an array of profiles, and whose
/// `selectedProfile` and `user` members are optional.
pub open spec fn auth_response_of_json(j: Json) -> Option<AuthResponseView> {
    match j {
        Json::Obj(m) => match member_str(m, "accessToken"@) {
            Some(at) => match member_str(m, "clientToken"@) {
                Some(ct) => match obj_lookup(m, "availableProfiles"@) {
                    Some(Json::Arr(a)) => match profiles_of_json_from(a, 0) {
                        Some(aps) => match opt_profile_member(m, "selectedProfile"@) {
                            Some(sp) => match opt_user_member(m, "user"@) {
                                Some(u) => Some(
                                    AuthResponseView {
                                        access_token: at,
                                        client_token: ct,
                                        available_profiles: aps,
                                        selected_profile: sp,
                                        user: u,
                                    },
                                ),
                                None => None,
                            },
                            None => None,
                        },
                        None => None,
                    },
                    _ => None,
                },
                None => None,
            },
            None => None,
        },
        _ => None,
    }
}

/// The authenticate payload a text stands for, if it is a JSON document of
/// the expected shape.
pub open spec fn spec_auth_response_of_text(t: Seq<char>) -> Option<AuthResponseView> {
    match spec_parse_json(t) {
        Some(j) => auth_response_of_json(j),
        None => None,
    }
}

impl AuthResponse {
    /// Decodes an authenticate payload from its JSON text.
    pub fn from_json_text(t: &[char]) -> (r: Option<AuthResponse>)
        ensures
            r matches Some(resp) ==> spec_auth_response_of_text(t@) == Some(resp@),
            r is None ==> spec_auth_response_of_text(t@) is None,
    {
        let doc = match parse_json(t) {
            Some(doc) => doc,
            None => {
                return None;
            },
        };
        match &doc {
            JsonValue::Obj(m) => {
                let access_token = match get_member_string(m, "accessToken") {
                    Some(at) => at,
                    None => {
                        return None;
                    },
                };
                let client_token = match get_member_string(m, "clientToken") {
                    Some(ct) => ct,
                    None => {
                        return None;
                    },
                };
                let available_profiles = match lookup(m, "availableProfiles") {
                    Some(av) => match av {
                        JsonValue::Arr(a) => match decode_profiles_from(a, 0) {
                            Some(aps) => aps,
                            None => {
                                return None;
                            },
                        },
                        _ => {
                            return None;
                        },
                    },
                    None => {
                        return None;
                    },
                };
                let selected_profile = match decode_opt_profile_member(m, "selectedProfile") {
                    Some(sp) => sp,
                    None => {
                        return None;
                    },
                };
                let user = match decode_opt_user_member(m, "user") {
                    Some(u) => u,
                    None => {
                        return None;
                    },
                };
                Some(
                    AuthResponse {
                        access_token,
                        client_token,
                        available_profiles,
                        selected_profile,
                        user,
                    },
                )
            },
            _ => None,
        }
    }
}

} // verus!
