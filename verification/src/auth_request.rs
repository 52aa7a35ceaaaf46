//! The request record for the authenticate operation.

use vstd::prelude::*;
use crate::auth_agent::{AuthAgent, AuthAgentView, agent_text, push_agent_text};
use crate::json::{bool_text, quoted, push_quoted, push_lit, push_bool_text};
use crate::text::chars_to_string;

verus! {

/// The mathematical model of an [`AuthRequest`].
pub struct AuthRequestView {
    pub agent: AuthAgentView,
    pub username: Seq<char>,
    pub password: Seq<char>,
    pub client_token: Seq<char>,
    pub request_user: bool,
}

/// An authentication request: the agent, the user's credentials, the client
/// token, and whether user information is wanted in the response.
pub struct AuthRequest {
    agent: AuthAgent,
    username: String,
    password: String,
    client_token: String,
    request_user: bool,
}

impl View for AuthRequest {
    type V = AuthRequestView;

    closed spec fn view(&self) -> AuthRequestView {
        AuthRequestView {
            agent: self.agent@,
            username: self.username@,
            password: self.password@,
            client_token: self.client_token@,
            request_user: self.request_user,
        }
    }
}

/// The serialized wire form of an authenticate request: an object with the
/// members `agent`, `username`, `password`, `clientToken` and `requestUser`,
/// in that order.
pub open spec fn auth_request_text(r: AuthRequestView) -> Seq<char> {
    "{\"agent\":"@ + agent_text(r.agent) + ",\"username\":"@ + quoted(r.username) + ",\"password\":"@
        + quoted(r.password) + ",\"clientToken\":"@ + quoted(r.client_token) + ",\"requestUser\":"@
        + bool_text(r.request_user) + "}"@
}

impl AuthRequest {
    /// Creates a new `AuthRequest` with the provided parameters.
    pub fn new(
        agent: AuthAgent,
        username: String,
        password: String,
        client_token: String,
        request_user: bool,
    ) -> (r: AuthRequest)
        ensures
            r@ == (AuthRequestView {
                agent: agent@,
                username: username@,
                password: password@,
                client_token: client_token@,
                request_user: request_user,
            }),
    {
        AuthRequest { agent, username, password, client_token, request_user }
    }

    /// Serializes the request to its JSON wire form.
    pub fn to_json_text(&self) -> (r: String)
        ensures
            r@ == auth_request_text(self@),
    {
        let mut out: Vec<char> = Vec::new();
        push_lit(&mut out, "{\"agent\":");
        push_agent_text(&mut out, &self.agent);
        push_lit(&mut out, ",\"username\":");
        push_quoted(&mut out, self.username.as_str());
        push_lit(&mut out, ",\"password\":");
        push_quoted(&mut out, self.password.as_str());
        push_lit(&mut out, ",\"clientToken\":");
        push_quoted(&mut out, self.client_token.as_str());
        push_lit(&mut out, ",\"requestUser\":");
        push_bool_text(&mut out, self.request_user);
        push_lit(&mut out, "}");
        proof {
            assert(out@ =~= auth_request_text(self@));
        }
        chars_to_string(out.as_slice())
    }
}

} // verus!
