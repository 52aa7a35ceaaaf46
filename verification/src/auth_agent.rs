//! The agent record: identifies the application making an authentication
//! request.

use vstd::prelude::*;
use crate::json::{quoted, push_quoted, push_lit};
use crate::text::{int_text, push_int_text};

verus! {

/// The mathematical model of an [`AuthAgent`].
pub struct AuthAgentView {
    pub name: Seq<char>,
    pub version: int,
}

/// Identifies the agent (e.g. a game client) on whose behalf an
/// authentication request is made.
pub struct AuthAgent {
    /// The name of the authentication agent.
    pub name: String,

    /// The version of the authentication agent.
    pub version: i32,
}

impl View for AuthAgent {
    type V = AuthAgentView;

    open spec fn view(&self) -> AuthAgentView {
        AuthAgentView { name: self.name@, version: self.version as int }
    }
}

impl DeepView for AuthAgent {
    type V = AuthAgentView;

    open spec fn deep_view(&self) -> AuthAgentView {
        self.view()
    }
}

/// The serialized wire form of an agent: an object with the members `name`
/// and `version`, in that order.
pub open spec fn agent_text(a: AuthAgentView) -> Seq<char> {
    "{\"name\":"@ + quoted(a.name) + ",\"version\":"@ + int_text(a.version) + "}"@
}

impl AuthAgent {
    /// Creates a new `AuthAgent` with the provided name and version.
    pub fn new(name: String, version: i32) -> (r: AuthAgent)
        ensures
            r@ == (AuthAgentView { name: name@, version: version as int }),
    {
        AuthAgent { name, version }
    }
}

/// Appends the serialized wire form of `a` to `out`.
pub fn push_agent_text(out: &mut Vec<char>, a: &AuthAgent)
    ensures
        final(out)@ == old(out)@ + agent_text(a@),
{
    push_lit(out, "{\"name\":");
    push_quoted(out, a.name.as_str());
    push_lit(out, ",\"version\":");
    push_int_text(out, a.version);
    push_lit(out, "}");
    proof {
        assert(out@ =~= old(out)@ + agent_text(a@));
    }
}

} // verus!
