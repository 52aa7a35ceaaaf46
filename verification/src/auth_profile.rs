//! The profile record: a selectable account identity.

use vstd::prelude::*;
use crate::json::{quoted, push_quoted, push_lit};

verus! {

/// The mathematical model of an [`AuthProfile`].
pub struct AuthProfileView {
    pub name: Seq<char>,
    pub id: Seq<char>,
}

/// A user profile: a selectable account identity under an authenticated user.
#[derive(Debug)]
pub struct AuthProfile {
    /// The name of the authentication profile.
    pub name: String,

    /// The unique identifier for the authentication profile.
    pub id: String,
}

impl View for AuthProfile {
    type V = AuthProfileView;

    open spec fn view(&self) -> AuthProfileView {
        AuthProfileView { name: self.name@, id: self.id@ }
    }
}

impl DeepView for AuthProfile {
    type V = AuthProfileView;

    open spec fn deep_view(&self) -> AuthProfileView {
        self.view()
    }
}

/// The serialized wire form of a profile: an object with the members `name`
/// and `id`, in that order.
pub open spec fn profile_text(p: AuthProfileView) -> Seq<char> {
    "{\"name\":"@ + quoted(p.name) + ",\"id\":"@ + quoted(p.id) + "}"@
}

impl AuthProfile {
    /// Creates a new `AuthProfile` with the provided name and ID.
    pub fn new(name: String, id: String) -> (r: AuthProfile)
        ensures
            r@ == (AuthProfileView { name: name@, id: id@ }),
    {
        AuthProfile { name, id }
    }
}

/// Appends the serialized wire form of `p` to `out`.
pub fn push_profile_text(out: &mut Vec<char>, p: &AuthProfile)
    ensures
        final(out)@ == old(out)@ + profile_text(p@),
{
    push_lit(out, "{\"name\":");
    push_quoted(out, p.name.as_str());
    push_lit(out, ",\"id\":");
    push_quoted(out, p.id.as_str());
    push_lit(out, "}");
    proof {
        assert(out@ =~= old(out)@ + profile_text(p@));
    }
}

} // verus!
