//! The user record and its properties, as returned by the server.

use vstd::prelude::*;

verus! {

/// The mathematical model of an [`AuthUserProperty`].
pub struct AuthUserPropertyView {
    pub name: Seq<char>,
    pub value: Seq<char>,
}

/// One named property attached to a user.
#[derive(Debug)]
pub struct AuthUserProperty {
    /// The name of the user property.
    pub name: String,

    /// The value of the user property.
    pub value: String,
}

impl View for AuthUserProperty {
    type V = AuthUserPropertyView;

    open spec fn view(&self) -> AuthUserPropertyView {
        AuthUserPropertyView { name: self.name@, value: self.value@ }
    }
}

impl DeepView for AuthUserProperty {
    type V = AuthUserPropertyView;

    open spec fn deep_view(&self) -> AuthUserPropertyView {
        self.view()
    }
}

/// The mathematical model of an [`AuthUser`].
pub struct AuthUserView {
    pub id: Seq<char>,
    pub properties: Seq<AuthUserPropertyView>,
}

/// A user: an identifier together with an ordered list of properties.
#[derive(Debug)]
pub struct AuthUser {
    /// The unique identifier of the user.
    pub id: String,

    /// A list of properties associated with the user.
    pub properties: Vec<AuthUserProperty>,
}

impl View for AuthUser {
    type V = AuthUserView;

    open spec fn view(&self) -> AuthUserView {
        AuthUserView { id: self.id@, properties: self.properties.deep_view() }
    }
}

impl DeepView for AuthUser {
    type V = AuthUserView;

    open spec fn deep_view(&self) -> AuthUserView {
        self.view()
    }
}

} // verus!
