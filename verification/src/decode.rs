//! Decoding typed records out of parsed JSON documents.
//!
//! The specification functions define, member by member, which documents
//! decode to which record values: a member read as a string must be a JSON
//! string, an optional member may be absent or `null`, members not named here
//! are ignored, and the first member under a repeated key is the one read.

use vstd::prelude::*;
use crate::json::{Json, JsonValue, json_view, json_views, json_member_views,
    lemma_json_views_index, lemma_json_member_views_index};
use crate::auth_profile::{AuthProfile, AuthProfileView};
use crate::auth_user::{AuthUser, AuthUserProperty, AuthUserPropertyView, AuthUserView};
use crate::auth_error::{AuthError, AuthErrorView};

verus! {

/// The value of the first member named `key` at or after position `i`.
pub open spec fn obj_lookup_from(m: Seq<(Seq<char>, Json)>, key: Seq<char>, i: int) -> Option<
    Json,
>
    decreases m.len() - i,
{
    if !(0 <= i < m.len()) {
        None
    } else if m[i].0 == key {
        Some(m[i].1)
    } else {
        obj_lookup_from(m, key, i + 1)
    }
}

/// The value of the first member named `key`, if any.
pub open spec fn obj_lookup(m: Seq<(Seq<char>, Json)>, key: Seq<char>) -> Option<Json> {
    obj_lookup_from(m, key, 0)
}

/// The text of the member named `key`: present exactly when the member exists
/// and is a JSON string.
pub open spec fn member_str(m: Seq<(Seq<char>, Json)>, key: Seq<char>) -> Option<Seq<char>> {
    match obj_lookup(m, key) {
        Some(Json::Str(t)) => Some(t),
        _ => None,
    }
}

/// The profile a JSON document stands for: an object whose `name` and `id`
/// members are strings.
pub open spec fn profile_of_json(j: Json) -> Option<AuthProfileView> {
    match j {
        Json::Obj(m) => match member_str(m, "name"@) {
            Some(n) => match member_str(m, "id"@) {
                Some(i) => Some(AuthProfileView { name: n, id: i }),
                None => None,
            },
            None => None,
        },
        _ => None,
    }
}

/// The profiles of the array elements from position `i` on: present exactly
/// when every element is a profile object.
pub open spec fn profiles_of_json_from(a: Seq<Json>, i: int) -> Option<Seq<AuthProfileView>>
    decreases a.len() - i,
{
    if !(0 <= i <= a.len()) {
        None
    } else if i == a.len() {
        Some(Seq::empty())
    } else {
        match profile_of_json(a[i]) {
            Some(p) => match profiles_of_json_from(a, i + 1) {
                Some(rest) => Some(seq![p] + rest),
                None => None,
            },
            None => None,
        }
    }
}

/// An optional profile member: absent or `null` is an absent profile, a
/// profile object is a present one, and anything else fails the decoding.
pub open spec fn opt_profile_member(m: Seq<(Seq<char>, Json)>, key: Seq<char>) -> Option<
    Option<AuthProfileView>,
> {
    match obj_lookup(m, key) {
        None => Some(None),
        Some(Json::Null) => Some(None),
        Some(j) => match profile_of_json(j) {
            Some(p) => Some(Some(p)),
            None => None,
        },
    }
}

/// The user property a JSON document stands for: an object whose `name` and
/// `value` members are strings.
pub open spec fn property_of_json(j: Json) -> Option<AuthUserPropertyView> {
    match j {
        Json::Obj(m) => match member_str(m, "name"@) {
            Some(n) => match member_str(m, "value"@) {
                Some(v) => Some(AuthUserPropertyView { name: n, value: v }),
                None => None,
            },
            None => None,
        },
        _ => None,
    }
}

/// The user properties of the array elements from position `i` on.
pub open spec fn properties_of_json_from(a: Seq<Json>, i: int) -> Option<
    Seq<AuthUserPropertyView>,
>
    decreases a.len() - i,
{
    if !(0 <= i <= a.len()) {
        None
    } else if i == a.len() {
        Some(Seq::empty())
    } else {
        match property_of_json(a[i]) {
            Some(p) => match properties_of_json_from(a, i + 1) {
                Some(rest) => Some(seq![p] + rest),
                None => None,
            },
            None => None,
        }
    }
}

/// The user a JSON document stands for: an object whose `id` member is a
/// string and whose `properties` member is an array of user properties.
pub open spec fn user_of_json(j: Json) -> Option<AuthUserView> {
    match j {
        Json::Obj(m) => match member_str(m, "id"@) {
            Some(id) => match obj_lookup(m, "properties"@) {
                Some(Json::Arr(a)) => match properties_of_json_from(a, 0) {
                    Some(ps) => Some(AuthUserView { id: id, properties: ps }),
                    None => None,
                },
                _ => None,
            },
            None => None,
        },
        _ => None,
    }
}

/// An optional user member: absent or `null` is an absent user, a user object
/// is a present one, and anything else fails the decoding.
pub open spec fn opt_user_member(m: Seq<(Seq<char>, Json)>, key: Seq<char>) -> Option<
    Option<AuthUserView>,
> {
    match obj_lookup(m, key) {
        None => Some(None),
        Some(Json::Null) => Some(None),
        Some(j) => match user_of_json(j) {
            Some(u) => Some(Some(u)),
            None => None,
        },
    }
}

/// The protocol error a JSON document stands for: an object whose `error`,
/// `errorMessage` and `cause` members are strings.
pub open spec fn auth_error_of_json(j: Json) -> Option<AuthErrorView> {
    match j {
        Json::Obj(m) => match member_str(m, "error"@) {
            Some(e) => match member_str(m, "errorMessage"@) {
                Some(msg) => match member_str(m, "cause"@) {
                    Some(c) => Some(AuthErrorView { error: e, error_message: msg, cause: c }),
                    None => None,
                },
                None => None,
            },
            None => None,
        },
        _ => None,
    }
}

/// Finds the first member named `key`.
pub fn lookup<'a>(m: &'a Vec<(String, JsonValue)>, key: &str) -> (r: Option<&'a JsonValue>)
    ensures
        r matches Some(v) ==> obj_lookup(json_member_views(m@), key@) == Some(json_view(*v)),
        r is None ==> obj_lookup(json_member_views(m@), key@) is None,
{
    let ghost mv = json_member_views(m@);
    proof {
        lemma_json_member_views_index(m@);
    }
    let key_string: String = key.to_owned();
    let mut i: usize = 0;
    while i < m.len()
        invariant
            i <= m@.len(),
            mv == json_member_views(m@),
            mv.len() == m@.len(),
            key_string@ == key@,
            forall|k: int| 0 <= k < m@.len() ==> #[trigger] mv[k] == (m@[k].0@, json_view(m@[k].1)),
            obj_lookup(mv, key@) == obj_lookup_from(mv, key@, i as int),
        decreases m@.len() - i,
    {
        let hit = m[i].0 == key_string;
        if hit {
            return Some(&m[i].1);
        }
        proof {
            assert(obj_lookup_from(mv, key@, i as int) == obj_lookup_from(mv, key@, i as int + 1));
        }
        i = i + 1;
    }
    None
}

/// Reads the member named `key` as a string.
pub fn get_member_string(m: &Vec<(String, JsonValue)>, key: &str) -> (r: Option<String>)
    ensures
        r matches Some(t) ==> member_str(json_member_views(m@), key@) == Some(t@),
        r is None ==> member_str(json_member_views(m@), key@) is None,
{
    match lookup(m, key) {
        Some(v) => match v {
            JsonValue::Str(t) => Some(t.clone()),
            _ => None,
        },
        None => None,
    }
}

/// Decodes a profile object.
pub fn decode_profile(v: &JsonValue) -> (r: Option<AuthProfile>)
    ensures
        r matches Some(p) ==> profile_of_json(json_view(*v)) == Some(p@),
        r is None ==> profile_of_json(json_view(*v)) is None,
{
    match v {
        JsonValue::Obj(m) => {
            let name = get_member_string(m, "name");
            let id = get_member_string(m, "id");
            match name {
                Some(n) => match id {
                    Some(i) => Some(AuthProfile::new(n, i)),
                    None => None,
                },
                None => None,
            }
        },
        _ => None,
    }
}

/// Decodes the elements of a profile array from position `i` on.
pub fn decode_profiles_from(a: &Vec<JsonValue>, i: usize) -> (r: Option<Vec<AuthProfile>>)
    requires
        i <= a@.len(),
    ensures
        r matches Some(ps) ==> profiles_of_json_from(json_views(a@), i as int) == Some(
            ps.deep_view(),
        ),
        r is None ==> profiles_of_json_from(json_views(a@), i as int) is None,
    decreases a@.len() - i,
{
    proof {
        lemma_json_views_index(a@);
    }
    if i == a.len() {
        let ps: Vec<AuthProfile> = Vec::new();
        proof {
            assert(ps.deep_view() =~= Seq::<AuthProfileView>::empty());
        }
        Some(ps)
    } else {
        match decode_profile(&a[i]) {
            Some(p) => match decode_profiles_from(a, i + 1) {
                Some(rest) => {
                    let ghost restdv = rest.deep_view();
                    let ghost pv = p@;
                    let ghost pe = p;
                    let mut ps = rest;
                    ps.insert(0, p);
                    proof {
                        rest@.insert_ensures(0, pe);
                        assert(ps.deep_view() =~= seq![pv] + restdv);
                    }
                    Some(ps)
                },
                None => None,
            },
            None => None,
        }
    }
}

/// Decodes a user property object.
pub fn decode_property(v: &JsonValue) -> (r: Option<AuthUserProperty>)
    ensures
        r matches Some(p) ==> property_of_json(json_view(*v)) == Some(p@),
        r is None ==> property_of_json(json_view(*v)) is None,
{
    match v {
        JsonValue::Obj(m) => {
            let name = get_member_string(m, "name");
            let value = get_member_string(m, "value");
            match name {
                Some(n) => match value {
                    Some(w) => Some(AuthUserProperty { name: n, value: w }),
                    None => None,
                },
                None => None,
            }
        },
        _ => None,
    }
}

/// Decodes the elements of a user property array from position `i` on.
pub fn decode_properties_from(a: &Vec<JsonValue>, i: usize) -> (r: Option<Vec<AuthUserProperty>>)
    requires
        i <= a@.len(),
    ensures
        r matches Some(ps) ==> properties_of_json_from(json_views(a@), i as int) == Some(
            ps.deep_view(),
        ),
        r is None ==> properties_of_json_from(json_views(a@), i as int) is None,
    decreases a@.len() - i,
{
    proof {
        lemma_json_views_index(a@);
    }
    if i == a.len() {
        let ps: Vec<AuthUserProperty> = Vec::new();
        proof {
            assert(ps.deep_view() =~= Seq::<AuthUserPropertyView>::empty());
        }
        Some(ps)
    } else {
        match decode_property(&a[i]) {
            Some(p) => match decode_properties_from(a, i + 1) {
                Some(rest) => {
                    let ghost restdv = rest.deep_view();
                    let ghost pv = p@;
                    let ghost pe = p;
                    let mut ps = rest;
                    ps.insert(0, p);
                    proof {
                        rest@.insert_ensures(0, pe);
                        assert(ps.deep_view() =~= seq![pv] + restdv);
                    }
                    Some(ps)
                },
                None => None,
            },
            None => None,
        }
    }
}

/// Decodes a user object.
pub fn decode_user(v: &JsonValue) -> (r: Option<AuthUser>)
    ensures
        r matches Some(u) ==> user_of_json(json_view(*v)) == Some(u@),
        r is None ==> user_of_json(json_view(*v)) is None,
{
    match v {
        JsonValue::Obj(m) => {
            let id = match get_member_string(m, "id") {
                Some(id) => id,
                None => {
                    return None;
                },
            };
            match lookup(m, "properties") {
                Some(pv) => match pv {
                    JsonValue::Arr(a) => match decode_properties_from(a, 0) {
                        Some(ps) => Some(AuthUser { id, properties: ps }),
                        None => None,
                    },
                    _ => None,
                },
                None => None,
            }
        },
        _ => None,
    }
}

/// Decodes an optional profile member: absent or `null` stands for no
/// profile.
pub fn decode_opt_profile_member(m: &Vec<(String, JsonValue)>, key: &str) -> (r: Option<
    Option<AuthProfile>,
>)
    ensures
        r matches Some(p) ==> opt_profile_member(json_member_views(m@), key@) == Some(
            match p {
                Some(p) => Some(p@),
                None => None,
            },
        ),
        r is None ==> opt_profile_member(json_member_views(m@), key@) is None,
{
    match lookup(m, key) {
        None => Some(None),
        Some(v) => match v {
            JsonValue::Null => Some(None),
            _ => match decode_profile(v) {
                Some(p) => Some(Some(p)),
                None => None,
            },
        },
    }
}

/// Decodes an optional user member: absent or `null` stands for no user.
pub fn decode_opt_user_member(m: &Vec<(String, JsonValue)>, key: &str) -> (r: Option<
    Option<AuthUser>,
>)
    ensures
        r matches Some(u) ==> opt_user_member(json_member_views(m@), key@) == Some(
            match u {
                Some(u) => Some(u@),
                None => None,
            },
        ),
        r is None ==> opt_user_member(json_member_views(m@), key@) is None,
{
    match lookup(m, key) {
        None => Some(None),
        Some(v) => match v {
            JsonValue::Null => Some(None),
            _ => match decode_user(v) {
                Some(u) => Some(Some(u)),
                None => None,
            },
        },
    }
}

/// Decodes a protocol error object.
pub fn decode_auth_error(v: &JsonValue) -> (r: Option<AuthError>)
    ensures
        r matches Some(e) ==> auth_error_of_json(json_view(*v)) == Some(e@),
        r is None ==> auth_error_of_json(json_view(*v)) is None,
{
    match v {
        JsonValue::Obj(m) => {
            let e = get_member_string(m, "error");
            let msg = get_member_string(m, "errorMessage");
            let c = get_member_string(m, "cause");
            match e {
                Some(e) => match msg {
                    Some(msg) => match c {
                        Some(c) => Some(AuthError::new(e, msg, c)),
                        None => None,
                    },
                    None => None,
                },
                None => None,
            }
        },
        _ => None,
    }
}

} // verus!
