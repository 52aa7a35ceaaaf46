//! Wire-fidelity laws: the serialized request bodies parse back to exactly
//! the JSON objects they were meant to carry — the members named in the
//! protocol, holding the record's fields, and nothing else.

use vstd::prelude::*;
use crate::json::{Json, escape_char, escape_text, quoted};
use crate::json_parse::{is_json_ws, lemma_parse_escaped_at, spec_parse_json, spec_parse_members,
    spec_parse_value, spec_skip_ws};
use crate::validate_request::{ValidateRequestView, validate_request_text};
use crate::refresh_request::{RefreshRequestView, refresh_request_text};
use crate::invalidate_request::{InvalidateRequestView, invalidate_request_text};
use crate::signout_request::{SignoutRequestView, signout_request_text};
use crate::json::bool_text;
use crate::json_parse::{digit_val, digits_val, is_digit, spec_digits_end, spec_parse_number};
use crate::text::{dec_digits, digit_char, int_text};
use crate::auth_agent::{AuthAgentView, agent_text};
use crate::auth_request::{AuthRequestView, auth_request_text};

verus! {

/// Escaping text that holds no character in need of escaping leaves it as it
/// stands.
proof fn lemma_escape_text_plain(s: Seq<char>)
    requires
        forall|k: int| 0 <= k < s.len() ==> escape_char(#[trigger] s[k]) == seq![s[k]],
    ensures
        escape_text(s) == s,
    decreases s.len(),
{
    if s.len() > 0 {
        lemma_escape_text_plain(s.drop_last());
        assert(escape_text(s) =~= s);
    }
}

/// Parsing a value at a position where the text holds a serialized JSON
/// string yields exactly that string.
proof fn lemma_parse_quoted_at(t: Seq<char>, i: int, s: Seq<char>)
    requires
        0 <= i,
        i + quoted(s).len() <= t.len(),
        forall|k: int| i <= k < i + quoted(s).len() ==> #[trigger] t[k] == quoted(s)[k - i],
    ensures
        spec_parse_value(t, i) == Some((Json::Str(s), i + quoted(s).len())),
{
    let q = quoted(s);
    let el = escape_text(s).len() as int;
    assert(t[i] == q[0]);
    assert(q[0] == '"');
    assert forall|k: int|
        0 <= k < el implies t.subrange(i + 1, i + 1 + el)[k] == escape_text(s)[k] by {
        assert(t[i + 1 + k] == q[k + 1]);
        assert(q[k + 1] == escape_text(s)[k]);
    }
    assert(t.subrange(i + 1, i + 1 + el) =~= escape_text(s));
    assert(t[i + 1 + el] == q[el + 1]);
    assert(q[el + 1] == '"');
    lemma_parse_escaped_at(t, i + 1, s);
}

/// A serialized validate request parses back to exactly the object it is
/// meant to carry: a single `accessToken` member holding the access token.
pub proof fn lemma_validate_request_round_trip(r: ValidateRequestView)
    ensures
        spec_parse_json(validate_request_text(r)) == Some(
            Json::Obj(seq![("accessToken"@, Json::Str(r.access_token))]),
        ),
{
    let lit0 = "{\"accessToken\":"@;
    let q = quoted(r.access_token);
    let t = validate_request_text(r);
    let key = "accessToken"@;
    reveal_strlit("{\"accessToken\":");
    reveal_strlit("accessToken");
    reveal_strlit("}");
    assert(t == lit0 + q + "}"@);
    assert(t.len() == 16 + q.len());
    assert forall|k: int| 0 <= k < 15 implies #[trigger] t[k] == lit0[k] by {}
    assert forall|k: int| 15 <= k < 15 + q.len() implies #[trigger] t[k] == q[k - 15] by {}
    assert(t[15 + q.len() as int] == '}');
    // the key between the quotes is the text of "accessToken", unescaped
    assert forall|k: int| 0 <= k < key.len() implies escape_char(#[trigger] key[k]) == seq![
        key[k],
    ] by {}
    lemma_escape_text_plain(key);
    assert forall|k: int| 0 <= k < 11 implies t.subrange(2, 13)[k] == escape_text(key)[k] by {
        assert(t[2 + k] == lit0[2 + k]);
        assert(lit0[2 + k] == key[k]);
    }
    assert(t.subrange(2, 13) =~= escape_text(key));
    assert(t[13] == '"');
    lemma_parse_escaped_at(t, 2, key);
    // now walk the object grammar: brace, member, closing brace
    assert(t[0] == '{');
    assert(!is_json_ws(t[1]));
    assert(spec_skip_ws(t, 1) == 1);
    assert(t[1] == '"');
    assert(!is_json_ws(t[14]));
    assert(spec_skip_ws(t, 14) == 14);
    assert(t[14] == ':');
    assert(!is_json_ws(t[15]));
    assert(spec_skip_ws(t, 15) == 15);
    lemma_parse_quoted_at(t, 15, r.access_token);
    let j2 = 15 + q.len() as int;
    assert(!is_json_ws(t[j2]));
    assert(spec_skip_ws(t, j2) == j2);
    assert(t[j2] == '}');
    assert(spec_parse_members(t, 1) == Some(
        (seq![(key, Json::Str(r.access_token))], j2 + 1),
    ));
    assert(spec_parse_value(t, 0) == Some(
        (Json::Obj(seq![(key, Json::Str(r.access_token))]), t.len() as int),
    ));
    assert(!is_json_ws(t[0]));
    assert(spec_skip_ws(t, 0) == 0);
    assert(spec_skip_ws(t, t.len() as int) == t.len());
}

/// A serialized refresh request without a selected profile parses back to an
/// object with exactly the members `accessToken`, `clientToken` and
/// `requestUser` — no `selectedProfile` member stands in it, not even a
/// `null` one.
#[verifier::rlimit(100)]
pub proof fn lemma_refresh_request_round_trip_no_profile(r: RefreshRequestView)
    requires
        r.selected_profile is None,
    ensures
        spec_parse_json(refresh_request_text(r)) == Some(
            Json::Obj(
                seq![
                    ("accessToken"@, Json::Str(r.access_token)),
                    ("clientToken"@, Json::Str(r.client_token)),
                    ("requestUser"@, Json::Bool(r.request_user)),
                ],
            ),
        ),
{
    let lit0 = "{\"accessToken\":"@;
    let lit1 = ",\"clientToken\":"@;
    let lit2 = ",\"requestUser\":"@;
    let q1 = quoted(r.access_token);
    let q2 = quoted(r.client_token);
    let bt = bool_text(r.request_user);
    let t = refresh_request_text(r);
    let key1 = "accessToken"@;
    let key2 = "clientToken"@;
    let key3 = "requestUser"@;
    reveal_strlit("{\"accessToken\":");
    reveal_strlit(",\"clientToken\":");
    reveal_strlit(",\"requestUser\":");
    reveal_strlit("accessToken");
    reveal_strlit("clientToken");
    reveal_strlit("requestUser");
    reveal_strlit("true");
    reveal_strlit("false");
    reveal_strlit("}");
    let l1 = q1.len() as int;
    let l2 = q2.len() as int;
    let bl = bt.len() as int;
    assert(t =~= lit0 + q1 + lit1 + q2 + lit2 + bt + "}"@);
    assert(t.len() == 46 + l1 + l2 + bl);
    assert forall|k: int| 0 <= k < 15 implies #[trigger] t[k] == lit0[k] by {}
    assert forall|k: int| 15 <= k < 15 + l1 implies #[trigger] t[k] == q1[k - 15] by {}
    assert forall|k: int| 15 + l1 <= k < 30 + l1 implies #[trigger] t[k] == lit1[k - 15 - l1] by {}
    assert forall|k: int| 30 + l1 <= k < 30 + l1 + l2 implies #[trigger] t[k] == q2[k - 30
        - l1] by {}
    assert forall|k: int| 30 + l1 + l2 <= k < 45 + l1 + l2 implies #[trigger] t[k] == lit2[k - 30
        - l1 - l2] by {}
    assert forall|k: int| 45 + l1 + l2 <= k < 45 + l1 + l2 + bl implies #[trigger] t[k] == bt[k
        - 45 - l1 - l2] by {}
    assert(t[45 + l1 + l2 + bl] == '}');
    // first member: the accessToken key and its string value
    assert forall|k: int| 0 <= k < key1.len() implies escape_char(#[trigger] key1[k]) == seq![
        key1[k],
    ] by {}
    lemma_escape_text_plain(key1);
    assert forall|k: int| 0 <= k < 11 implies t.subrange(2, 13)[k] == escape_text(key1)[k] by {
        assert(t[2 + k] == lit0[2 + k]);
        assert(lit0[2 + k] == key1[k]);
    }
    assert(t.subrange(2, 13) =~= escape_text(key1));
    assert(t[13] == '"');
    lemma_parse_escaped_at(t, 2, key1);
    assert(t[14] == ':');
    lemma_parse_quoted_at(t, 15, r.access_token);
    // second member: the clientToken key and its string value
    assert forall|k: int| 0 <= k < key2.len() implies escape_char(#[trigger] key2[k]) == seq![
        key2[k],
    ] by {}
    lemma_escape_text_plain(key2);
    assert forall|k: int|
        0 <= k < 11 implies t.subrange(17 + l1, 28 + l1)[k] == escape_text(key2)[k] by {
        assert(t[17 + l1 + k] == lit1[2 + k]);
        assert(lit1[2 + k] == key2[k]);
    }
    assert(t.subrange(17 + l1, 28 + l1) =~= escape_text(key2));
    assert(t[28 + l1] == '"');
    lemma_parse_escaped_at(t, 17 + l1, key2);
    assert(t[29 + l1] == ':');
    lemma_parse_quoted_at(t, 30 + l1, r.client_token);
    // third member: the requestUser key and its boolean value
    assert forall|k: int| 0 <= k < key3.len() implies escape_char(#[trigger] key3[k]) == seq![
        key3[k],
    ] by {}
    lemma_escape_text_plain(key3);
    assert forall|k: int|
        0 <= k < 11 implies t.subrange(32 + l1 + l2, 43 + l1 + l2)[k] == escape_text(key3)[k] by {
        assert(t[32 + l1 + l2 + k] == lit2[2 + k]);
        assert(lit2[2 + k] == key3[k]);
    }
    assert(t.subrange(32 + l1 + l2, 43 + l1 + l2) =~= escape_text(key3));
    assert(t[43 + l1 + l2] == '"');
    lemma_parse_escaped_at(t, 32 + l1 + l2, key3);
    assert(t[44 + l1 + l2] == ':');
    let b0 = 45 + l1 + l2;
    if r.request_user {
        assert(t[b0] == 't' && t[b0 + 1] == 'r' && t[b0 + 2] == 'u' && t[b0 + 3] == 'e');
        assert(spec_parse_value(t, b0) == Some((Json::Bool(true), b0 + 4)));
    } else {
        assert(t[b0] == 'f' && t[b0 + 1] == 'a' && t[b0 + 2] == 'l' && t[b0 + 3] == 's' && t[b0
            + 4] == 'e');
        assert(spec_parse_value(t, b0) == Some((Json::Bool(false), b0 + 5)));
    }
    assert(spec_parse_value(t, b0) == Some((Json::Bool(r.request_user), b0 + bl)));
    // walk the members from the back to the front
    let e = b0 + bl;
    assert(!is_json_ws(t[e]));
    assert(spec_skip_ws(t, e) == e);
    assert(t[e] == '}');
    assert(!is_json_ws(t[44 + l1 + l2]) && spec_skip_ws(t, 44 + l1 + l2) == 44 + l1 + l2);
    assert(!is_json_ws(t[b0]) && spec_skip_ws(t, b0) == b0);
    assert(t[31 + l1 + l2] == '"');
    assert(spec_parse_members(t, 31 + l1 + l2) == Some(
        (seq![(key3, Json::Bool(r.request_user))], e + 1),
    ));
    assert(!is_json_ws(t[30 + l1 + l2]) && spec_skip_ws(t, 30 + l1 + l2) == 30 + l1 + l2);
    assert(t[30 + l1 + l2] == ',');
    assert(!is_json_ws(t[29 + l1]) && spec_skip_ws(t, 29 + l1) == 29 + l1);
    assert(!is_json_ws(t[30 + l1]) && spec_skip_ws(t, 30 + l1) == 30 + l1);
    assert(t[16 + l1] == '"');
    assert(seq![(key2, Json::Str(r.client_token))] + seq![(key3, Json::Bool(r.request_user))]
        =~= seq![(key2, Json::Str(r.client_token)), (key3, Json::Bool(r.request_user))]);
    assert(spec_parse_members(t, 16 + l1) == Some(
        (
            seq![(key2, Json::Str(r.client_token)), (key3, Json::Bool(r.request_user))],
            e + 1,
        ),
    ));
    assert(!is_json_ws(t[15 + l1]) && spec_skip_ws(t, 15 + l1) == 15 + l1);
    assert(t[15 + l1] == ',');
    assert(!is_json_ws(t[14]) && spec_skip_ws(t, 14) == 14);
    assert(!is_json_ws(t[15]) && spec_skip_ws(t, 15) == 15);
    assert(t[1] == '"');
    assert(seq![(key1, Json::Str(r.access_token))] + seq![
        (key2, Json::Str(r.client_token)),
        (key3, Json::Bool(r.request_user)),
    ] =~= seq![
        (key1, Json::Str(r.access_token)),
        (key2, Json::Str(r.client_token)),
        (key3, Json::Bool(r.request_user)),
    ]);
    assert(spec_parse_members(t, 1) == Some(
        (
            seq![
                (key1, Json::Str(r.access_token)),
                (key2, Json::Str(r.client_token)),
                (key3, Json::Bool(r.request_user)),
            ],
            e + 1,
        ),
    ));
    assert(t[0] == '{');
    assert(!is_json_ws(t[1]) && spec_skip_ws(t, 1) == 1);
    assert(spec_parse_value(t, 0) == Some(
        (
            Json::Obj(
                seq![
                    (key1, Json::Str(r.access_token)),
                    (key2, Json::Str(r.client_token)),
                    (key3, Json::Bool(r.request_user)),
                ],
            ),
            t.len() as int,
        ),
    ));
    assert(!is_json_ws(t[0]) && spec_skip_ws(t, 0) == 0);
    assert(spec_skip_ws(t, t.len() as int) == t.len());
}

/// A serialized invalidate request parses back to exactly the object it is
/// meant to carry: the members `accessToken` and `clientToken`.
#[verifier::rlimit(50)]
pub proof fn lemma_invalidate_request_round_trip(r: InvalidateRequestView)
    ensures
        spec_parse_json(invalidate_request_text(r)) == Some(
            Json::Obj(
                seq![
                    ("accessToken"@, Json::Str(r.access_token)),
                    ("clientToken"@, Json::Str(r.client_token)),
                ],
            ),
        ),
{
    let lit0 = "{\"accessToken\":"@;
    let lit1 = ",\"clientToken\":"@;
    let q1 = quoted(r.access_token);
    let q2 = quoted(r.client_token);
    let t = invalidate_request_text(r);
    let key1 = "accessToken"@;
    let key2 = "clientToken"@;
    reveal_strlit("{\"accessToken\":");
    reveal_strlit(",\"clientToken\":");
    reveal_strlit("accessToken");
    reveal_strlit("clientToken");
    reveal_strlit("}");
    let l1 = q1.len() as int;
    let l2 = q2.len() as int;
    assert(t =~= lit0 + q1 + lit1 + q2 + "}"@);
    assert(t.len() == 31 + l1 + l2);
    assert forall|k: int| 0 <= k < 15 implies #[trigger] t[k] == lit0[k] by {}
    assert forall|k: int| 15 <= k < 15 + l1 implies #[trigger] t[k] == q1[k - 15] by {}
    assert forall|k: int| 15 + l1 <= k < 30 + l1 implies #[trigger] t[k] == lit1[k - 15 - l1] by {}
    assert forall|k: int| 30 + l1 <= k < 30 + l1 + l2 implies #[trigger] t[k] == q2[k - 30
        - l1] by {}
    assert(t[30 + l1 + l2] == '}');
    assert forall|k: int| 0 <= k < key1.len() implies escape_char(#[trigger] key1[k]) == seq![
        key1[k],
    ] by {}
    lemma_escape_text_plain(key1);
    assert forall|k: int| 0 <= k < 11 implies t.subrange(2, 13)[k] == escape_text(key1)[k] by {
        assert(t[2 + k] == lit0[2 + k]);
        assert(lit0[2 + k] == key1[k]);
    }
    assert(t.subrange(2, 13) =~= escape_text(key1));
    assert(t[13] == '"');
    lemma_parse_escaped_at(t, 2, key1);
    assert(t[14] == ':');
    lemma_parse_quoted_at(t, 15, r.access_token);
    assert forall|k: int| 0 <= k < key2.len() implies escape_char(#[trigger] key2[k]) == seq![
        key2[k],
    ] by {}
    lemma_escape_text_plain(key2);
    assert forall|k: int|
        0 <= k < 11 implies t.subrange(17 + l1, 28 + l1)[k] == escape_text(key2)[k] by {
        assert(t[17 + l1 + k] == lit1[2 + k]);
        assert(lit1[2 + k] == key2[k]);
    }
    assert(t.subrange(17 + l1, 28 + l1) =~= escape_text(key2));
    assert(t[28 + l1] == '"');
    lemma_parse_escaped_at(t, 17 + l1, key2);
    assert(t[29 + l1] == ':');
    lemma_parse_quoted_at(t, 30 + l1, r.client_token);
    let e = 30 + l1 + l2;
    assert(!is_json_ws(t[e]) && spec_skip_ws(t, e) == e);
    assert(!is_json_ws(t[29 + l1]) && spec_skip_ws(t, 29 + l1) == 29 + l1);
    assert(!is_json_ws(t[30 + l1]) && spec_skip_ws(t, 30 + l1) == 30 + l1);
    assert(t[16 + l1] == '"');
    assert(spec_parse_members(t, 16 + l1) == Some(
        (seq![(key2, Json::Str(r.client_token))], e + 1),
    ));
    assert(!is_json_ws(t[15 + l1]) && spec_skip_ws(t, 15 + l1) == 15 + l1);
    assert(t[15 + l1] == ',');
    assert(!is_json_ws(t[14]) && spec_skip_ws(t, 14) == 14);
    assert(!is_json_ws(t[15]) && spec_skip_ws(t, 15) == 15);
    assert(t[1] == '"');
    assert(seq![(key1, Json::Str(r.access_token))] + seq![(key2, Json::Str(r.client_token))]
        =~= seq![(key1, Json::Str(r.access_token)), (key2, Json::Str(r.client_token))]);
    assert(spec_parse_members(t, 1) == Some(
        (
            seq![(key1, Json::Str(r.access_token)), (key2, Json::Str(r.client_token))],
            e + 1,
        ),
    ));
    assert(t[0] == '{');
    assert(!is_json_ws(t[1]) && spec_skip_ws(t, 1) == 1);
    assert(spec_parse_value(t, 0) == Some(
        (
            Json::Obj(
                seq![(key1, Json::Str(r.access_token)), (key2, Json::Str(r.client_token))],
            ),
            t.len() as int,
        ),
    ));
    assert(!is_json_ws(t[0]) && spec_skip_ws(t, 0) == 0);
    assert(spec_skip_ws(t, t.len() as int) == t.len());
}

/// A serialized signout request parses back to exactly the object it is
/// meant to carry: the members `username` and `password`.
#[verifier::rlimit(50)]
pub proof fn lemma_signout_request_round_trip(r: SignoutRequestView)
    ensures
        spec_parse_json(signout_request_text(r)) == Some(
            Json::Obj(
                seq![("username"@, Json::Str(r.username)), ("password"@, Json::Str(r.password))],
            ),
        ),
{
    let lit0 = "{\"username\":"@;
    let lit1 = ",\"password\":"@;
    let q1 = quoted(r.username);
    let q2 = quoted(r.password);
    let t = signout_request_text(r);
    let key1 = "username"@;
    let key2 = "password"@;
    reveal_strlit("{\"username\":");
    reveal_strlit(",\"password\":");
    reveal_strlit("username");
    reveal_strlit("password");
    reveal_strlit("}");
    let l1 = q1.len() as int;
    let l2 = q2.len() as int;
    assert(t =~= lit0 + q1 + lit1 + q2 + "}"@);
    assert(t.len() == 25 + l1 + l2);
    assert forall|k: int| 0 <= k < 12 implies #[trigger] t[k] == lit0[k] by {}
    assert forall|k: int| 12 <= k < 12 + l1 implies #[trigger] t[k] == q1[k - 12] by {}
    assert forall|k: int| 12 + l1 <= k < 24 + l1 implies #[trigger] t[k] == lit1[k - 12 - l1] by {}
    assert forall|k: int| 24 + l1 <= k < 24 + l1 + l2 implies #[trigger] t[k] == q2[k - 24
        - l1] by {}
    assert(t[24 + l1 + l2] == '}');
    assert forall|k: int| 0 <= k < key1.len() implies escape_char(#[trigger] key1[k]) == seq![
        key1[k],
    ] by {}
    lemma_escape_text_plain(key1);
    assert forall|k: int| 0 <= k < 8 implies t.subrange(2, 10)[k] == escape_text(key1)[k] by {
        assert(t[2 + k] == lit0[2 + k]);
        assert(lit0[2 + k] == key1[k]);
    }
    assert(t.subrange(2, 10) =~= escape_text(key1));
    assert(t[10] == '"');
    lemma_parse_escaped_at(t, 2, key1);
    assert(t[11] == ':');
    lemma_parse_quoted_at(t, 12, r.username);
    assert forall|k: int| 0 <= k < key2.len() implies escape_char(#[trigger] key2[k]) == seq![
        key2[k],
    ] by {}
    lemma_escape_text_plain(key2);
    assert forall|k: int|
        0 <= k < 8 implies t.subrange(14 + l1, 22 + l1)[k] == escape_text(key2)[k] by {
        assert(t[14 + l1 + k] == lit1[2 + k]);
        assert(lit1[2 + k] == key2[k]);
    }
    assert(t.subrange(14 + l1, 22 + l1) =~= escape_text(key2));
    assert(t[22 + l1] == '"');
    lemma_parse_escaped_at(t, 14 + l1, key2);
    assert(t[23 + l1] == ':');
    lemma_parse_quoted_at(t, 24 + l1, r.password);
    let e = 24 + l1 + l2;
    assert(!is_json_ws(t[e]) && spec_skip_ws(t, e) == e);
    assert(!is_json_ws(t[23 + l1]) && spec_skip_ws(t, 23 + l1) == 23 + l1);
    assert(!is_json_ws(t[24 + l1]) && spec_skip_ws(t, 24 + l1) == 24 + l1);
    assert(t[13 + l1] == '"');
    assert(spec_parse_members(t, 13 + l1) == Some((seq![(key2, Json::Str(r.password))], e + 1)));
    assert(!is_json_ws(t[12 + l1]) && spec_skip_ws(t, 12 + l1) == 12 + l1);
    assert(t[12 + l1] == ',');
    assert(!is_json_ws(t[11]) && spec_skip_ws(t, 11) == 11);
    assert(!is_json_ws(t[12]) && spec_skip_ws(t, 12) == 12);
    assert(t[1] == '"');
    assert(seq![(key1, Json::Str(r.username))] + seq![(key2, Json::Str(r.password))] =~= seq![
        (key1, Json::Str(r.username)),
        (key2, Json::Str(r.password)),
    ]);
    assert(spec_parse_members(t, 1) == Some(
        (seq![(key1, Json::Str(r.username)), (key2, Json::Str(r.password))], e + 1),
    ));
    assert(t[0] == '{');
    assert(!is_json_ws(t[1]) && spec_skip_ws(t, 1) == 1);
    assert(spec_parse_value(t, 0) == Some(
        (
            Json::Obj(seq![(key1, Json::Str(r.username)), (key2, Json::Str(r.password))]),
            t.len() as int,
        ),
    ));
    assert(!is_json_ws(t[0]) && spec_skip_ws(t, 0) == 0);
    assert(spec_skip_ws(t, t.len() as int) == t.len());
}

proof fn lemma_digit_char_val(d: int)
    requires
        0 <= d < 10,
    ensures
        is_digit(digit_char(d)),
        digit_val(digit_char(d)) == d,
{
}

/// The decimal rendering of `n` is one or more digit characters, and begins
/// with a zero only for the value zero itself.
proof fn lemma_dec_digits_chars(n: nat)
    ensures
        dec_digits(n).len() >= 1,
        forall|k: int| 0 <= k < dec_digits(n).len() ==> is_digit(#[trigger] dec_digits(n)[k]),
        digit_val(dec_digits(n)[0]) == 0 ==> n == 0,
        n < 10 <==> dec_digits(n).len() == 1,
    decreases n,
{
    if n < 10 {
        lemma_digit_char_val(n as int);
    } else {
        lemma_dec_digits_chars(n / 10);
        lemma_digit_char_val((n % 10) as int);
        assert(dec_digits(n) == dec_digits(n / 10).push(digit_char((n % 10) as int)));
        assert(dec_digits(n)[0] == dec_digits(n / 10)[0]);
    }
}

/// A text that carries the decimal rendering of `n` evaluates, as a digit
/// run, to `n`.
proof fn lemma_digits_val_of_dec_digits(t: Seq<char>, i: int, n: nat)
    requires
        0 <= i,
        i + dec_digits(n).len() <= t.len(),
        forall|k: int| i <= k < i + dec_digits(n).len() ==> #[trigger] t[k] == dec_digits(n)[k
            - i],
    ensures
        digits_val(t, i, i + dec_digits(n).len()) == n,
    decreases n,
{
    let d = dec_digits(n);
    if n < 10 {
        lemma_digit_char_val(n as int);
        assert(t[i] == d[0]);
        assert(digits_val(t, i, i + 1) == digits_val(t, i, i) * 10 + digit_val(t[i]));
    } else {
        let p = dec_digits(n / 10);
        assert(d == p.push(digit_char((n % 10) as int)));
        assert forall|k: int| i <= k < i + p.len() implies #[trigger] t[k] == p[k - i] by {
            assert(t[k] == d[k - i]);
            assert(d[k - i] == p[k - i]);
        }
        lemma_digits_val_of_dec_digits(t, i, n / 10);
        lemma_digit_char_val((n % 10) as int);
        assert(t[i + d.len() - 1] == d[d.len() - 1]);
        assert(d[d.len() - 1] == digit_char((n % 10) as int));
        assert(digits_val(t, i, i + d.len()) == digits_val(t, i, i + d.len() - 1) * 10
            + digit_val(t[i + d.len() - 1]));
    }
}

/// A digit run flanked on the right by something that is no digit ends
/// exactly there.
proof fn lemma_digits_end_at(t: Seq<char>, i: int, j: int)
    requires
        0 <= i <= j <= t.len(),
        forall|k: int| i <= k < j ==> is_digit(#[trigger] t[k]),
        j == t.len() || !is_digit(t[j]),
    ensures
        spec_digits_end(t, i) == j,
    decreases j - i,
{
    if i < j {
        lemma_digits_end_at(t, i + 1, j);
    }
}

/// Parsing a value at a position where the text holds the decimal rendering
/// of `v`, followed by something that continues no number, yields exactly the
/// integer `v`.
proof fn lemma_parse_int_at(t: Seq<char>, i: int, v: int)
    requires
        0 <= i,
        i64::MIN <= v <= i64::MAX,
        i + int_text(v).len() < t.len(),
        forall|k: int| i <= k < i + int_text(v).len() ==> #[trigger] t[k] == int_text(v)[k - i],
        !is_digit(t[i + int_text(v).len()]),
        t[i + int_text(v).len()] != '.',
        t[i + int_text(v).len()] != 'e',
        t[i + int_text(v).len()] != 'E',
    ensures
        spec_parse_value(t, i) == Some((Json::Int(v), i + int_text(v).len())),
{
    let e = i + int_text(v).len() as int;
    if v < 0 {
        let n = (-v) as nat;
        let d = dec_digits(n);
        assert(int_text(v) == seq!['-'] + d);
        assert(t[i] == '-');
        lemma_dec_digits_chars(n);
        assert forall|k: int| i + 1 <= k < i + 1 + d.len() implies #[trigger] t[k] == d[k - i
            - 1] by {
            assert(t[k] == int_text(v)[k - i]);
            assert(int_text(v)[k - i] == d[k - i - 1]);
        }
        assert forall|k: int| i + 1 <= k < e implies is_digit(#[trigger] t[k]) by {
            assert(t[k] == d[k - i - 1]);
        }
        lemma_digits_end_at(t, i + 1, e);
        lemma_digits_val_of_dec_digits(t, i + 1, n);
        assert(digit_val(t[i + 1]) == 0 ==> n == 0);
        assert(spec_parse_number(t, i) == Some((v, e)));
    } else {
        let n = v as nat;
        let d = dec_digits(n);
        assert(int_text(v) == d);
        lemma_dec_digits_chars(n);
        assert forall|k: int| i <= k < e implies is_digit(#[trigger] t[k]) by {
            assert(t[k] == d[k - i]);
        }
        assert(t[i] == d[0]);
        lemma_digits_end_at(t, i, e);
        lemma_digits_val_of_dec_digits(t, i, n);
        assert(digit_val(t[i]) == 0 ==> n == 0);
        assert(t[i] != '-');
        assert(spec_parse_number(t, i) == Some((v, e)));
    }
}

/// Parsing a value at a position where the text holds the serialized wire
/// form of an agent yields exactly that agent's object.
#[verifier::rlimit(50)]
proof fn lemma_parse_agent_at(t: Seq<char>, i: int, a: AuthAgentView)
    requires
        0 <= i,
        i64::MIN <= a.version <= i64::MAX,
        i + agent_text(a).len() < t.len(),
        forall|k: int| i <= k < i + agent_text(a).len() ==> #[trigger] t[k] == agent_text(a)[k
            - i],
    ensures
        spec_parse_value(t, i) == Some(
            (
                Json::Obj(
                    seq![("name"@, Json::Str(a.name)), ("version"@, Json::Int(a.version))],
                ),
                i + agent_text(a).len(),
            ),
        ),
{
    let lit0 = "{\"name\":"@;
    let lit1 = ",\"version\":"@;
    let q = quoted(a.name);
    let it = int_text(a.version);
    let g = agent_text(a);
    let key1 = "name"@;
    let key2 = "version"@;
    reveal_strlit("{\"name\":");
    reveal_strlit(",\"version\":");
    reveal_strlit("name");
    reveal_strlit("version");
    reveal_strlit("}");
    let lq = q.len() as int;
    let il = it.len() as int;
    assert(g =~= lit0 + q + lit1 + it + "}"@);
    assert(g.len() == 20 + lq + il);
    assert forall|k: int| i <= k < i + 8 implies #[trigger] t[k] == lit0[k - i] by {
        assert(t[k] == g[k - i]);
    }
    assert forall|k: int| i + 8 <= k < i + 8 + lq implies #[trigger] t[k] == q[k - i - 8] by {
        assert(t[k] == g[k - i]);
    }
    assert forall|k: int| i + 8 + lq <= k < i + 19 + lq implies #[trigger] t[k] == lit1[k - i - 8
        - lq] by {
        assert(t[k] == g[k - i]);
    }
    assert forall|k: int| i + 19 + lq <= k < i + 19 + lq + il implies #[trigger] t[k] == it[k - i
        - 19 - lq] by {
        assert(t[k] == g[k - i]);
    }
    assert(t[i + 19 + lq + il] == '}');
    // the name member
    assert forall|k: int| 0 <= k < key1.len() implies escape_char(#[trigger] key1[k]) == seq![
        key1[k],
    ] by {}
    lemma_escape_text_plain(key1);
    assert forall|k: int|
        0 <= k < 4 implies t.subrange(i + 2, i + 6)[k] == escape_text(key1)[k] by {
        assert(t[i + 2 + k] == lit0[2 + k]);
        assert(lit0[2 + k] == key1[k]);
    }
    assert(t.subrange(i + 2, i + 6) =~= escape_text(key1));
    assert(t[i + 6] == '"');
    lemma_parse_escaped_at(t, i + 2, key1);
    assert(t[i + 7] == ':');
    lemma_parse_quoted_at(t, i + 8, a.name);
    // the version member
    assert forall|k: int| 0 <= k < key2.len() implies escape_char(#[trigger] key2[k]) == seq![
        key2[k],
    ] by {}
    lemma_escape_text_plain(key2);
    assert forall|k: int|
        0 <= k < 7 implies t.subrange(i + 10 + lq, i + 17 + lq)[k] == escape_text(key2)[k] by {
        assert(t[i + 10 + lq + k] == lit1[2 + k]);
        assert(lit1[2 + k] == key2[k]);
    }
    assert(t.subrange(i + 10 + lq, i + 17 + lq) =~= escape_text(key2));
    assert(t[i + 17 + lq] == '"');
    lemma_parse_escaped_at(t, i + 10 + lq, key2);
    assert(t[i + 18 + lq] == ':');
    lemma_parse_int_at(t, i + 19 + lq, a.version);
    // walk the object grammar
    let e = i + 19 + lq + il;
    assert(!is_json_ws(t[e]) && spec_skip_ws(t, e) == e);
    assert(!is_json_ws(t[i + 18 + lq]) && spec_skip_ws(t, i + 18 + lq) == i + 18 + lq);
    assert(!is_json_ws(t[i + 19 + lq]) && spec_skip_ws(t, i + 19 + lq) == i + 19 + lq);
    assert(t[i + 9 + lq] == '"');
    assert(spec_parse_members(t, i + 9 + lq) == Some(
        (seq![(key2, Json::Int(a.version))], e + 1),
    ));
    assert(!is_json_ws(t[i + 8 + lq]) && spec_skip_ws(t, i + 8 + lq) == i + 8 + lq);
    assert(t[i + 8 + lq] == ',');
    assert(!is_json_ws(t[i + 7]) && spec_skip_ws(t, i + 7) == i + 7);
    assert(!is_json_ws(t[i + 8]) && spec_skip_ws(t, i + 8) == i + 8);
    assert(t[i + 1] == '"');
    assert(seq![(key1, Json::Str(a.name))] + seq![(key2, Json::Int(a.version))] =~= seq![
        (key1, Json::Str(a.name)),
        (key2, Json::Int(a.version)),
    ]);
    assert(spec_parse_members(t, i + 1) == Some(
        (seq![(key1, Json::Str(a.name)), (key2, Json::Int(a.version))], e + 1),
    ));
    assert(t[i] == '{');
    assert(!is_json_ws(t[i + 1]) && spec_skip_ws(t, i + 1) == i + 1);
    assert(spec_parse_value(t, i) == Some(
        (
            Json::Obj(seq![(key1, Json::Str(a.name)), (key2, Json::Int(a.version))]),
            e + 1,
        ),
    ));
}

#[verifier::rlimit(100)]
proof fn lemma_auth_request_tail(
    t: Seq<char>,
    b: int,
    username: Seq<char>,
    password: Seq<char>,
    client_token: Seq<char>,
    request_user: bool,
)
    requires
        0 <= b,
        t.len() == b + 55 + quoted(username).len() + quoted(password).len() + quoted(
            client_token,
        ).len() + bool_text(request_user).len(),
        forall|k: int| b <= k < b + 12 ==> #[trigger] t[k] == ",\"username\":"@[k - b],
        forall|k: int| b + 12 <= k < b + 12 + quoted(username).len() ==> #[trigger] t[k] == quoted(
            username,
        )[k - b - 12],
        forall|k: int| b + 12 + quoted(username).len() <= k < b + 24 + quoted(username).len()
            ==> #[trigger] t[k] == ",\"password\":"@[k - b - 12 - quoted(username).len()],
        forall|k: int| b + 24 + quoted(username).len() <= k < b + 24 + quoted(username).len()
            + quoted(password).len() ==> #[trigger] t[k] == quoted(password)[k - b - 24 - quoted(
            username,
        ).len()],
        forall|k: int| b + 24 + quoted(username).len() + quoted(password).len() <= k < b + 39
            + quoted(username).len() + quoted(password).len() ==> #[trigger] t[k]
            == ",\"clientToken\":"@[k - b - 24 - quoted(username).len() - quoted(password).len()],
        forall|k: int| b + 39 + quoted(username).len() + quoted(password).len() <= k < b + 39
            + quoted(username).len() + quoted(password).len() + quoted(client_token).len()
            ==> #[trigger] t[k] == quoted(client_token)[k - b - 39 - quoted(username).len()
            - quoted(password).len()],
        forall|k: int| b + 39 + quoted(username).len() + quoted(password).len() + quoted(
            client_token,
        ).len() <= k < b + 54 + quoted(username).len() + quoted(password).len() + quoted(
            client_token,
        ).len() ==> #[trigger] t[k] == ",\"requestUser\":"@[k - b - 39 - quoted(username).len()
            - quoted(password).len() - quoted(client_token).len()],
        forall|k: int| b + 54 + quoted(username).len() + quoted(password).len() + quoted(
            client_token,
        ).len() <= k < b + 54 + quoted(username).len() + quoted(password).len() + quoted(
            client_token,
        ).len() + bool_text(request_user).len() ==> #[trigger] t[k] == bool_text(request_user)[k
            - b - 54 - quoted(username).len() - quoted(password).len() - quoted(
            client_token,
        ).len()],
        t[t.len() - 1] == '}',
    ensures
        spec_parse_members(t, b + 1) == Some(
            (
                seq![
                    ("username"@, Json::Str(username)),
                    ("password"@, Json::Str(password)),
                    ("clientToken"@, Json::Str(client_token)),
                    ("requestUser"@, Json::Bool(request_user)),
                ],
                t.len() as int,
            ),
        ),
{
    let key2 = "username"@;
    let key3 = "password"@;
    let key4 = "clientToken"@;
    let key5 = "requestUser"@;
    let lit1 = ",\"username\":"@;
    let lit2 = ",\"password\":"@;
    let lit3 = ",\"clientToken\":"@;
    let lit4 = ",\"requestUser\":"@;
    let bt = bool_text(request_user);
    reveal_strlit(",\"username\":");
    reveal_strlit(",\"password\":");
    reveal_strlit(",\"clientToken\":");
    reveal_strlit(",\"requestUser\":");
    reveal_strlit("username");
    reveal_strlit("password");
    reveal_strlit("clientToken");
    reveal_strlit("requestUser");
    reveal_strlit("true");
    reveal_strlit("false");
    let l1 = quoted(username).len() as int;
    let l2 = quoted(password).len() as int;
    let l3 = quoted(client_token).len() as int;
    let bl = bt.len() as int;
    // the username member
    assert forall|k: int| 0 <= k < key2.len() implies escape_char(#[trigger] key2[k]) == seq![
        key2[k],
    ] by {}
    lemma_escape_text_plain(key2);
    assert forall|k: int|
        0 <= k < 8 implies t.subrange(b + 2, b + 10)[k] == escape_text(key2)[k] by {
        assert(t[b + 2 + k] == lit1[2 + k]);
        assert(lit1[2 + k] == key2[k]);
    }
    assert(t.subrange(b + 2, b + 10) =~= escape_text(key2));
    assert(t[b + 10] == '"');
    lemma_parse_escaped_at(t, b + 2, key2);
    assert(t[b + 11] == ':');
    lemma_parse_quoted_at(t, b + 12, username);
    // the password member
    assert forall|k: int| 0 <= k < key3.len() implies escape_char(#[trigger] key3[k]) == seq![
        key3[k],
    ] by {}
    lemma_escape_text_plain(key3);
    assert forall|k: int|
        0 <= k < 8 implies t.subrange(b + 14 + l1, b + 22 + l1)[k] == escape_text(key3)[k] by {
        assert(t[b + 14 + l1 + k] == lit2[2 + k]);
        assert(lit2[2 + k] == key3[k]);
    }
    assert(t.subrange(b + 14 + l1, b + 22 + l1) =~= escape_text(key3));
    assert(t[b + 22 + l1] == '"');
    lemma_parse_escaped_at(t, b + 14 + l1, key3);
    assert(t[b + 23 + l1] == ':');
    lemma_parse_quoted_at(t, b + 24 + l1, password);
    // the clientToken member
    assert forall|k: int| 0 <= k < key4.len() implies escape_char(#[trigger] key4[k]) == seq![
        key4[k],
    ] by {}
    lemma_escape_text_plain(key4);
    assert forall|k: int|
        0 <= k < 11 implies t.subrange(b + 26 + l1 + l2, b + 37 + l1 + l2)[k] == escape_text(
            key4,
        )[k] by {
        assert(t[b + 26 + l1 + l2 + k] == lit3[2 + k]);
        assert(lit3[2 + k] == key4[k]);
    }
    assert(t.subrange(b + 26 + l1 + l2, b + 37 + l1 + l2) =~= escape_text(key4));
    assert(t[b + 37 + l1 + l2] == '"');
    lemma_parse_escaped_at(t, b + 26 + l1 + l2, key4);
    assert(t[b + 38 + l1 + l2] == ':');
    lemma_parse_quoted_at(t, b + 39 + l1 + l2, client_token);
    // the requestUser member
    assert forall|k: int| 0 <= k < key5.len() implies escape_char(#[trigger] key5[k]) == seq![
        key5[k],
    ] by {}
    lemma_escape_text_plain(key5);
    assert forall|k: int|
        0 <= k < 11 implies t.subrange(b + 41 + l1 + l2 + l3, b + 52 + l1 + l2 + l3)[k]
            == escape_text(key5)[k] by {
        assert(t[b + 41 + l1 + l2 + l3 + k] == lit4[2 + k]);
        assert(lit4[2 + k] == key5[k]);
    }
    assert(t.subrange(b + 41 + l1 + l2 + l3, b + 52 + l1 + l2 + l3) =~= escape_text(key5));
    assert(t[b + 52 + l1 + l2 + l3] == '"');
    lemma_parse_escaped_at(t, b + 41 + l1 + l2 + l3, key5);
    assert(t[b + 53 + l1 + l2 + l3] == ':');
    let b0 = b + 54 + l1 + l2 + l3;
    if request_user {
        assert(t[b0] == 't' && t[b0 + 1] == 'r' && t[b0 + 2] == 'u' && t[b0 + 3] == 'e');
        assert(spec_parse_value(t, b0) == Some((Json::Bool(true), b0 + 4)));
    } else {
        assert(t[b0] == 'f' && t[b0 + 1] == 'a' && t[b0 + 2] == 'l' && t[b0 + 3] == 's' && t[b0
            + 4] == 'e');
        assert(spec_parse_value(t, b0) == Some((Json::Bool(false), b0 + 5)));
    }
    assert(spec_parse_value(t, b0) == Some((Json::Bool(request_user), b0 + bl)));
    // walk the members from the back to the front
    let e = b0 + bl;
    assert(!is_json_ws(t[e]) && spec_skip_ws(t, e) == e);
    assert(t[e] == '}');
    assert(!is_json_ws(t[b + 53 + l1 + l2 + l3]) && spec_skip_ws(t, b + 53 + l1 + l2 + l3) == b
        + 53 + l1 + l2 + l3);
    assert(!is_json_ws(t[b0]) && spec_skip_ws(t, b0) == b0);
    assert(t[b + 40 + l1 + l2 + l3] == '"');
    assert(spec_parse_members(t, b + 40 + l1 + l2 + l3) == Some(
        (seq![(key5, Json::Bool(request_user))], e + 1),
    ));
    assert(!is_json_ws(t[b + 39 + l1 + l2 + l3]) && spec_skip_ws(t, b + 39 + l1 + l2 + l3) == b
        + 39 + l1 + l2 + l3);
    assert(t[b + 39 + l1 + l2 + l3] == ',');
    assert(!is_json_ws(t[b + 38 + l1 + l2]) && spec_skip_ws(t, b + 38 + l1 + l2) == b + 38 + l1
        + l2);
    assert(!is_json_ws(t[b + 39 + l1 + l2]) && spec_skip_ws(t, b + 39 + l1 + l2) == b + 39 + l1
        + l2);
    assert(t[b + 25 + l1 + l2] == '"');
    assert(seq![(key4, Json::Str(client_token))] + seq![(key5, Json::Bool(request_user))] =~= seq![
        (key4, Json::Str(client_token)),
        (key5, Json::Bool(request_user)),
    ]);
    assert(spec_parse_members(t, b + 25 + l1 + l2) == Some(
        (
            seq![(key4, Json::Str(client_token)), (key5, Json::Bool(request_user))],
            e + 1,
        ),
    ));
    assert(!is_json_ws(t[b + 24 + l1 + l2]) && spec_skip_ws(t, b + 24 + l1 + l2) == b + 24 + l1
        + l2);
    assert(t[b + 24 + l1 + l2] == ',');
    assert(!is_json_ws(t[b + 23 + l1]) && spec_skip_ws(t, b + 23 + l1) == b + 23 + l1);
    assert(!is_json_ws(t[b + 24 + l1]) && spec_skip_ws(t, b + 24 + l1) == b + 24 + l1);
    assert(t[b + 13 + l1] == '"');
    assert(seq![(key3, Json::Str(password))] + seq![
        (key4, Json::Str(client_token)),
        (key5, Json::Bool(request_user)),
    ] =~= seq![
        (key3, Json::Str(password)),
        (key4, Json::Str(client_token)),
        (key5, Json::Bool(request_user)),
    ]);
    assert(spec_parse_members(t, b + 13 + l1) == Some(
        (
            seq![
                (key3, Json::Str(password)),
                (key4, Json::Str(client_token)),
                (key5, Json::Bool(request_user)),
            ],
            e + 1,
        ),
    ));
    assert(!is_json_ws(t[b + 12 + l1]) && spec_skip_ws(t, b + 12 + l1) == b + 12 + l1);
    assert(t[b + 12 + l1] == ',');
    assert(!is_json_ws(t[b + 11]) && spec_skip_ws(t, b + 11) == b + 11);
    assert(!is_json_ws(t[b + 12]) && spec_skip_ws(t, b + 12) == b + 12);
    assert(t[b + 1] == '"');
    assert(seq![(key2, Json::Str(username))] + seq![
        (key3, Json::Str(password)),
        (key4, Json::Str(client_token)),
        (key5, Json::Bool(request_user)),
    ] =~= seq![
        (key2, Json::Str(username)),
        (key3, Json::Str(password)),
        (key4, Json::Str(client_token)),
        (key5, Json::Bool(request_user)),
    ]);
    assert(spec_parse_members(t, b + 1) == Some(
        (
            seq![
                (key2, Json::Str(username)),
                (key3, Json::Str(password)),
                (key4, Json::Str(client_token)),
                (key5, Json::Bool(request_user)),
            ],
            e + 1,
        ),
    ));
    assert(e + 1 == t.len());
}

/// A serialized authenticate request parses back to exactly the object it is
/// meant to carry: the agent object and the four credential members, in wire
/// order, and nothing else.
#[verifier::rlimit(100)]
pub proof fn lemma_auth_request_round_trip(r: AuthRequestView)
    requires
        i64::MIN <= r.agent.version <= i64::MAX,
    ensures
        spec_parse_json(auth_request_text(r)) == Some(
            Json::Obj(
                seq![
                    (
                        "agent"@,
                        Json::Obj(
                            seq![
                                ("name"@, Json::Str(r.agent.name)),
                                ("version"@, Json::Int(r.agent.version)),
                            ],
                        ),
                    ),
                    ("username"@, Json::Str(r.username)),
                    ("password"@, Json::Str(r.password)),
                    ("clientToken"@, Json::Str(r.client_token)),
                    ("requestUser"@, Json::Bool(r.request_user)),
                ],
            ),
        ),
{
    let lit0 = "{\"agent\":"@;
    let ag = agent_text(r.agent);
    let q1 = quoted(r.username);
    let q2 = quoted(r.password);
    let q3 = quoted(r.client_token);
    let bt = bool_text(r.request_user);
    let t = auth_request_text(r);
    let key1 = "agent"@;
    reveal_strlit("{\"agent\":");
    reveal_strlit("agent");
    reveal_strlit(",\"username\":");
    reveal_strlit(",\"password\":");
    reveal_strlit(",\"clientToken\":");
    reveal_strlit(",\"requestUser\":");
    reveal_strlit("true");
    reveal_strlit("false");
    reveal_strlit("}");
    let ga = ag.len() as int;
    let l1 = q1.len() as int;
    let l2 = q2.len() as int;
    let l3 = q3.len() as int;
    let bl = bt.len() as int;
    assert(t =~= lit0 + ag + ",\"username\":"@ + q1 + ",\"password\":"@ + q2
        + ",\"clientToken\":"@ + q3 + ",\"requestUser\":"@ + bt + "}"@);
    assert(t.len() == 64 + ga + l1 + l2 + l3 + bl);
    assert forall|k: int| 0 <= k < 9 implies #[trigger] t[k] == lit0[k] by {}
    assert forall|k: int| 9 <= k < 9 + ga implies #[trigger] t[k] == ag[k - 9] by {}
    let b = 9 + ga;
    assert forall|k: int| b <= k < b + 12 implies #[trigger] t[k] == ",\"username\":"@[k
        - b] by {}
    assert forall|k: int| b + 12 <= k < b + 12 + l1 implies #[trigger] t[k] == q1[k - b - 12] by {}
    assert forall|k: int| b + 12 + l1 <= k < b + 24 + l1 implies #[trigger] t[k]
        == ",\"password\":"@[k - b - 12 - l1] by {}
    assert forall|k: int| b + 24 + l1 <= k < b + 24 + l1 + l2 implies #[trigger] t[k] == q2[k - b
        - 24 - l1] by {}
    assert forall|k: int| b + 24 + l1 + l2 <= k < b + 39 + l1 + l2 implies #[trigger] t[k]
        == ",\"clientToken\":"@[k - b - 24 - l1 - l2] by {}
    assert forall|k: int| b + 39 + l1 + l2 <= k < b + 39 + l1 + l2 + l3 implies #[trigger] t[k]
        == q3[k - b - 39 - l1 - l2] by {}
    assert forall|k: int| b + 39 + l1 + l2 + l3 <= k < b + 54 + l1 + l2 + l3 implies #[trigger]
        t[k] == ",\"requestUser\":"@[k - b - 39 - l1 - l2 - l3] by {}
    assert forall|k: int| b + 54 + l1 + l2 + l3 <= k < b + 54 + l1 + l2 + l3 + bl implies
        #[trigger] t[k] == bt[k - b - 54 - l1 - l2 - l3] by {}
    assert(t[t.len() - 1] == '}');
    // the agent member
    assert forall|k: int| 0 <= k < key1.len() implies escape_char(#[trigger] key1[k]) == seq![
        key1[k],
    ] by {}
    lemma_escape_text_plain(key1);
    assert forall|k: int| 0 <= k < 5 implies t.subrange(2, 7)[k] == escape_text(key1)[k] by {
        assert(t[2 + k] == lit0[2 + k]);
        assert(lit0[2 + k] == key1[k]);
    }
    assert(t.subrange(2, 7) =~= escape_text(key1));
    assert(t[7] == '"');
    lemma_parse_escaped_at(t, 2, key1);
    assert(t[8] == ':');
    lemma_parse_agent_at(t, 9, r.agent);
    let agent_obj = Json::Obj(
        seq![("name"@, Json::Str(r.agent.name)), ("version"@, Json::Int(r.agent.version))],
    );
    // the four members after the agent
    lemma_auth_request_tail(t, b, r.username, r.password, r.client_token, r.request_user);
    let e = b + 54 + l1 + l2 + l3 + bl;
    assert(!is_json_ws(t[b]) && spec_skip_ws(t, b) == b);
    assert(t[b] == ',');
    assert(!is_json_ws(t[8]) && spec_skip_ws(t, 8) == 8);
    assert(!is_json_ws(t[9]) && spec_skip_ws(t, 9) == 9);
    assert(t[b + 1] == '"');
    assert(t[1] == '"');
    assert(seq![(key1, agent_obj)] + seq![
        ("username"@, Json::Str(r.username)),
        ("password"@, Json::Str(r.password)),
        ("clientToken"@, Json::Str(r.client_token)),
        ("requestUser"@, Json::Bool(r.request_user)),
    ] =~= seq![
        (key1, agent_obj),
        ("username"@, Json::Str(r.username)),
        ("password"@, Json::Str(r.password)),
        ("clientToken"@, Json::Str(r.client_token)),
        ("requestUser"@, Json::Bool(r.request_user)),
    ]);
    assert(spec_parse_members(t, 1) == Some(
        (
            seq![
                (key1, agent_obj),
                ("username"@, Json::Str(r.username)),
                ("password"@, Json::Str(r.password)),
                ("clientToken"@, Json::Str(r.client_token)),
                ("requestUser"@, Json::Bool(r.request_user)),
            ],
            t.len() as int,
        ),
    ));
    assert(t[0] == '{');
    assert(!is_json_ws(t[1]) && spec_skip_ws(t, 1) == 1);
    assert(spec_parse_value(t, 0) == Some(
        (
            Json::Obj(
                seq![
                    (key1, agent_obj),
                    ("username"@, Json::Str(r.username)),
                    ("password"@, Json::Str(r.password)),
                    ("clientToken"@, Json::Str(r.client_token)),
                    ("requestUser"@, Json::Bool(r.request_user)),
                ],
            ),
            t.len() as int,
        ),
    ));
    assert(!is_json_ws(t[0]) && spec_skip_ws(t, 0) == 0);
    assert(spec_skip_ws(t, t.len() as int) == t.len());
}

} // verus!
