//! The client: configuration, request preparation, and response
//! interpretation for the five operations.
//!
//! The HTTP POST itself is not performed here. For each operation the client
//! prepares the target URL and the JSON body; whoever carries out the POST
//! hands the resulting status code and raw body bytes back to the matching
//! response function, which classifies and decodes them.

use vstd::prelude::*;
use vstd::utf8::{decode_utf8, encode_utf8, valid_utf8};
use crate::auth_agent::AuthAgent;
use crate::auth_error::{AuthError, AuthErrorView};
use crate::auth_profile::AuthProfile;
use crate::auth_request::{AuthRequest, AuthRequestView, auth_request_text};
use crate::auth_response::{AuthResponse, AuthResponseView, spec_auth_response_of_text};
use crate::decode::{auth_error_of_json, decode_auth_error};
use crate::invalidate_request::{InvalidateRequest, InvalidateRequestView, invalidate_request_text};
use crate::json_parse::{parse_json, spec_parse_json};
use crate::refresh_request::{RefreshRequest, RefreshRequestView, refresh_request_text};
use crate::refresh_response::{RefreshResponse, RefreshResponseView, spec_refresh_response_of_text};
use crate::signout_request::{SignoutRequest, SignoutRequestView, signout_request_text};
use crate::text::{str_to_chars, utf8_to_string, chars_to_string};
use crate::validate_request::{ValidateRequest, ValidateRequestView, validate_request_text};
use vstd::string::StringExecFns;

verus! {

/// The mathematical model of a [`ClientError`].
pub enum ClientErrorView {
    Protocol(AuthErrorView),
    Transport(int, Seq<char>),
    Encoding,
    Serialization,
    Deserialization,
    Configuration(Seq<char>),
}

/// Everything an operation can fail with, one variant per kind:
/// - `Protocol`: the server rejected the request with an error record;
/// - `Transport`: a failure status whose body was no error record — the
///   status code and the body text are carried as they came;
/// - `Encoding`: the response bytes were not valid UTF-8;
/// - `Serialization`: a request record could not be serialized — the verified
///   serializers never fail, so this library never produces it;
/// - `Deserialization`: a success payload did not have the expected shape;
/// - `Configuration`: the proxy URL was not usable, carrying its text.
#[derive(Debug)]
pub enum ClientError {
    Protocol(AuthError),
    Transport(u16, String),
    Encoding,
    Serialization,
    Deserialization,
    Configuration(String),
}

impl View for ClientError {
    type V = ClientErrorView;

    open spec fn view(&self) -> ClientErrorView {
        match self {
            ClientError::Protocol(e) => ClientErrorView::Protocol(e@),
            ClientError::Transport(status, body) => ClientErrorView::Transport(
                *status as int,
                body@,
            ),
            ClientError::Encoding => ClientErrorView::Encoding,
            ClientError::Serialization => ClientErrorView::Serialization,
            ClientError::Deserialization => ClientErrorView::Deserialization,
            ClientError::Configuration(url) => ClientErrorView::Configuration(url@),
        }
    }
}

/// The text with every leading byte-order-mark code point removed. Some
/// servers erroneously prepend one or more of them to a JSON body.
pub open spec fn strip_boms(t: Seq<char>) -> Seq<char>
    decreases t.len(),
{
    if t.len() > 0 && t[0] == '\u{feff}' {
        strip_boms(t.drop_first())
    } else {
        t
    }
}

/// A body carrying a byte-order-mark prefix reads the same as the body
/// without it, however often the prefix repeats.
pub proof fn lemma_bom_prefix_ignored(t: Seq<char>)
    ensures
        strip_boms(seq!['\u{feff}'] + t) == strip_boms(t),
{
    assert((seq!['\u{feff}'] + t)[0] == '\u{feff}');
    assert((seq!['\u{feff}'] + t).drop_first() =~= t);
}

/// A response whose UTF-8 body carries a byte-order-mark prefix is classified
/// exactly like the response with the bare body, whatever the status code.
/// Repeated prefixes reduce to this case one mark at a time.
pub proof fn lemma_bom_prefixed_body_classified_alike(status: u16, t: Seq<char>)
    ensures
        spec_classify(status, encode_utf8(seq!['\u{feff}'] + t)) == spec_classify(
            status,
            encode_utf8(t),
        ),
{
    broadcast use vstd::utf8::encode_utf8_valid_utf8, vstd::utf8::encode_utf8_decode_utf8;

    lemma_bom_prefix_ignored(t);
}

/// Removes every leading byte-order-mark code point.
fn strip_boms_exec(t: Vec<char>) -> (r: Vec<char>)
    ensures
        r@ == strip_boms(t@),
{
    let ghost orig = t@;
    proof {
        assert(orig.skip(0) =~= orig);
    }
    let mut i: usize = 0;
    while i < t.len() && t[i] == '\u{feff}'
        invariant
            i <= t@.len(),
            t@ == orig,
            strip_boms(orig) == strip_boms(orig.skip(i as int)),
        decreases t@.len() - i,
    {
        proof {
            assert(orig.skip(i as int).drop_first() =~= orig.skip(i as int + 1));
        }
        i = i + 1;
    }
    let mut r: Vec<char> = Vec::new();
    let mut j = i;
    while j < t.len()
        invariant
            i <= j <= t@.len(),
            t@ == orig,
            r@ == orig.subrange(i as int, j as int),
        decreases t@.len() - j,
    {
        r.push(t[j]);
        j = j + 1;
        proof {
            assert(r@ =~= orig.subrange(i as int, j as int));
        }
    }
    proof {
        assert(orig.subrange(i as int, t@.len() as int) =~= orig.skip(i as int));
        if i < t@.len() {
            assert(strip_boms(orig.skip(i as int)) == orig.skip(i as int));
        } else {
            assert(orig.skip(i as int) =~= Seq::<char>::empty());
        }
    }
    r
}

/// The protocol error a text stands for, if it is a JSON error record.
pub open spec fn spec_auth_error_of_text(t: Seq<char>) -> Option<AuthErrorView> {
    match spec_parse_json(t) {
        Some(j) => auth_error_of_json(j),
        None => None,
    }
}

/// What a status code and a raw body amount to:
/// - status 204 is success with no payload, whatever the body holds;
/// - otherwise the body must be UTF-8 text, else the call failed on encoding;
/// - the decoded text loses its leading byte-order-marks;
/// - status 200 is success, carrying that text as the payload;
/// - any other status is a failure: a protocol error when the text is a JSON
///   error record, else a transport error carrying the status and the text.
pub open spec fn spec_classify(status: u16, bytes: Seq<u8>) -> Result<
    Option<Seq<char>>,
    ClientErrorView,
> {
    if status == 204 {
        Ok(None)
    } else if !valid_utf8(bytes) {
        Err(ClientErrorView::Encoding)
    } else {
        let t = strip_boms(decode_utf8(bytes));
        if status == 200 {
            Ok(Some(t))
        } else {
            match spec_auth_error_of_text(t) {
                Some(e) => Err(ClientErrorView::Protocol(e)),
                None => Err(ClientErrorView::Transport(status as int, t)),
            }
        }
    }
}

/// The mathematical value of an interpreted response.
pub open spec fn classify_result_view(r: Result<Option<String>, ClientError>) -> Result<
    Option<Seq<char>>,
    ClientErrorView,
> {
    match r {
        Ok(None) => Ok(None),
        Ok(Some(s)) => Ok(Some(s@)),
        Err(e) => Err(e@),
    }
}

/// Interprets one POST response: the status code together with the raw body
/// bytes, as [`spec_classify`] describes.
pub fn interpret_response(status: u16, body: &[u8]) -> (r: Result<Option<String>, ClientError>)
    ensures
        classify_result_view(r) == spec_classify(status, body@),
{
    if status == 204 {
        return Ok(None);
    }
    let text = match utf8_to_string(body) {
        Some(text) => text,
        None => {
            return Err(ClientError::Encoding);
        },
    };
    let stripped = strip_boms_exec(str_to_chars(text.as_str()));
    let payload = chars_to_string(stripped.as_slice());
    if status == 200 {
        return Ok(Some(payload));
    }
    match parse_json(stripped.as_slice()) {
        Some(doc) => match decode_auth_error(&doc) {
            Some(e) => Err(ClientError::Protocol(e)),
            None => Err(ClientError::Transport(status, payload)),
        },
        None => Err(ClientError::Transport(status, payload)),
    }
}

/// The mathematical model of an [`AuthClient`].
pub struct AuthClientView {
    pub base_yggdrasil_url: Seq<char>,
    pub proxy_url: Option<Seq<char>>,
}

/// A client for authenticating, refreshing, validating, invalidating, and
/// signing out through Yggdrasil's authentication API. It holds the base URL
/// of the server and, optionally, the URL of an HTTP proxy to route requests
/// through; both are fixed for the client's lifetime.
pub struct AuthClient {
    base_yggdrasil_url: String,
    proxy_url: Option<String>,
}

impl View for AuthClient {
    type V = AuthClientView;

    closed spec fn view(&self) -> AuthClientView {
        AuthClientView {
            base_yggdrasil_url: self.base_yggdrasil_url@,
            proxy_url: match self.proxy_url {
                Some(p) => Some(p@),
                None => None,
            },
        }
    }
}

impl AuthClient {
    /// Creates a new `AuthClient` with the provided `base_yggdrasil_url` and
    /// optional `proxy_url`.
    pub fn new(base_yggdrasil_url: String, proxy_url: Option<String>) -> (r: AuthClient)
        ensures
            r@ == (AuthClientView {
                base_yggdrasil_url: base_yggdrasil_url@,
                proxy_url: match proxy_url {
                    Some(p) => Some(p@),
                    None => None,
                },
            }),
    {
        AuthClient { base_yggdrasil_url, proxy_url }
    }

    /// Returns the proxy URL, or `None` if no proxy URL is set.
    pub fn get_proxy(&self) -> (r: Option<&str>)
        ensures
            r matches Some(p) ==> self@.proxy_url == Some(p@),
            r is None ==> self@.proxy_url is None,
    {
        match &self.proxy_url {
            Some(p) => Some(p.as_str()),
            None => None,
        }
    }

    fn endpoint_url(&self, suffix: &str) -> (r: String)
        ensures
            r@ == self@.base_yggdrasil_url + suffix@,
    {
        let mut url = self.base_yggdrasil_url.clone();
        url.append(suffix);
        url
    }

    /// Prepares an authenticate call: the target URL and the JSON body to
    /// POST to it.
    pub fn authenticate_request(
        &self,
        agent: AuthAgent,
        username: &str,
        password: &str,
        client_token: &str,
        request_user: bool,
    ) -> (r: (String, String))
        ensures
            r.0@ == self@.base_yggdrasil_url + "/authenticate"@,
            r.1@ == auth_request_text(
                AuthRequestView {
                    agent: agent@,
                    username: username@,
                    password: password@,
                    client_token: client_token@,
                    request_user: request_user,
                },
            ),
    {
        let url = self.endpoint_url("/authenticate");
        let request = AuthRequest::new(
            agent,
            username.to_owned(),
            password.to_owned(),
            client_token.to_owned(),
            request_user,
        );
        (url, request.to_json_text())
    }

    /// Prepares a refresh call: the target URL and the JSON body to POST to
    /// it.
    pub fn refresh_request(
        &self,
        access_token: &str,
        client_token: &str,
        request_user: bool,
        selected_profile: Option<AuthProfile>,
    ) -> (r: (String, String))
        ensures
            r.0@ == self@.base_yggdrasil_url + "/refresh"@,
            r.1@ == refresh_request_text(
                RefreshRequestView {
                    access_token: access_token@,
                    client_token: client_token@,
                    request_user: request_user,
                    selected_profile: match selected_profile {
                        Some(p) => Some(p@),
                        None => None,
                    },
                },
            ),
    {
        let url = self.endpoint_url("/refresh");
        let request = RefreshRequest::new(
            access_token.to_owned(),
            client_token.to_owned(),
            request_user,
            selected_profile,
        );
        (url, request.to_json_text())
    }

    /// Prepares a validate call: the target URL and the JSON body to POST to
    /// it.
    pub fn validate_request(&self, access_token: &str) -> (r: (String, String))
        ensures
            r.0@ == self@.base_yggdrasil_url + "/validate"@,
            r.1@ == validate_request_text(ValidateRequestView { access_token: access_token@ }),
    {
        let url = self.endpoint_url("/validate");
        let request = ValidateRequest::new(access_token.to_owned());
        (url, request.to_json_text())
    }

    /// Prepares an invalidate call: the target URL and the JSON body to POST
    /// to it.
    pub fn invalidate_request(&self, access_token: &str, client_token: &str) -> (r: (
        String,
        String,
    ))
        ensures
            r.0@ == self@.base_yggdrasil_url + "/invalidate"@,
            r.1@ == invalidate_request_text(
                InvalidateRequestView {
                    access_token: access_token@,
                    client_token: client_token@,
                },
            ),
    {
        let url = self.endpoint_url("/invalidate");
        let request = InvalidateRequest::new(access_token.to_owned(), client_token.to_owned());
        (url, request.to_json_text())
    }

    /// Prepares a signout call: the target URL and the JSON body to POST to
    /// it.
    pub fn signout_request(&self, username: &str, password: &str) -> (r: (String, String))
        ensures
            r.0@ == self@.base_yggdrasil_url + "/signout"@,
            r.1@ == signout_request_text(
                SignoutRequestView { username: username@, password: password@ },
            ),
    {
        let url = self.endpoint_url("/signout");
        let request = SignoutRequest::new(username.to_owned(), password.to_owned());
        (url, request.to_json_text())
    }
}

/// What an authenticate call returns for a given status code and raw body:
/// the decoded payload on a 200 whose text has the expected shape, and the
/// classified failure otherwise. A 204 carries no payload to decode, so it
/// fails the decoding.
pub open spec fn spec_authenticate_response(status: u16, bytes: Seq<u8>) -> Result<
    AuthResponseView,
    ClientErrorView,
> {
    match spec_classify(status, bytes) {
        Ok(Some(t)) => match spec_auth_response_of_text(t) {
            Some(v) => Ok(v),
            None => Err(ClientErrorView::Deserialization),
        },
        Ok(None) => Err(ClientErrorView::Deserialization),
        Err(e) => Err(e),
    }
}

/// Decides an authenticate call from the status code and raw body of its
/// POST, as [`spec_authenticate_response`] describes.
pub fn authenticate_response(status: u16, body: &[u8]) -> (r: Result<AuthResponse, ClientError>)
    ensures
        (match r {
            Ok(resp) => spec_authenticate_response(status, body@) == Ok::<
                AuthResponseView,
                ClientErrorView,
            >(resp@),
            Err(e) => spec_authenticate_response(status, body@) == Err::<
                AuthResponseView,
                ClientErrorView,
            >(e@),
        }),
{
    match interpret_response(status, body) {
        Ok(Some(payload)) => {
            let chars = str_to_chars(payload.as_str());
            match AuthResponse::from_json_text(chars.as_slice()) {
                Some(resp) => Ok(resp),
                None => Err(ClientError::Deserialization),
            }
        },
        Ok(None) => Err(ClientError::Deserialization),
        Err(e) => Err(e),
    }
}

/// What a refresh call returns for a given status code and raw body, in the
/// same way as [`spec_authenticate_response`].
pub open spec fn spec_refresh_response(status: u16, bytes: Seq<u8>) -> Result<
    RefreshResponseView,
    ClientErrorView,
> {
    match spec_classify(status, bytes) {
        Ok(Some(t)) => match spec_refresh_response_of_text(t) {
            Some(v) => Ok(v),
            None => Err(ClientErrorView::Deserialization),
        },
        Ok(None) => Err(ClientErrorView::Deserialization),
        Err(e) => Err(e),
    }
}

/// Decides a refresh call from the status code and raw body of its POST, as
/// [`spec_refresh_response`] describes.
pub fn refresh_response(status: u16, body: &[u8]) -> (r: Result<RefreshResponse, ClientError>)
    ensures
        (match r {
            Ok(resp) => spec_refresh_response(status, body@) == Ok::<
                RefreshResponseView,
                ClientErrorView,
            >(resp@),
            Err(e) => spec_refresh_response(status, body@) == Err::<
                RefreshResponseView,
                ClientErrorView,
            >(e@),
        }),
{
    match interpret_response(status, body) {
        Ok(Some(payload)) => {
            let chars = str_to_chars(payload.as_str());
            match RefreshResponse::from_json_text(chars.as_slice()) {
                Some(resp) => Ok(resp),
                None => Err(ClientError::Deserialization),
            }
        },
        Ok(None) => Err(ClientError::Deserialization),
        Err(e) => Err(e),
    }
}

/// What a validate, invalidate or signout call returns for a given status
/// code and raw body: success exactly on a 204, whatever the body holds; any
/// other status is a failure — a 200 carries a payload where none belongs, so
/// it fails the decoding, and the remaining statuses fail as
/// [`spec_classify`] describes.
pub open spec fn spec_no_payload_response(status: u16, bytes: Seq<u8>) -> Result<
    (),
    ClientErrorView,
> {
    match spec_classify(status, bytes) {
        Ok(None) => Ok(()),
        Ok(Some(_)) => Err(ClientErrorView::Deserialization),
        Err(e) => Err(e),
    }
}

/// Decides a validate, invalidate or signout call from the status code and
/// raw body of its POST, as [`spec_no_payload_response`] describes.
pub fn no_payload_response(status: u16, body: &[u8]) -> (r: Result<(), ClientError>)
    ensures
        (match r {
            Ok(u) => spec_no_payload_response(status, body@) == Ok::<(), ClientErrorView>(u),
            Err(e) => spec_no_payload_response(status, body@) == Err::<(), ClientErrorView>(e@),
        }),
{
    match interpret_response(status, body) {
        Ok(None) => Ok(()),
        Ok(Some(_)) => Err(ClientError::Deserialization),
        Err(e) => Err(e),
    }
}

} // verus!
