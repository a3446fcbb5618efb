//! The three network operations, less the transport: building the request
//! bodies, headers and form fields that go out, and interpreting the
//! status/body pairs that come back.
//!
//! The caller (outside this library) performs the HTTP exchanges; every
//! decision about what is sent and how a response is read is made here.

use vstd::prelude::*;

use crate::codec::{req_num, req_str};
use crate::json::{Json, JsonV, json_view, parse_text, ser, ser_num};
use crate::model::{ApiError, AuthData, AuthDataV, CipherSuite, VaultData};
use crate::text::{str_to_chars, chars_to_string};

verus! {

// ---------------------------------------------------------------------------
// Endpoints
// ---------------------------------------------------------------------------

/// The prelogin endpoint.
pub fn prelogin_url() -> (r: String)
    ensures
        r@ == "https://api.bitwarden.com/accounts/prelogin"@,
{
    String::from_str("https://api.bitwarden.com/accounts/prelogin")
}

/// The token endpoint.
pub fn token_url() -> (r: String)
    ensures
        r@ == "https://identity.bitwarden.com/connect/token"@,
{
    String::from_str("https://identity.bitwarden.com/connect/token")
}

/// The sync endpoint.
pub fn sync_url() -> (r: String)
    ensures
        r@ == "https://api.bitwarden.com/sync"@,
{
    String::from_str("https://api.bitwarden.com/sync")
}

// ---------------------------------------------------------------------------
// Shared pieces
// ---------------------------------------------------------------------------

/// Whether an HTTP status reports success.
pub open spec fn is_success(status: u16) -> bool {
    200 <= status < 300
}

/// The cause text recorded for a non-success status.
pub open spec fn status_error_text(status: u16) -> Seq<char> {
    "http status "@ + ser_num(status as u64)
}

/// The cause text recorded for a body that does not parse.
pub open spec fn parse_error_text() -> Seq<char> {
    "could not parse response body"@
}

/// Builds the cause text for a non-success status.
pub fn status_error_string(status: u16) -> (r: String)
    ensures
        r@ == status_error_text(status),
{
    let mut v = str_to_chars("http status ");
    let mut num = crate::json::json_to_chars(&Json::Num(status as u64));
    v.append(&mut num);
    let r = chars_to_string(&v);
    proof {
        assert(v@ =~= status_error_text(status));
    }
    r
}

fn parse_error_string() -> (r: String)
    ensures
        r@ == parse_error_text(),
{
    String::from_str("could not parse response body")
}

/// The `Authorization` header value: token type, a space, the token.
pub fn auth_header(token_type: &str, access_token: &str) -> (r: String)
    ensures
        r@ == token_type@ + " "@ + access_token@,
{
    let mut v = str_to_chars(token_type);
    v.push(' ');
    let mut rest = str_to_chars(access_token);
    v.append(&mut rest);
    let r = chars_to_string(&v);
    proof {
        reveal_strlit(" ");
        assert(v@ =~= token_type@ + " "@ + access_token@);
    }
    r
}

// ---------------------------------------------------------------------------
// Prelogin
// ---------------------------------------------------------------------------

/// The KDF parameters the service reports for an account.
#[derive(Clone, Copy, PartialEq, Eq, Structural, Debug)]
pub struct PreloginResponseData {
    pub kdf: u64,
    pub kdf_iterations: u64,
}

/// The prelogin request body: a JSON object holding the email.
pub open spec fn prelogin_body_spec(email: Seq<char>) -> JsonV {
    JsonV::Obj(seq![("email"@, JsonV::Str(email))])
}

/// Builds the prelogin request body.
pub fn prelogin_body(email: &str) -> (r: Vec<char>)
    ensures
        r@ == ser(prelogin_body_spec(email@)),
{
    let mut o: Vec<(Vec<char>, Json)> = Vec::new();
    o.push((str_to_chars("email"), Json::Str(str_to_chars(email))));
    proof {
        crate::json::lemma_obj_views(o@);
        assert(crate::json::obj_views(o@) =~= prelogin_body_spec(email@)->Obj_0);
    }
    let j = Json::Obj(o);
    crate::json::json_to_chars(&j)
}

/// The KDF parameters held in a prelogin response.
pub open spec fn dec_prelogin(v: JsonV) -> Option<PreloginResponseData> {
    match v {
        JsonV::Obj(o) => {
            let kdf = req_num(o, "kdf"@, "Kdf"@);
            let kdf_iterations = req_num(o, "kdf_iterations"@, "KdfIterations"@);
            if kdf is Some && kdf_iterations is Some {
                Some(
                    PreloginResponseData {
                        kdf: kdf.unwrap(),
                        kdf_iterations: kdf_iterations.unwrap(),
                    },
                )
            } else {
                None
            }
        },
        _ => None,
    }
}

/// The KDF parameters held in a prelogin response text.
pub open spec fn prelogin_of_text(s: Seq<char>) -> Option<PreloginResponseData> {
    match parse_text(s) {
        Some(v) => dec_prelogin(v),
        None => None,
    }
}

fn decode_prelogin(j: &Json) -> (r: Option<PreloginResponseData>)
    ensures
        r == dec_prelogin(json_view(*j)),
{
    match j {
        Json::Obj(o) => {
            let kdf = match crate::codec::get_req_num(o, "kdf", "Kdf") {
                Some(v) => v,
                None => {
                    return None;
                },
            };
            let kdf_iterations = match crate::codec::get_req_num(
                o,
                "kdf_iterations",
                "KdfIterations",
            ) {
                Some(v) => v,
                None => {
                    return None;
                },
            };
            Some(PreloginResponseData { kdf, kdf_iterations })
        },
        _ => None,
    }
}

/// Reads a prelogin response.  Any non-success status and any body that
/// does not hold the expected shape collapse into `PreloginFailed`, with
/// the distinction kept only in the cause text.
pub fn interpret_prelogin_response(status: u16, body: &Vec<char>) -> (r: Result<
    PreloginResponseData,
    ApiError,
>)
    ensures
        !is_success(status) ==> (r matches Err(e) && e matches ApiError::PreloginFailed { error }
            && error@ == status_error_text(status)),
        is_success(status) && prelogin_of_text(body@) is Some ==> (r matches Ok(p) && Some(p)
            == prelogin_of_text(body@)),
        is_success(status) && prelogin_of_text(body@) is None ==> (r matches Err(e) && e matches
            ApiError::PreloginFailed { error } && error@ == parse_error_text()),
{
    if !(200 <= status && status < 300) {
        return Err(ApiError::PreloginFailed { error: status_error_string(status) });
    }
    match crate::json::parse_json_text(body) {
        Some(j) => match decode_prelogin(&j) {
            Some(p) => Ok(p),
            None => Err(ApiError::PreloginFailed { error: parse_error_string() }),
        },
        None => Err(ApiError::PreloginFailed { error: parse_error_string() }),
    }
}

// ---------------------------------------------------------------------------
// Token exchange
// ---------------------------------------------------------------------------

/// The fields of a successful token response.
pub struct LoginResponseData {
    pub access_token: String,
    pub expires_in: u64,
    pub token_type: String,
}

pub struct LoginResponseDataV {
    pub access_token: Seq<char>,
    pub expires_in: u64,
    pub token_type: Seq<char>,
}

impl View for LoginResponseData {
    type V = LoginResponseDataV;

    open spec fn view(&self) -> LoginResponseDataV {
        LoginResponseDataV {
            access_token: self.access_token@,
            expires_in: self.expires_in,
            token_type: self.token_type@,
        }
    }
}

/// The views of a list of form fields.
pub open spec fn pair_views(ps: Seq<(String, String)>) -> Seq<(Seq<char>, Seq<char>)> {
    Seq::new(ps.len(), |i: int| (ps[i].0@, ps[i].1@))
}

/// The form fields of the token request: the fixed constants of a
/// resource-owner-password submission, plus the email, a device id and the
/// master-key hash standing in for the password.
pub open spec fn token_fields(
    email: Seq<char>,
    device_id: Seq<char>,
    master_key_hash: Seq<char>,
) -> Seq<(Seq<char>, Seq<char>)> {
    seq![
        ("grant_type"@, "password"@),
        ("username"@, email),
        ("scope"@, "api offline_access"@),
        ("client_id"@, "connector"@),
        ("deviceType"@, "3"@),
        ("deviceIdentifier"@, device_id),
        ("deviceName"@, "bwtui"@),
        ("password"@, master_key_hash),
    ]
}

/// Builds the token request form fields for a given device id.
pub fn token_request_fields(email: &str, device_id: &str, master_key_hash: &str) -> (r: Vec<
    (String, String),
>)
    ensures
        pair_views(r@) == token_fields(email@, device_id@, master_key_hash@),
{
    let mut r: Vec<(String, String)> = Vec::new();
    r.push((String::from_str("grant_type"), String::from_str("password")));
    r.push((String::from_str("username"), String::from_str(email)));
    r.push((String::from_str("scope"), String::from_str("api offline_access")));
    r.push((String::from_str("client_id"), String::from_str("connector")));
    r.push((String::from_str("deviceType"), String::from_str("3")));
    r.push((String::from_str("deviceIdentifier"), String::from_str(device_id)));
    r.push((String::from_str("deviceName"), String::from_str("bwtui")));
    r.push((String::from_str("password"), String::from_str(master_key_hash)));
    proof {
        assert(pair_views(r@) =~= token_fields(email@, device_id@, master_key_hash@));
    }
    r
}

/// Relies on `uuid::Uuid::new_v4` and `Uuid::hyphenated`: a fresh random
/// version-4 identifier, rendered in the 36-character hyphenated form.
/// Nothing is assumed about which identifier comes back.
#[verifier::external_body]
pub fn fresh_device_id() -> (r: String)
    ensures
        r@.len() == 36,
{
    uuid::Uuid::new_v4().hyphenated().to_string()
}

/// Builds the token request form fields under a freshly generated device
/// id, which is also returned; a new identifier is drawn on every call and
/// none is ever reused or persisted.
pub fn token_request_fields_fresh(email: &str, master_key_hash: &str) -> (r: (
    Vec<(String, String)>,
    String,
))
    ensures
        pair_views(r.0@) == token_fields(email@, r.1@, master_key_hash@),
        r.1@.len() == 36,
{
    let device_id = fresh_device_id();
    let fields = token_request_fields(email, device_id.as_str(), master_key_hash);
    (fields, device_id)
}

/// The fields held in a token response.
pub open spec fn dec_login(v: JsonV) -> Option<LoginResponseDataV> {
    match v {
        JsonV::Obj(o) => {
            let access_token = req_str(o, "access_token"@, "access_token"@);
            let expires_in = req_num(o, "expires_in"@, "expires_in"@);
            let token_type = req_str(o, "token_type"@, "token_type"@);
            if access_token is Some && expires_in is Some && token_type is Some {
                Some(
                    LoginResponseDataV {
                        access_token: access_token.unwrap(),
                        expires_in: expires_in.unwrap(),
                        token_type: token_type.unwrap(),
                    },
                )
            } else {
                None
            }
        },
        _ => None,
    }
}

/// The fields held in a token response text.
pub open spec fn login_of_text(s: Seq<char>) -> Option<LoginResponseDataV> {
    match parse_text(s) {
        Some(v) => dec_login(v),
        None => None,
    }
}

fn decode_login(j: &Json) -> (r: Option<LoginResponseData>)
    ensures
        (r is Some <==> dec_login(json_view(*j)) is Some),
        r matches Some(l) ==> dec_login(json_view(*j)) == Some(l@),
{
    match j {
        Json::Obj(o) => {
            let access_token = match crate::codec::get_req_str(o, "access_token", "access_token") {
                Some(v) => v,
                None => {
                    return None;
                },
            };
            let expires_in = match crate::codec::get_req_num(o, "expires_in", "expires_in") {
                Some(v) => v,
                None => {
                    return None;
                },
            };
            let token_type = match crate::codec::get_req_str(o, "token_type", "token_type") {
                Some(v) => v,
                None => {
                    return None;
                },
            };
            Some(LoginResponseData { access_token, expires_in, token_type })
        },
        _ => None,
    }
}

/// Reads a token response.  Any non-success status and any body that does
/// not hold the expected shape collapse into `LoginFailed`, with the
/// distinction kept only in the cause text.
pub fn interpret_token_response(status: u16, body: &Vec<char>) -> (r: Result<
    LoginResponseData,
    ApiError,
>)
    ensures
        !is_success(status) ==> (r matches Err(e) && e matches ApiError::LoginFailed { error }
            && error@ == status_error_text(status)),
        is_success(status) && login_of_text(body@) is Some ==> (r matches Ok(l) && Some(l@)
            == login_of_text(body@)),
        is_success(status) && login_of_text(body@) is None ==> (r matches Err(e) && e matches
            ApiError::LoginFailed { error } && error@ == parse_error_text()),
{
    if !(200 <= status && status < 300) {
        return Err(ApiError::LoginFailed { error: status_error_string(status) });
    }
    match crate::json::parse_json_text(body) {
        Some(j) => match decode_login(&j) {
            Some(l) => Ok(l),
            None => Err(ApiError::LoginFailed { error: parse_error_string() }),
        },
        None => Err(ApiError::LoginFailed { error: parse_error_string() }),
    }
}

/// Assembles a live session from the prelogin parameters, the token
/// response and the derived cipher suite.
pub fn make_auth_data(
    prelogin: &PreloginResponseData,
    login: LoginResponseData,
    cipher: CipherSuite,
) -> (r: AuthData)
    ensures
        r@ == (AuthDataV {
            access_token: login.access_token@,
            expires_in: login.expires_in,
            token_type: login.token_type@,
            kdf: prelogin.kdf,
            kdf_iterations: prelogin.kdf_iterations,
            cipher: Some(cipher.master_key_hash@),
        }),
{
    AuthData {
        access_token: login.access_token,
        expires_in: login.expires_in,
        token_type: login.token_type,
        kdf: prelogin.kdf,
        kdf_iterations: prelogin.kdf_iterations,
        cipher: Some(cipher),
    }
}

// ---------------------------------------------------------------------------
// Vault sync
// ---------------------------------------------------------------------------

/// The vault snapshot held in a sync response text.
pub open spec fn vault_of_text(s: Seq<char>) -> Option<crate::model::VaultDataV> {
    match parse_text(s) {
        Some(v) => crate::codec::dec_vault(v),
        None => None,
    }
}

/// Reads a sync response.  Any non-success status and any body that does
/// not hold the vault shape collapse into `RequestFailed`, carrying the
/// sync endpoint for diagnosis.
pub fn interpret_sync_response(status: u16, body: &Vec<char>) -> (r: Result<VaultData, ApiError>)
    ensures
        !is_success(status) ==> (r matches Err(e) && e matches ApiError::RequestFailed {
            endpoint,
            error,
        } && endpoint@ == "https://api.bitwarden.com/sync"@ && error@ == status_error_text(
            status,
        )),
        is_success(status) && vault_of_text(body@) is Some ==> (r matches Ok(v) && Some(v@)
            == vault_of_text(body@)),
        is_success(status) && vault_of_text(body@) is None ==> (r matches Err(e) && e matches
            ApiError::RequestFailed { endpoint, error } && endpoint@
            == "https://api.bitwarden.com/sync"@ && error@ == parse_error_text()),
{
    if !(200 <= status && status < 300) {
        return Err(
            ApiError::RequestFailed { endpoint: sync_url(), error: status_error_string(status) },
        );
    }
    match crate::json::parse_json_text(body) {
        Some(j) => match crate::codec::decode_vault(&j) {
            Some(v) => Ok(v),
            None => Err(
                ApiError::RequestFailed { endpoint: sync_url(), error: parse_error_string() },
            ),
        },
        None => Err(ApiError::RequestFailed { endpoint: sync_url(), error: parse_error_string() }),
    }
}

} // verus!
