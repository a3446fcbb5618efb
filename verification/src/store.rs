//! The serialized form of the two cache files, and the round-trip and
//! alias-tolerance laws of the whole pipeline.
//!
//! The session and the vault snapshot are persisted as two independent
//! JSON documents (`auth.json` and `vault.json` by convention).  This
//! module computes and reads their contents; opening, writing and the
//! resolution of the platform data directory stay outside the library.

use vstd::prelude::*;

use crate::codec::{
    dec_auth, dec_vault, enc_auth, enc_vault, encode_auth, encode_vault, decode_auth, decode_vault,
    lemma_rt_auth, lemma_rt_vault, lemma_no_raw_auth, lemma_no_raw_vault,
};
use crate::json::{json_to_chars, parse_json_text, parse_text, ser, lemma_parse_ser};
use crate::model::{ApiError, AppData, AuthData, AuthDataV, VaultData, VaultDataV};

verus! {

/// The session held in a cache file text.
pub open spec fn auth_of_text(s: Seq<char>) -> Option<AuthDataV> {
    match parse_text(s) {
        Some(v) => dec_auth(v),
        None => None,
    }
}

/// The vault snapshot held in a cache file text.
pub open spec fn vault_of_text(s: Seq<char>) -> Option<VaultDataV> {
    match parse_text(s) {
        Some(v) => dec_vault(v),
        None => None,
    }
}

/// The cause text recorded when a cache file does not parse.
pub open spec fn cache_error_text() -> Seq<char> {
    "could not parse cached data"@
}

fn cache_error_string() -> (r: String)
    ensures
        r@ == cache_error_text(),
{
    String::from_str("could not parse cached data")
}

/// The serialized form of a session: everything but the cipher suite.
pub fn encode_auth_data(a: &AuthData) -> (r: Vec<char>)
    ensures
        r@ == ser(enc_auth(a@.persisted())),
{
    json_to_chars(&encode_auth(a))
}

/// The serialized form of a vault snapshot.
pub fn encode_vault_data(v: &VaultData) -> (r: Vec<char>)
    ensures
        r@ == ser(enc_vault(v@, false)),
{
    json_to_chars(&encode_vault(v))
}

/// Reads a session back from a cache file text; a text that does not hold
/// one yields `VaultDataReadFailed`.
pub fn decode_auth_data(s: &Vec<char>) -> (r: Result<AuthData, ApiError>)
    ensures
        auth_of_text(s@) is Some ==> (r matches Ok(a) && Some(a@) == auth_of_text(s@)),
        auth_of_text(s@) is None ==> (r matches Err(e) && e matches ApiError::VaultDataReadFailed {
            error,
        } && error@ == cache_error_text()),
{
    match parse_json_text(s) {
        Some(j) => match decode_auth(&j) {
            Some(a) => Ok(a),
            None => Err(ApiError::VaultDataReadFailed { error: cache_error_string() }),
        },
        None => Err(ApiError::VaultDataReadFailed { error: cache_error_string() }),
    }
}

/// Reads a vault snapshot back from a cache file text; a text that does
/// not hold one yields `VaultDataReadFailed`.
pub fn decode_vault_data(s: &Vec<char>) -> (r: Result<VaultData, ApiError>)
    ensures
        vault_of_text(s@) is Some ==> (r matches Ok(v) && Some(v@) == vault_of_text(s@)),
        vault_of_text(s@) is None ==> (r matches Err(e) && e matches
            ApiError::VaultDataReadFailed { error } && error@ == cache_error_text()),
{
    match parse_json_text(s) {
        Some(j) => match decode_vault(&j) {
            Some(v) => Ok(v),
            None => Err(ApiError::VaultDataReadFailed { error: cache_error_string() }),
        },
        None => Err(ApiError::VaultDataReadFailed { error: cache_error_string() }),
    }
}

/// Reads both cache file texts as one unit, the session first, exactly as
/// `decode_auth_data` and `decode_vault_data` say; the first failure
/// aborts the whole read.
pub fn decode_app_data(auth_text: &Vec<char>, vault_text: &Vec<char>) -> (r: Result<
    AppData,
    ApiError,
>)
    ensures
        auth_of_text(auth_text@) is Some && vault_of_text(vault_text@) is Some ==> (r matches Ok(d)
            && Some(d.auth@) == auth_of_text(auth_text@) && Some(d.vault@) == vault_of_text(
            vault_text@,
        )),
        auth_of_text(auth_text@) is None || vault_of_text(vault_text@) is None ==> (r matches Err(
            e,
        ) && e matches ApiError::VaultDataReadFailed { error } && error@ == cache_error_text()),
{
    let auth = match decode_auth_data(auth_text) {
        Ok(a) => a,
        Err(e) => {
            return Err(e);
        },
    };
    let vault = match decode_vault_data(vault_text) {
        Ok(v) => v,
        Err(e) => {
            return Err(e);
        },
    };
    Ok(AppData { auth, vault })
}

/// Saving then loading is the identity on everything that is persisted:
/// the serialized texts of any session and any vault snapshot read back to
/// exactly the same values, less the cipher suite, the in-memory login
/// payloads and the domains record, which are never written.
pub proof fn lemma_cache_round_trip(a: AuthDataV, v: VaultDataV)
    ensures
        auth_of_text(ser(enc_auth(a.persisted()))) == Some(a.persisted()),
        vault_of_text(ser(enc_vault(v, false))) == Some(v.persisted()),
{
    lemma_no_raw_auth(a.persisted());
    lemma_parse_ser(enc_auth(a.persisted()));
    lemma_rt_auth(a.persisted());
    lemma_no_raw_vault(v, false);
    lemma_parse_ser(enc_vault(v, false));
    lemma_rt_vault(v, false);
}

/// Alias tolerance: a vault document written under the capitalized field
/// names the service emits and one written under the canonical lowercase
/// names decode to identical snapshots.
pub proof fn lemma_alias_tolerance(v: VaultDataV)
    ensures
        vault_of_text(ser(enc_vault(v, true))) == vault_of_text(ser(enc_vault(v, false))),
        vault_of_text(ser(enc_vault(v, true))) == Some(v.persisted()),
{
    lemma_no_raw_vault(v, true);
    lemma_parse_ser(enc_vault(v, true));
    lemma_rt_vault(v, true);
    lemma_no_raw_vault(v, false);
    lemma_parse_ser(enc_vault(v, false));
    lemma_rt_vault(v, false);
}

} // verus!
