use bwvault::json::{parse_json_text, Json};
use bwvault::model::{
    ApiError, AppData, AuthData, CipherEntry, CipherEntryData, CipherEntryFields,
    CipherEntryHistory, CipherEntryUriMatch, CipherString, CipherSuite, Folder, Profile, VaultData,
};
use bwvault::protocol;
use bwvault::store;

fn chars(s: &str) -> Vec<char> {
    s.chars().collect()
}

fn text(v: &Vec<char>) -> String {
    v.iter().collect()
}

fn cs(s: &str) -> CipherString {
    CipherString { text: s.to_string() }
}

fn sample_auth() -> AuthData {
    AuthData {
        access_token: "tok-123".to_string(),
        expires_in: 3600,
        token_type: "Bearer".to_string(),
        kdf: 0,
        kdf_iterations: 100000,
        cipher: Some(CipherSuite { master_key_hash: "hash==".to_string() }),
    }
}

fn sample_entry_with_uris() -> CipherEntry {
    CipherEntry {
        object: "cipher".to_string(),
        collection_ids: vec!["c1".to_string(), "c2".to_string()],
        folder_id: Some("f1".to_string()),
        favorite: true,
        edit: true,
        uuid: "e1".to_string(),
        organization_id: None,
        type_: 1,
        data: CipherEntryData {
            uri: None,
            uris: Some(vec![CipherEntryUriMatch { uri: cs("enc-uri"), match_: Some(2) }]),
            username: cs("enc-user"),
            password: cs("enc-pass"),
            password_last_changed: Some("2020-01-02T03:04:05Z".to_string()),
            totp: Some("enc-totp".to_string()),
            name: cs("enc-name"),
            notes: None,
            fields: Some(vec![CipherEntryFields { type_: 0, name: cs("fn"), value: cs("fv") }]),
            password_history: Some(vec![CipherEntryHistory {
                password: "old".to_string(),
                last_used_date: "2019-12-31T00:00:00Z".to_string(),
            }]),
        },
        name: cs("enc-name"),
        notes: Some("enc-notes".to_string()),
        login: None,
        card: None,
        identity: None,
        secure_note: None,
        fields: None,
        password_history: None,
        attachments: None,
        organization_tfa: false,
        last_changed: "2021-05-06T07:08:09Z".to_string(),
    }
}

fn sample_vault() -> VaultData {
    VaultData {
        object: "sync".to_string(),
        profile: Profile {
            object: "profile".to_string(),
            uuid: "u-1".to_string(),
            name: "Alice".to_string(),
            email: "alice@example.com".to_string(),
            email_verified: true,
            premium: false,
            master_password_hint: Some("a hint".to_string()),
            language: "en-US".to_string(),
            tfa_enabled: false,
            key: cs("enc-key"),
            private_key: cs("enc-priv"),
            security_stamp: "stamp".to_string(),
            organizations: vec!["org1".to_string()],
        },
        folders: vec![Folder {
            object: "folder".to_string(),
            uuid: "f1".to_string(),
            name: cs("enc-folder"),
            last_changed: "2021-01-01T00:00:00Z".to_string(),
        }],
        collections: vec!["col1".to_string()],
        ciphers: vec![sample_entry_with_uris()],
        domains: None,
    }
}

#[test]
fn cache_round_trip_auth() {
    let auth = sample_auth();
    let encoded = store::encode_auth_data(&auth);
    let restored = match store::decode_auth_data(&encoded) {
        Ok(a) => a,
        Err(e) => panic!("decode failed: {}", e.message()),
    };
    assert_eq!(restored.access_token, "tok-123");
    assert_eq!(restored.expires_in, 3600);
    assert_eq!(restored.token_type, "Bearer");
    assert_eq!(restored.kdf, 0);
    assert_eq!(restored.kdf_iterations, 100000);
    assert!(restored.cipher.is_none());
}

#[test]
fn cache_round_trip_vault() {
    let vault = sample_vault();
    let encoded = store::encode_vault_data(&vault);
    let restored = match store::decode_vault_data(&encoded) {
        Ok(v) => v,
        Err(e) => panic!("decode failed: {}", e.message()),
    };
    assert_eq!(restored.object, "sync");
    assert_eq!(restored.profile.uuid, "u-1");
    assert_eq!(restored.profile.email, "alice@example.com");
    assert_eq!(restored.profile.master_password_hint.as_deref(), Some("a hint"));
    assert_eq!(restored.profile.organizations, vec!["org1".to_string()]);
    assert_eq!(restored.folders.len(), 1);
    assert_eq!(restored.folders[0].name.text, "enc-folder");
    assert_eq!(restored.folders[0].last_changed, "2021-01-01T00:00:00Z");
    assert_eq!(restored.collections, vec!["col1".to_string()]);
    assert_eq!(restored.ciphers.len(), 1);
    let e = &restored.ciphers[0];
    assert_eq!(e.uuid, "e1");
    assert_eq!(e.collection_ids, vec!["c1".to_string(), "c2".to_string()]);
    assert_eq!(e.folder_id.as_deref(), Some("f1"));
    assert!(e.favorite);
    assert_eq!(e.type_, 1);
    assert!(e.data.uri.is_none());
    let uris = e.data.uris.as_ref().expect("uris kept");
    assert_eq!(uris.len(), 1);
    assert_eq!(uris[0].uri.text, "enc-uri");
    assert_eq!(uris[0].match_, Some(2));
    assert_eq!(e.data.username.text, "enc-user");
    let fields = e.data.fields.as_ref().expect("fields kept");
    assert_eq!(fields[0].name.text, "fn");
    let hist = e.data.password_history.as_ref().expect("history kept");
    assert_eq!(hist[0].password, "old");
    assert!(e.login.is_none());
    assert_eq!(e.last_changed, "2021-05-06T07:08:09Z");
}

#[test]
fn app_data_round_trip_pair() {
    let auth = sample_auth();
    let vault = sample_vault();
    let auth_text = store::encode_auth_data(&auth);
    let vault_text = store::encode_vault_data(&vault);
    let data: AppData = store::decode_app_data(&auth_text, &vault_text).expect("both files read");
    assert_eq!(data.auth.access_token, "tok-123");
    assert_eq!(data.vault.profile.name, "Alice");
}

const PROFILE_LOWER: &str = "{\"object\":\"profile\",\"uuid\":\"u1\",\"name\":\"A\",\
\"email\":\"a@b.c\",\"email_verified\":true,\"premium\":false,\
\"master_password_hint\":null,\"language\":\"en\",\"tfa_enabled\":false,\
\"key\":\"k\",\"private_key\":\"p\",\"security_stamp\":\"s\",\"organizations\":[]}";

const PROFILE_CAPS: &str = "{\"Object\":\"profile\",\"Id\":\"u1\",\"Name\":\"A\",\
\"Email\":\"a@b.c\",\"EmailVerified\":true,\"Premium\":false,\
\"MasterPasswordHint\":null,\"Culture\":\"en\",\"TwoFactorEnabled\":false,\
\"Key\":\"k\",\"PrivateKey\":\"p\",\"SecurityStamp\":\"s\",\"Organizations\":[]}";

#[test]
fn alias_tolerance_capitalized_names() {
    let lower = format!(
        "{{\"object\":\"sync\",\"profile\":{},\"folders\":[],\"collections\":[],\"ciphers\":[]}}",
        PROFILE_LOWER
    );
    let caps = format!(
        "{{\"Object\":\"sync\",\"Profile\":{},\"Folders\":[],\"Collections\":[],\"Ciphers\":[]}}",
        PROFILE_CAPS
    );
    let a = store::decode_vault_data(&chars(&lower)).expect("lowercase decodes");
    let b = store::decode_vault_data(&chars(&caps)).expect("capitalized decodes");
    assert_eq!(a.object, b.object);
    assert_eq!(a.profile.uuid, b.profile.uuid);
    assert_eq!(a.profile.email, b.profile.email);
    assert_eq!(a.profile.language, b.profile.language);
    assert_eq!(a.profile.master_password_hint, b.profile.master_password_hint);
    assert_eq!(a.folders.len(), b.folders.len());
    assert_eq!(a.collections.len(), b.collections.len());
    assert_eq!(a.ciphers.len(), b.ciphers.len());
}

#[test]
fn prelogin_failure_on_bad_status() {
    let r = protocol::interpret_prelogin_response(400, &chars("{}"));
    match r {
        Err(ApiError::PreloginFailed { error }) => {
            assert_eq!(error, "http status 400");
        },
        _ => panic!("expected PreloginFailed"),
    }
}

#[test]
fn login_failure_on_bad_status() {
    let r = protocol::interpret_token_response(500, &chars("{}"));
    match r {
        Err(ApiError::LoginFailed { error }) => {
            assert_eq!(error, "http status 500");
        },
        _ => panic!("expected LoginFailed"),
    }
}

#[test]
fn sync_failure_carries_endpoint() {
    let r = protocol::interpret_sync_response(404, &chars("{}"));
    match r {
        Err(ApiError::RequestFailed { endpoint, error }) => {
            assert_eq!(endpoint, "https://api.bitwarden.com/sync");
            assert_eq!(error, "http status 404");
        },
        _ => panic!("expected RequestFailed"),
    }
}

#[test]
fn device_id_fresh_per_call() {
    let (fields1, id1) = protocol::token_request_fields_fresh("a@b.c", "hash");
    let (fields2, id2) = protocol::token_request_fields_fresh("a@b.c", "hash");
    assert_eq!(id1.len(), 36);
    assert_eq!(id2.len(), 36);
    assert_ne!(id1, id2);
    assert_ne!(fields1[5].1, fields2[5].1);
}

#[test]
fn token_fields_hold_the_fixed_constants() {
    let fields = protocol::token_request_fields("a@b.c", "dev-id", "mk-hash");
    let expect = [
        ("grant_type", "password"),
        ("username", "a@b.c"),
        ("scope", "api offline_access"),
        ("client_id", "connector"),
        ("deviceType", "3"),
        ("deviceIdentifier", "dev-id"),
        ("deviceName", "bwtui"),
        ("password", "mk-hash"),
    ];
    assert_eq!(fields.len(), expect.len());
    for (got, want) in fields.iter().zip(expect.iter()) {
        assert_eq!(got.0, want.0);
        assert_eq!(got.1, want.1);
    }
}

#[test]
fn prelogin_response_accepts_both_namings() {
    let caps = protocol::interpret_prelogin_response(200, &chars("{\"Kdf\":0,\"KdfIterations\":100000}"))
        .expect("capitalized parses");
    assert_eq!(caps.kdf, 0);
    assert_eq!(caps.kdf_iterations, 100000);
    let lower = protocol::interpret_prelogin_response(
        200,
        &chars("{\"kdf\":0,\"kdf_iterations\":100000}"),
    )
    .expect("lowercase parses");
    assert_eq!(lower, caps);
}

#[test]
fn read_fails_whole_on_bad_cache_text() {
    let r = store::decode_app_data(&chars(""), &chars(""));
    match r {
        Err(ApiError::VaultDataReadFailed { error }) => {
            assert_eq!(error, "could not parse cached data");
        },
        _ => panic!("expected VaultDataReadFailed"),
    }
    let auth_ok = store::encode_auth_data(&sample_auth());
    let r2 = store::decode_app_data(&auth_ok, &chars("not json"));
    assert!(matches!(r2, Err(ApiError::VaultDataReadFailed { .. })));
}

#[test]
fn uris_list_form_is_preserved() {
    let vault = sample_vault();
    let encoded = text(&store::encode_vault_data(&vault));
    assert!(encoded.contains("\"uri\":null"));
    assert!(encoded.contains("\"uris\":[{"));
    let restored = store::decode_vault_data(&chars(&encoded)).expect("round trip");
    assert!(restored.ciphers[0].data.uri.is_none());
    assert!(restored.ciphers[0].data.uris.is_some());
}

#[test]
fn singular_uri_form_is_preserved() {
    let mut vault = sample_vault();
    vault.ciphers[0].data.uri = Some(cs("the-one-uri"));
    vault.ciphers[0].data.uris = None;
    let encoded = text(&store::encode_vault_data(&vault));
    assert!(encoded.contains("\"uri\":\"the-one-uri\""));
    assert!(encoded.contains("\"uris\":null"));
    let restored = store::decode_vault_data(&chars(&encoded)).expect("round trip");
    let e = &restored.ciphers[0];
    assert_eq!(e.data.uri.as_ref().map(|c| c.text.clone()), Some("the-one-uri".to_string()));
    assert!(e.data.uris.is_none());
}

#[test]
fn parser_reads_basic_documents() {
    let j = parse_json_text(&chars(" [1, true, null, \"a\\\"b\\\\c\"] ")).expect("parses");
    match j {
        Json::Arr(items) => {
            assert_eq!(items.len(), 4);
            assert!(matches!(items[0], Json::Num(1)));
            assert!(matches!(items[1], Json::Bool(true)));
            assert!(matches!(items[2], Json::Null));
            match &items[3] {
                Json::Str(cs) => assert_eq!(text(cs), "a\"b\\c"),
                _ => panic!("expected string"),
            }
        },
        _ => panic!("expected array"),
    }
    assert!(parse_json_text(&chars("{\"a\":1} trailing")).is_none());
    assert!(parse_json_text(&chars("")).is_none());
    assert!(parse_json_text(&chars("{\"a\":}")).is_none());
}

#[test]
fn parser_bounds_numbers_at_u64() {
    match parse_json_text(&chars("18446744073709551616")) {
        Some(Json::NumRaw(t)) => assert_eq!(text(&t), "18446744073709551616"),
        _ => panic!("expected an oversize number to be carried as text"),
    }
    match parse_json_text(&chars("18446744073709551615")) {
        Some(Json::Num(n)) => assert_eq!(n, u64::MAX),
        _ => panic!("expected the largest number to parse"),
    }
}

#[test]
fn parser_decodes_standard_escapes() {
    match parse_json_text(&chars("\"a\\u002Bb\\n\\t\\u0041\"")) {
        Some(Json::Str(cs)) => assert_eq!(text(&cs), "a+b\n\tA"),
        _ => panic!("expected a string"),
    }
    match parse_json_text(&chars("\"\\uD83D\\uDE00\"")) {
        Some(Json::Str(cs)) => assert_eq!(text(&cs), "\u{1F600}"),
        _ => panic!("expected a surrogate pair to decode"),
    }
    match parse_json_text(&chars("\"\\b\\f\\r\\/\"")) {
        Some(Json::Str(cs)) => assert_eq!(text(&cs), "\u{8}\u{c}\r/"),
        _ => panic!("expected the short escapes to decode"),
    }
}

#[test]
fn parser_rejects_bad_escapes() {
    assert!(parse_json_text(&chars("\"\\q\"")).is_none());
    assert!(parse_json_text(&chars("\"\\uDC00\"")).is_none());
    assert!(parse_json_text(&chars("\"\\uD800x\"")).is_none());
    assert!(parse_json_text(&chars("\"\\u12G4\"")).is_none());
}

#[test]
fn control_characters_round_trip_as_escapes() {
    let mut vault = sample_vault();
    vault.profile.name = "line1\nline2\u{1}".to_string();
    let encoded = text(&store::encode_vault_data(&vault));
    assert!(encoded.contains("line1\\nline2\\u0001"));
    let restored = store::decode_vault_data(&chars(&encoded)).expect("round trip");
    assert_eq!(restored.profile.name, "line1\nline2\u{1}");
    let value: serde_json::Value = serde_json::from_str(&encoded).expect("valid JSON");
    assert_eq!(value["profile"]["name"].as_str(), Some("line1\nline2\u{1}"));
}

#[test]
fn foreign_numbers_tolerated_in_unknown_members() {
    let lower = format!(
        "{{\"object\":\"sync\",\"score\":-1.5e3,\"profile\":{},\"folders\":[],\
\"collections\":[],\"ciphers\":[]}}",
        PROFILE_LOWER
    );
    let decoded = store::decode_vault_data(&chars(&lower)).expect("unknown float ignored");
    assert_eq!(decoded.profile.uuid, "u1");
    let bad = protocol::interpret_prelogin_response(
        200,
        &chars("{\"kdf\":-1,\"kdf_iterations\":100000}"),
    );
    assert!(matches!(bad, Err(ApiError::PreloginFailed { .. })));
}

#[test]
fn encoder_output_is_json_for_other_readers() {
    let encoded = text(&store::encode_auth_data(&sample_auth()));
    let value: serde_json::Value = serde_json::from_str(&encoded).expect("valid JSON");
    assert_eq!(value["access_token"].as_str(), Some("tok-123"));
    assert_eq!(value["expires_in"].as_u64(), Some(3600));
    assert!(value.get("cipher").is_none());

    let vault_encoded = text(&store::encode_vault_data(&sample_vault()));
    let vault_value: serde_json::Value = serde_json::from_str(&vault_encoded).expect("valid JSON");
    assert_eq!(vault_value["profile"]["email"].as_str(), Some("alice@example.com"));
    assert_eq!(vault_value["ciphers"][0]["data"]["uris"][0]["match_"].as_u64(), Some(2));
}

#[test]
fn decoder_reads_serde_json_output() {
    let lower = format!(
        "{{\"object\":\"sync\",\"profile\":{},\"folders\":[],\"collections\":[],\"ciphers\":[]}}",
        PROFILE_LOWER
    );
    let value: serde_json::Value = serde_json::from_str(&lower).expect("valid JSON");
    let compact = serde_json::to_string(&value).expect("prints");
    let decoded = store::decode_vault_data(&chars(&compact)).expect("reads serde_json output");
    assert_eq!(decoded.profile.uuid, "u1");
}

#[test]
fn error_messages_render_stage_and_cause() {
    let e = ApiError::PreloginFailed { error: "boom".to_string() };
    assert_eq!(e.message(), "prelogin failed: boom");
    let e = ApiError::LoginFailed { error: "boom".to_string() };
    assert_eq!(e.message(), "authentication failed: boom");
    let e = ApiError::RequestFailed {
        endpoint: "https://api.bitwarden.com/sync".to_string(),
        error: "boom".to_string(),
    };
    assert_eq!(e.message(), "failed to retrieve https://api.bitwarden.com/sync: boom");
    let e = ApiError::VaultDataWriteFailed { error: "boom".to_string() };
    assert_eq!(e.message(), "failed to write sync data: boom");
    let e = ApiError::VaultDataReadFailed { error: "boom".to_string() };
    assert_eq!(e.message(), "failed to read sync data: boom");
}

#[test]
fn auth_header_joins_type_and_token() {
    assert_eq!(protocol::auth_header("Bearer", "abc123"), "Bearer abc123");
}

#[test]
fn prelogin_body_is_the_email_object() {
    assert_eq!(
        text(&protocol::prelogin_body("a@b.c")),
        "{\"email\":\"a@b.c\"}"
    );
}

const ENTRY_LOWER: &str = "{\"object\":\"cipher\",\"collection_ids\":[],\"folder_id\":null,\
\"favorite\":false,\"edit\":true,\"uuid\":\"e9\",\"organization_id\":null,\"type_\":1,\
\"data\":{\"uri\":\"u\",\"uris\":null,\"username\":\"un\",\"password\":\"pw\",\
\"password_last_changed\":null,\"totp\":null,\"name\":\"n\",\"notes\":null,\
\"fields\":null,\"password_history\":null},\"name\":\"n\",\"notes\":null,\
\"card\":null,\"identity\":null,\"secure_note\":null,\"fields\":null,\
\"password_history\":null,\"attachments\":null,\"organization_tfa\":false,\
\"last_changed\":\"2021-01-01T00:00:00Z\"}";

const ENTRY_CAPS: &str = "{\"Object\":\"cipher\",\"CollectionIds\":[],\"FolderId\":null,\
\"Favorite\":false,\"Edit\":true,\"Id\":\"e9\",\"OrganizationId\":null,\"Type\":1,\
\"Data\":{\"Uri\":\"u\",\"Uris\":null,\"Username\":\"un\",\"Password\":\"pw\",\
\"PasswordRevisionDate\":null,\"Totp\":null,\"Name\":\"n\",\"Notes\":null,\
\"Fields\":null,\"PasswordHistory\":null},\"Name\":\"n\",\"Notes\":null,\
\"Card\":null,\"Identity\":null,\"SecureNote\":null,\"Fields\":null,\
\"PasswordHistory\":null,\"Attachments\":null,\"OrganizationUseTotp\":false,\
\"RevisionDate\":\"2021-01-01T00:00:00Z\"}";

#[test]
fn alias_tolerance_covers_entries() {
    let lower = format!(
        "{{\"object\":\"sync\",\"profile\":{},\"folders\":[],\"collections\":[],\"ciphers\":[{}]}}",
        PROFILE_LOWER, ENTRY_LOWER
    );
    let caps = format!(
        "{{\"Object\":\"sync\",\"Profile\":{},\"Folders\":[],\"Collections\":[],\"Ciphers\":[{}]}}",
        PROFILE_CAPS, ENTRY_CAPS
    );
    let a = store::decode_vault_data(&chars(&lower)).expect("lowercase decodes");
    let b = store::decode_vault_data(&chars(&caps)).expect("capitalized decodes");
    let (ea, eb) = (&a.ciphers[0], &b.ciphers[0]);
    assert_eq!(ea.uuid, eb.uuid);
    assert_eq!(ea.type_, eb.type_);
    assert_eq!(ea.edit, eb.edit);
    assert_eq!(ea.data.uri.as_ref().map(|c| c.text.clone()), Some("u".to_string()));
    assert_eq!(
        ea.data.uri.as_ref().map(|c| c.text.clone()),
        eb.data.uri.as_ref().map(|c| c.text.clone())
    );
    assert!(ea.data.uris.is_none() && eb.data.uris.is_none());
    assert_eq!(ea.last_changed, eb.last_changed);
    assert!(ea.login.is_none() && eb.login.is_none());
}
