//! The vault data model: the session, the account profile, folders, cipher
//! entries and the aggregate vault snapshot, together with the error
//! taxonomy of the synchronization pipeline.
//!
//! Every executable type has a ghost mirror (its view) over `Seq<char>`,
//! `u64`, `bool`, `Option` and `Seq`, which the contracts of the codec and
//! of the persistence layer speak about.

use vstd::prelude::*;

verus! {

/// One error kind per pipeline stage, each carrying a free-text cause.
#[derive(Debug)]
pub enum ApiError {
    PreloginFailed { error: String },
    LoginFailed { error: String },
    RequestFailed { endpoint: String, error: String },
    VaultDataWriteFailed { error: String },
    VaultDataReadFailed { error: String },
}

impl ApiError {
    /// The rendered form of an error, stage first, cause after.
    pub open spec fn message_text(&self) -> Seq<char> {
        match self {
            ApiError::PreloginFailed { error } => "prelogin failed: "@ + error@,
            ApiError::LoginFailed { error } => "authentication failed: "@ + error@,
            ApiError::RequestFailed { endpoint, error } => "failed to retrieve "@ + endpoint@
                + ": "@ + error@,
            ApiError::VaultDataWriteFailed { error } => "failed to write sync data: "@ + error@,
            ApiError::VaultDataReadFailed { error } => "failed to read sync data: "@ + error@,
        }
    }

    /// Renders the error for display, as `message_text` says.
    pub fn message(&self) -> (r: String)
        ensures
            r@ == self.message_text(),
    {
        match self {
            ApiError::PreloginFailed { error } => String::from_str("prelogin failed: ").concat(
                error.as_str(),
            ),
            ApiError::LoginFailed { error } => String::from_str("authentication failed: ").concat(
                error.as_str(),
            ),
            ApiError::RequestFailed { endpoint, error } => String::from_str(
                "failed to retrieve ",
            ).concat(endpoint.as_str()).concat(": ").concat(error.as_str()),
            ApiError::VaultDataWriteFailed { error } => String::from_str(
                "failed to write sync data: ",
            ).concat(error.as_str()),
            ApiError::VaultDataReadFailed { error } => String::from_str(
                "failed to read sync data: ",
            ).concat(error.as_str()),
        }
    }
}

/// An encrypted string as transmitted by the service: opaque text to this
/// library, decrypted only by the external cipher suite.
pub struct CipherString {
    pub text: String,
}

impl View for CipherString {
    type V = Seq<char>;

    open spec fn view(&self) -> Seq<char> {
        self.text@
    }
}

/// The state derived by the external cipher suite from the user's email,
/// password and KDF iteration count.  Only the master-key hash is read by
/// this library (it is sent as the password field of the token exchange);
/// the key material itself stays with the external capability.  Never
/// persisted.
pub struct CipherSuite {
    pub master_key_hash: String,
}

impl View for CipherSuite {
    type V = Seq<char>;

    open spec fn view(&self) -> Seq<char> {
        self.master_key_hash@
    }
}

/// An authenticated session: the bearer token and the KDF parameters it was
/// derived under.  The cipher suite is held only in memory and is excluded
/// from the serialized form.
pub struct AuthData {
    pub access_token: String,
    pub expires_in: u64,
    pub token_type: String,
    pub kdf: u64,
    pub kdf_iterations: u64,
    pub cipher: Option<CipherSuite>,
}

pub struct AuthDataV {
    pub access_token: Seq<char>,
    pub expires_in: u64,
    pub token_type: Seq<char>,
    pub kdf: u64,
    pub kdf_iterations: u64,
    pub cipher: Option<Seq<char>>,
}

impl View for AuthData {
    type V = AuthDataV;

    open spec fn view(&self) -> AuthDataV {
        AuthDataV {
            access_token: self.access_token@,
            expires_in: self.expires_in,
            token_type: self.token_type@,
            kdf: self.kdf,
            kdf_iterations: self.kdf_iterations,
            cipher: match self.cipher {
                Some(c) => Some(c@),
                None => None,
            },
        }
    }
}

impl AuthDataV {
    /// The part of a session that reaches the cache file: everything but
    /// the cipher suite.
    pub open spec fn persisted(self) -> AuthDataV {
        AuthDataV { cipher: None, ..self }
    }
}

/// Account identity as reported at sync time.
pub struct Profile {
    pub object: String,
    pub uuid: String,
    pub name: String,
    pub email: String,
    pub email_verified: bool,
    pub premium: bool,
    pub master_password_hint: Option<String>,
    pub language: String,
    pub tfa_enabled: bool,
    pub key: CipherString,
    pub private_key: CipherString,
    pub security_stamp: String,
    pub organizations: Vec<String>,
}

pub struct ProfileV {
    pub object: Seq<char>,
    pub uuid: Seq<char>,
    pub name: Seq<char>,
    pub email: Seq<char>,
    pub email_verified: bool,
    pub premium: bool,
    pub master_password_hint: Option<Seq<char>>,
    pub language: Seq<char>,
    pub tfa_enabled: bool,
    pub key: Seq<char>,
    pub private_key: Seq<char>,
    pub security_stamp: Seq<char>,
    pub organizations: Seq<Seq<char>>,
}

impl View for Profile {
    type V = ProfileV;

    open spec fn view(&self) -> ProfileV {
        ProfileV {
            object: self.object@,
            uuid: self.uuid@,
            name: self.name@,
            email: self.email@,
            email_verified: self.email_verified,
            premium: self.premium,
            master_password_hint: match self.master_password_hint {
                Some(ref s) => Some(s@),
                None => None,
            },
            language: self.language@,
            tfa_enabled: self.tfa_enabled,
            key: self.key@,
            private_key: self.private_key@,
            security_stamp: self.security_stamp@,
            organizations: Seq::new(self.organizations@.len(), |i: int| self.organizations@[i]@),
        }
    }
}

/// A user-defined grouping of entries; referenced by id from entries.
pub struct Folder {
    pub object: String,
    pub uuid: String,
    pub name: CipherString,
    pub last_changed: String,
}

pub struct FolderV {
    pub object: Seq<char>,
    pub uuid: Seq<char>,
    pub name: Seq<char>,
    pub last_changed: Seq<char>,
}

impl View for Folder {
    type V = FolderV;

    open spec fn view(&self) -> FolderV {
        FolderV {
            object: self.object@,
            uuid: self.uuid@,
            name: self.name@,
            last_changed: self.last_changed@,
        }
    }
}

/// A custom field of an entry: a name/value/type triple, all encrypted.
pub struct CipherEntryFields {
    pub type_: u64,
    pub name: CipherString,
    pub value: CipherString,
}

pub struct CipherEntryFieldsV {
    pub type_: u64,
    pub name: Seq<char>,
    pub value: Seq<char>,
}

impl View for CipherEntryFields {
    type V = CipherEntryFieldsV;

    open spec fn view(&self) -> CipherEntryFieldsV {
        CipherEntryFieldsV { type_: self.type_, name: self.name@, value: self.value@ }
    }
}

/// One password-history record of an entry.
pub struct CipherEntryHistory {
    pub password: String,
    pub last_used_date: String,
}

pub struct CipherEntryHistoryV {
    pub password: Seq<char>,
    pub last_used_date: Seq<char>,
}

impl View for CipherEntryHistory {
    type V = CipherEntryHistoryV;

    open spec fn view(&self) -> CipherEntryHistoryV {
        CipherEntryHistoryV { password: self.password@, last_used_date: self.last_used_date@ }
    }
}

/// A URI plus its match rule.
pub struct CipherEntryUriMatch {
    pub uri: CipherString,
    pub match_: Option<u64>,
}

pub struct CipherEntryUriMatchV {
    pub uri: Seq<char>,
    pub match_: Option<u64>,
}

impl View for CipherEntryUriMatch {
    type V = CipherEntryUriMatchV;

    open spec fn view(&self) -> CipherEntryUriMatchV {
        CipherEntryUriMatchV { uri: self.uri@, match_: self.match_ }
    }
}

/// The type-specific payload of an entry.  An entry may carry a singular
/// `uri`, a list of `uris`, both, or neither; which of the forms is present
/// is preserved by the codec.
pub struct CipherEntryData {
    pub uri: Option<CipherString>,
    pub uris: Option<Vec<CipherEntryUriMatch>>,
    pub username: CipherString,
    pub password: CipherString,
    pub password_last_changed: Option<String>,
    pub totp: Option<String>,
    pub name: CipherString,
    pub notes: Option<String>,
    pub fields: Option<Vec<CipherEntryFields>>,
    pub password_history: Option<Vec<CipherEntryHistory>>,
}

pub struct CipherEntryDataV {
    pub uri: Option<Seq<char>>,
    pub uris: Option<Seq<CipherEntryUriMatchV>>,
    pub username: Seq<char>,
    pub password: Seq<char>,
    pub password_last_changed: Option<Seq<char>>,
    pub totp: Option<Seq<char>>,
    pub name: Seq<char>,
    pub notes: Option<Seq<char>>,
    pub fields: Option<Seq<CipherEntryFieldsV>>,
    pub password_history: Option<Seq<CipherEntryHistoryV>>,
}

impl View for CipherEntryData {
    type V = CipherEntryDataV;

    open spec fn view(&self) -> CipherEntryDataV {
        CipherEntryDataV {
            uri: match self.uri {
                Some(ref s) => Some(s@),
                None => None,
            },
            uris: match self.uris {
                Some(ref v) => Some(Seq::new(v@.len(), |i: int| v@[i]@)),
                None => None,
            },
            username: self.username@,
            password: self.password@,
            password_last_changed: match self.password_last_changed {
                Some(ref s) => Some(s@),
                None => None,
            },
            totp: match self.totp {
                Some(ref s) => Some(s@),
                None => None,
            },
            name: self.name@,
            notes: match self.notes {
                Some(ref s) => Some(s@),
                None => None,
            },
            fields: match self.fields {
                Some(ref v) => Some(Seq::new(v@.len(), |i: int| v@[i]@)),
                None => None,
            },
            password_history: match self.password_history {
                Some(ref v) => Some(Seq::new(v@.len(), |i: int| v@[i]@)),
                None => None,
            },
        }
    }
}

/// A single vault item.
pub struct CipherEntry {
    pub object: String,
    pub collection_ids: Vec<String>,
    pub folder_id: Option<String>,
    pub favorite: bool,
    pub edit: bool,
    pub uuid: String,
    pub organization_id: Option<String>,
    pub type_: u64,
    pub data: CipherEntryData,
    pub name: CipherString,
    pub notes: Option<String>,
    pub login: Option<CipherEntryData>,
    pub card: Option<String>,
    pub identity: Option<String>,
    pub secure_note: Option<String>,
    pub fields: Option<Vec<CipherEntryFields>>,
    pub password_history: Option<Vec<CipherEntryHistory>>,
    pub attachments: Option<String>,
    pub organization_tfa: bool,
    pub last_changed: String,
}

pub struct CipherEntryV {
    pub object: Seq<char>,
    pub collection_ids: Seq<Seq<char>>,
    pub folder_id: Option<Seq<char>>,
    pub favorite: bool,
    pub edit: bool,
    pub uuid: Seq<char>,
    pub organization_id: Option<Seq<char>>,
    pub type_: u64,
    pub data: CipherEntryDataV,
    pub name: Seq<char>,
    pub notes: Option<Seq<char>>,
    pub login: Option<CipherEntryDataV>,
    pub card: Option<Seq<char>>,
    pub identity: Option<Seq<char>>,
    pub secure_note: Option<Seq<char>>,
    pub fields: Option<Seq<CipherEntryFieldsV>>,
    pub password_history: Option<Seq<CipherEntryHistoryV>>,
    pub attachments: Option<Seq<char>>,
    pub organization_tfa: bool,
    pub last_changed: Seq<char>,
}

impl View for CipherEntry {
    type V = CipherEntryV;

    open spec fn view(&self) -> CipherEntryV {
        CipherEntryV {
            object: self.object@,
            collection_ids: Seq::new(
                self.collection_ids@.len(),
                |i: int| self.collection_ids@[i]@,
            ),
            folder_id: match self.folder_id {
                Some(ref s) => Some(s@),
                None => None,
            },
            favorite: self.favorite,
            edit: self.edit,
            uuid: self.uuid@,
            organization_id: match self.organization_id {
                Some(ref s) => Some(s@),
                None => None,
            },
            type_: self.type_,
            data: self.data@,
            name: self.name@,
            notes: match self.notes {
                Some(ref s) => Some(s@),
                None => None,
            },
            login: match self.login {
                Some(ref d) => Some(d@),
                None => None,
            },
            card: match self.card {
                Some(ref s) => Some(s@),
                None => None,
            },
            identity: match self.identity {
                Some(ref s) => Some(s@),
                None => None,
            },
            secure_note: match self.secure_note {
                Some(ref s) => Some(s@),
                None => None,
            },
            fields: match self.fields {
                Some(ref v) => Some(Seq::new(v@.len(), |i: int| v@[i]@)),
                None => None,
            },
            password_history: match self.password_history {
                Some(ref v) => Some(Seq::new(v@.len(), |i: int| v@[i]@)),
                None => None,
            },
            attachments: match self.attachments {
                Some(ref s) => Some(s@),
                None => None,
            },
            organization_tfa: self.organization_tfa,
            last_changed: self.last_changed@,
        }
    }
}

impl CipherEntryV {
    /// The part of an entry that reaches the serialized form: the in-memory
    /// `login` payload is never written out.
    pub open spec fn persisted(self) -> CipherEntryV {
        CipherEntryV { login: None, ..self }
    }
}

/// Equivalent-domain settings as reported by the service; carried but not
/// read by this client.
pub struct Domains {
}

/// The aggregate snapshot of the vault as of the last successful sync.
pub struct VaultData {
    pub object: String,
    pub profile: Profile,
    pub folders: Vec<Folder>,
    pub collections: Vec<String>,
    pub ciphers: Vec<CipherEntry>,
    pub domains: Option<Domains>,
}

pub struct VaultDataV {
    pub object: Seq<char>,
    pub profile: ProfileV,
    pub folders: Seq<FolderV>,
    pub collections: Seq<Seq<char>>,
    pub ciphers: Seq<CipherEntryV>,
    pub domains: bool,
}

impl View for VaultData {
    type V = VaultDataV;

    open spec fn view(&self) -> VaultDataV {
        VaultDataV {
            object: self.object@,
            profile: self.profile@,
            folders: Seq::new(self.folders@.len(), |i: int| self.folders@[i]@),
            collections: Seq::new(self.collections@.len(), |i: int| self.collections@[i]@),
            ciphers: Seq::new(self.ciphers@.len(), |i: int| self.ciphers@[i]@),
            domains: self.domains is Some,
        }
    }
}

impl VaultDataV {
    /// The part of a vault snapshot that reaches the serialized form: the
    /// domains record and the in-memory login payloads are never written.
    pub open spec fn persisted(self) -> VaultDataV {
        VaultDataV {
            domains: false,
            ciphers: Seq::new(self.ciphers.len(), |i: int| self.ciphers[i].persisted()),
            ..self
        }
    }
}

/// The current session paired with the current vault snapshot: the unit of
/// local persistence.
pub struct AppData {
    pub auth: AuthData,
    pub vault: VaultData,
}

} // verus!
