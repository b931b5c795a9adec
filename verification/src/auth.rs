//! Authentication: API-key credentials, which credential store is read in
//! which order, and the cache of the current credentials.
//!
//! Reading and writing the stores is the caller's work; the functions here
//! decide what to read next and what the outcome of each read means.
use vstd::prelude::*;
use crate::connectors::opt_view;
use crate::models::Timestamp;
use crate::protocol::AuthMode as ApiAuthMode;
use crate::text::{chars_eq, chars_of, string_from_chars, trim, trim_chars};

verus! {

/// Account type of the current user.
#[derive(Clone, Copy, Debug, PartialEq, Eq)]
pub enum AuthMode {
    ApiKey,
}

/// Credentials given as an API key.
#[derive(Debug, Clone)]
pub struct ApiKeyAuth {
    api_key: String,
}

/// The authentication mechanism of the current user.
#[derive(Debug, Clone)]
pub enum CodexAuth {
    ApiKey(ApiKeyAuth),
}

impl CodexAuth {
    /// The API key held.
    pub closed spec fn spec_key(&self) -> Seq<char> {
        match self {
            CodexAuth::ApiKey(a) => a.api_key@,
        }
    }

    /// The protocol's authentication mode: API key, the only one supported.
    pub fn api_auth_mode(&self) -> (r: ApiAuthMode)
        ensures
            r == ApiAuthMode::ApiKey,
    {
        ApiAuthMode::ApiKey
    }

    /// The API key.
    pub fn api_key(&self) -> (r: Option<&str>)
        ensures
            r matches Some(k) && k@ == self.spec_key(),
    {
        match self {
            CodexAuth::ApiKey(a) => Some(a.api_key.as_str()),
        }
    }

    /// The token to send: the API key.
    pub fn get_token(&self) -> (r: Result<String, AuthError>)
        ensures
            r matches Ok(t) && t@ == self.spec_key(),
    {
        match self {
            CodexAuth::ApiKey(a) => Ok(a.api_key.clone()),
        }
    }

    /// Credentials for an API key.
    pub fn from_api_key(api_key: &str) -> (r: Self)
        ensures
            r.spec_key() == api_key@,
    {
        CodexAuth::ApiKey(ApiKeyAuth { api_key: api_key.to_string() })
    }

    /// Stand-in credentials for tests: the key `test-api-key`.
    pub fn create_dummy_chatgpt_auth_for_testing() -> (r: Self)
        ensures
            r.spec_key() == "test-api-key"@,
    {
        Self::from_api_key("test-api-key")
    }

    /// Credentials from stored auth data: its API key, or an error when it
    /// has none.
    pub fn from_auth_dot_json(auth_dot_json: AuthDotJson) -> (r: Result<Self, AuthError>)
        requires
            auth_dot_json.resolved_mode() == ApiAuthMode::ApiKey,
        ensures
            match auth_dot_json.openai_api_key {
                Some(k) => r matches Ok(a) && a.spec_key() == k@,
                None => r matches Err(e) && e.message@ == missing_key_message(),
            },
    {
        match auth_dot_json.openai_api_key {
            Some(k) => Ok(CodexAuth::ApiKey(ApiKeyAuth { api_key: k })),
            None => Err(AuthError { message: "API key auth is missing a key.".to_string() }),
        }
    }
}

/// Two credentials compare equal when their authentication modes do; with
/// API keys the only mode, any two credentials compare equal.
impl PartialEq for CodexAuth {
    fn eq(&self, other: &Self) -> (r: bool) {
        match (self.api_auth_mode(), other.api_auth_mode()) {
            (ApiAuthMode::ApiKey, ApiAuthMode::ApiKey) => true,
            (ApiAuthMode::ChatGPT, ApiAuthMode::ChatGPT) => true,
            _ => false,
        }
    }
}

impl vstd::std_specs::cmp::PartialEqSpecImpl for CodexAuth {
    open spec fn obeys_eq_spec() -> bool {
        true
    }

    open spec fn eq_spec(&self, other: &Self) -> bool {
        true
    }
}

pub open spec fn missing_key_message() -> Seq<char> {
    "API key auth is missing a key."@
}

/// An error reading or using credentials.
#[derive(Debug, Clone, PartialEq, Eq)]
pub struct AuthError {
    pub message: String,
}

/// Where credentials are stored.
#[derive(Debug, Clone, Copy, PartialEq, Eq)]
pub enum AuthCredentialsStoreMode {
    File,
    Keyring,
    Auto,
    Ephemeral,
}

/// Tokens of a signed-in account.
#[derive(Debug, Clone, PartialEq, Eq)]
pub struct TokenData {
    pub id_token: String,
    pub access_token: String,
    pub refresh_token: String,
    pub account_id: Option<String>,
}

/// Stored authentication data.
#[derive(Debug, Clone, PartialEq, Eq)]
pub struct AuthDotJson {
    pub auth_mode: Option<ApiAuthMode>,
    pub openai_api_key: Option<String>,
    pub tokens: Option<TokenData>,
    pub last_refresh: Option<Timestamp>,
}

impl AuthDotJson {
    /// The stored mode, API key when none is stored.
    pub open spec fn resolved_mode(&self) -> ApiAuthMode {
        match self.auth_mode {
            Some(m) => m,
            None => ApiAuthMode::ApiKey,
        }
    }

    /// Computes `resolved_mode`.
    pub fn resolved_mode_exec(&self) -> (r: ApiAuthMode)
        ensures
            r == self.resolved_mode(),
    {
        match self.auth_mode {
            Some(m) => m,
            None => ApiAuthMode::ApiKey,
        }
    }

    /// The store to use for this data: the one configured.
    pub fn storage_mode(&self, auth_credentials_store_mode: AuthCredentialsStoreMode) -> (r: AuthCredentialsStoreMode)
        ensures
            r == auth_credentials_store_mode,
    {
        auth_credentials_store_mode
    }
}

/// The environment variable holding an OpenAI API key.
pub fn openai_api_key_env_var() -> (r: &'static str)
    ensures
        r@ == "OPENAI_API_KEY"@,
{
    "OPENAI_API_KEY"
}

/// The environment variable holding a Codex API key.
pub fn codex_api_key_env_var() -> (r: &'static str)
    ensures
        r@ == "CODEX_API_KEY"@,
{
    "CODEX_API_KEY"
}

/// An environment value as an API key: trimmed, and absent when empty.
pub open spec fn env_key(value: Option<Seq<char>>) -> Option<Seq<char>> {
    match value {
        Some(v) => if trim(v).len() > 0 {
            Some(trim(v))
        } else {
            None
        },
        None => None,
    }
}

/// Reads an API key from the value of its environment variable (`env_key`).
pub fn api_key_from_env_value(value: Option<String>) -> (r: Option<String>)
    ensures
        opt_view(r) == env_key(opt_view(value)),
{
    match value {
        Some(v) => {
            let c = chars_of(v.as_str());
            let t = trim_chars(&c);
            if t.len() > 0 {
                Some(string_from_chars(&t))
            } else {
                None
            }
        },
        None => None,
    }
}

/// The stored data written when logging in with an API key: the key and
/// the API-key mode, nothing else.
pub fn login_with_api_key(api_key: &str) -> (r: AuthDotJson)
    ensures
        r.auth_mode == Some(ApiAuthMode::ApiKey),
        opt_view(r.openai_api_key) == Some(api_key@),
        r.tokens is None,
        r.last_refresh is None,
{
    AuthDotJson {
        auth_mode: Some(ApiAuthMode::ApiKey),
        openai_api_key: Some(api_key.to_string()),
        tokens: None,
        last_refresh: None,
    }
}

/// Login restrictions: with API keys only, there are none to enforce.
pub fn enforce_login_restrictions() -> (r: Result<(), AuthError>)
    ensures
        r is Ok,
{
    Ok(())
}

// ---------------------------------------------------------------------------
// Loading credentials
// ---------------------------------------------------------------------------

/// What loading credentials does next.
#[derive(Debug)]
pub enum LoadStep {
    /// Read the in-memory (ephemeral) store.
    ReadEphemeral,
    /// Read the configured persistent store.
    ReadPersisted(AuthCredentialsStoreMode),
    /// Loading is over.
    Done(Result<Option<CodexAuth>, AuthError>),
}

pub open spec fn usable(loaded: Result<Option<AuthDotJson>, AuthError>) -> bool {
    loaded matches Ok(Some(a)) ==> a.resolved_mode() == ApiAuthMode::ApiKey
}

/// The outcome of building credentials from one loaded store.
pub open spec fn built(a: AuthDotJson, r: Result<Option<CodexAuth>, AuthError>) -> bool {
    match a.openai_api_key {
        Some(k) => r matches Ok(Some(c)) && c.spec_key() == k@,
        None => r matches Err(e) && e.message@ == missing_key_message(),
    }
}

fn build(a: AuthDotJson) -> (r: Result<Option<CodexAuth>, AuthError>)
    requires
        a.resolved_mode() == ApiAuthMode::ApiKey,
    ensures
        built(a, r),
{
    match CodexAuth::from_auth_dot_json(a) {
        Ok(c) => Ok(Some(c)),
        Err(e) => Err(e),
    }
}

/// The first step: an API key from the Codex environment variable (when
/// enabled and non-empty) wins; otherwise the ephemeral store is read.
pub fn load_auth_start(enable_codex_api_key_env: bool, codex_api_key_env_value: Option<String>) -> (r: LoadStep)
    ensures
        (enable_codex_api_key_env && env_key(opt_view(codex_api_key_env_value)) is Some) ==> (r matches LoadStep::Done(Ok(Some(c)))
            && c.spec_key() == env_key(opt_view(codex_api_key_env_value))->0),
        !(enable_codex_api_key_env && env_key(opt_view(codex_api_key_env_value)) is Some) ==> r is ReadEphemeral,
{
    if enable_codex_api_key_env {
        match api_key_from_env_value(codex_api_key_env_value) {
            Some(k) => {
                return LoadStep::Done(Ok(Some(CodexAuth::from_api_key(k.as_str()))));
            },
            None => {},
        }
    }
    LoadStep::ReadEphemeral
}

/// After reading the ephemeral store: a read error ends loading; stored
/// data there wins; with the ephemeral store configured nothing else is
/// read; otherwise the configured store is read next.
pub fn load_auth_after_ephemeral(
    loaded: Result<Option<AuthDotJson>, AuthError>,
    auth_credentials_store_mode: AuthCredentialsStoreMode,
) -> (r: LoadStep)
    requires
        usable(loaded),
    ensures
        match loaded {
            Err(e) => r matches LoadStep::Done(Err(e2)) && e2 == e,
            Ok(Some(a)) => r matches LoadStep::Done(res) && built(a, res),
            Ok(None) => if auth_credentials_store_mode == AuthCredentialsStoreMode::Ephemeral {
                r matches LoadStep::Done(Ok(None))
            } else {
                r matches LoadStep::ReadPersisted(m) && m == auth_credentials_store_mode
            },
        },
{
    match loaded {
        Err(e) => LoadStep::Done(Err(e)),
        Ok(Some(a)) => LoadStep::Done(build(a)),
        Ok(None) => match auth_credentials_store_mode {
            AuthCredentialsStoreMode::Ephemeral => LoadStep::Done(Ok(None)),
            m => LoadStep::ReadPersisted(m),
        },
    }
}

/// After reading the configured store: its data, nothing, or its error.
pub fn load_auth_after_persisted(loaded: Result<Option<AuthDotJson>, AuthError>) -> (r: Result<Option<CodexAuth>, AuthError>)
    requires
        usable(loaded),
    ensures
        match loaded {
            Err(e) => r == Err::<Option<CodexAuth>, AuthError>(e),
            Ok(Some(a)) => built(a, r),
            Ok(None) => r matches Ok(None),
        },
{
    match loaded {
        Err(e) => Err(e),
        Ok(Some(a)) => build(a),
        Ok(None) => Ok(None),
    }
}

/// The stores a log-out clears, in order: the ephemeral store, then the
/// configured one unless that is the ephemeral store itself.
pub fn logout_stores(auth_credentials_store_mode: AuthCredentialsStoreMode) -> (r: Vec<AuthCredentialsStoreMode>)
    ensures
        auth_credentials_store_mode == AuthCredentialsStoreMode::Ephemeral ==> r@ == seq![
            AuthCredentialsStoreMode::Ephemeral,
        ],
        auth_credentials_store_mode != AuthCredentialsStoreMode::Ephemeral ==> r@ == seq![
            AuthCredentialsStoreMode::Ephemeral,
            auth_credentials_store_mode,
        ],
{
    match auth_credentials_store_mode {
        AuthCredentialsStoreMode::Ephemeral => {
            let r = vec![AuthCredentialsStoreMode::Ephemeral];
            assert(r@ =~= seq![AuthCredentialsStoreMode::Ephemeral]);
            r
        },
        m => {
            let r = vec![AuthCredentialsStoreMode::Ephemeral, m];
            assert(r@ =~= seq![AuthCredentialsStoreMode::Ephemeral, m]);
            r
        },
    }
}

/// Whether a log-out removed anything, from the outcome of clearing each
/// store in turn: the first error ends it; otherwise true when any store
/// held credentials.
pub fn logout_outcome(results: &Vec<Result<bool, AuthError>>) -> (r: Result<bool, AuthError>)
    ensures
        match r {
            Ok(b) => (forall|i: int| 0 <= i < results.len() ==> (#[trigger] results@[i]) is Ok) && b == (exists|i: int|
                0 <= i < results.len() && #[trigger] results@[i] == Ok::<bool, AuthError>(true)),
            Err(e) => exists|i: int|
                0 <= i < results.len() && #[trigger] results@[i] == Err::<bool, AuthError>(e) && forall|j: int|
                    0 <= j < i ==> (#[trigger] results@[j]) is Ok,
        },
{
    let mut any = false;
    let mut i: usize = 0;
    while i < results.len()
        invariant
            i <= results.len(),
            forall|j: int| 0 <= j < i ==> (#[trigger] results@[j]) is Ok,
            any == (exists|j: int| 0 <= j < i && #[trigger] results@[j] == Ok::<bool, AuthError>(true)),
        decreases results.len() - i,
    {
        match &results[i] {
            Ok(b) => {
                if *b {
                    any = true;
                }
                assert(results@[i as int] == Ok::<bool, AuthError>(*b));
            },
            Err(e) => {
                let e2 = AuthError { message: e.message.clone() };
                assert(e2 == *e);
                assert(results@[i as int] == Err::<bool, AuthError>(e2));
                return Err(e2);
            },
        }
        i += 1;
    }
    Ok(any)
}

// ---------------------------------------------------------------------------
// The credentials cache
// ---------------------------------------------------------------------------

/// One place that holds the current credentials: loaded once, and again
/// only when `reload` is called, so the whole program sees the same
/// credentials. It has no `Debug` form, so the key it holds is never
/// printed with it.
pub struct AuthManager {
    codex_home: String,
    auth: Option<CodexAuth>,
    enable_codex_api_key_env: bool,
    auth_credentials_store_mode: AuthCredentialsStoreMode,
}

impl AuthManager {
    /// The credentials held.
    pub closed spec fn spec_auth(&self) -> Option<CodexAuth> {
        self.auth
    }

    pub closed spec fn spec_home(&self) -> Seq<char> {
        self.codex_home@
    }

    pub closed spec fn spec_env_enabled(&self) -> bool {
        self.enable_codex_api_key_env
    }

    pub closed spec fn spec_store(&self) -> AuthCredentialsStoreMode {
        self.auth_credentials_store_mode
    }

    /// A manager holding the credentials loaded at start; a failed load
    /// leaves it signed out.
    pub fn new(
        codex_home: String,
        enable_codex_api_key_env: bool,
        auth_credentials_store_mode: AuthCredentialsStoreMode,
        loaded: Result<Option<CodexAuth>, AuthError>,
    ) -> (r: Self)
        ensures
            r.spec_auth() == (match loaded {
                Ok(a) => a,
                Err(_) => None,
            }),
            r.spec_home() == codex_home@,
            r.spec_env_enabled() == enable_codex_api_key_env,
            r.spec_store() == auth_credentials_store_mode,
    {
        let auth = match loaded {
            Ok(a) => a,
            Err(_) => None,
        };
        AuthManager { codex_home, auth, enable_codex_api_key_env, auth_credentials_store_mode }
    }

    /// The same as `new`.
    pub fn shared(
        codex_home: String,
        enable_codex_api_key_env: bool,
        auth_credentials_store_mode: AuthCredentialsStoreMode,
        loaded: Result<Option<CodexAuth>, AuthError>,
    ) -> (r: Self)
        ensures
            r.spec_auth() == (match loaded {
                Ok(a) => a,
                Err(_) => None,
            }),
            r.spec_home() == codex_home@,
            r.spec_env_enabled() == enable_codex_api_key_env,
            r.spec_store() == auth_credentials_store_mode,
    {
        Self::new(codex_home, enable_codex_api_key_env, auth_credentials_store_mode, loaded)
    }

    /// A manager holding the given credentials, for tests.
    pub fn from_auth_for_testing(auth: CodexAuth) -> (r: Self)
        ensures
            r.spec_auth() == Some(auth),
            r.spec_home() == "non-existent"@,
            !r.spec_env_enabled(),
            r.spec_store() == AuthCredentialsStoreMode::File,
    {
        AuthManager {
            codex_home: "non-existent".to_string(),
            auth: Some(auth),
            enable_codex_api_key_env: false,
            auth_credentials_store_mode: AuthCredentialsStoreMode::File,
        }
    }

    /// A manager holding the given credentials and home, for tests.
    pub fn from_auth_for_testing_with_home(auth: CodexAuth, codex_home: String) -> (r: Self)
        ensures
            r.spec_auth() == Some(auth),
            r.spec_home() == codex_home@,
            !r.spec_env_enabled(),
            r.spec_store() == AuthCredentialsStoreMode::File,
    {
        AuthManager {
            codex_home,
            auth: Some(auth),
            enable_codex_api_key_env: false,
            auth_credentials_store_mode: AuthCredentialsStoreMode::File,
        }
    }

    /// Where credentials are stored.
    pub fn codex_home(&self) -> (r: &str)
        ensures
            r@ == self.spec_home(),
    {
        self.codex_home.as_str()
    }

    /// Whether the Codex API key environment variable is honoured.
    pub fn codex_api_key_env_enabled(&self) -> (r: bool)
        ensures
            r == self.spec_env_enabled(),
    {
        self.enable_codex_api_key_env
    }

    /// The configured store.
    pub fn store_mode(&self) -> (r: AuthCredentialsStoreMode)
        ensures
            r == self.spec_store(),
    {
        self.auth_credentials_store_mode
    }

    /// The credentials held, without reloading.
    pub fn auth_cached(&self) -> (r: Option<CodexAuth>)
        ensures
            r is Some == self.spec_auth() is Some,
            r matches Some(a) ==> a.spec_key() == self.spec_auth()->0.spec_key(),
    {
        match &self.auth {
            Some(a) => Some(CodexAuth::from_api_key(a.api_key().unwrap())),
            None => None,
        }
    }

    /// The credentials held.
    pub fn auth(&self) -> (r: Option<CodexAuth>)
        ensures
            r is Some == self.spec_auth() is Some,
            r matches Some(a) ==> a.spec_key() == self.spec_auth()->0.spec_key(),
    {
        self.auth_cached()
    }

    /// Whether two optional credentials are the same value: both absent, or
    /// both present with the same key (`auths_equal_spec`).
    pub fn auths_equal(a: Option<&CodexAuth>, b: Option<&CodexAuth>) -> (r: bool)
        ensures
            r == auths_equal_spec(
                match a {
                    Some(x) => Some(*x),
                    None => None,
                },
                match b {
                    Some(y) => Some(*y),
                    None => None,
                },
            ),
    {
        match (a, b) {
            (None, None) => true,
            (Some(x), Some(y)) => {
                let kx = chars_of(x.api_key().unwrap());
                let ky = chars_of(y.api_key().unwrap());
                chars_eq(&kx, &ky)
            },
            _ => false,
        }
    }

    /// Replaces the credentials held with freshly loaded ones (a failed load
    /// counts as signed out) and tells whether the value changed: signed in
    /// or out, or a different key.
    pub fn reload(&mut self, loaded: Result<Option<CodexAuth>, AuthError>) -> (changed: bool)
        ensures
            final(self).spec_auth() == (match loaded {
                Ok(a) => a,
                Err(_) => None,
            }),
            changed == reload_changed(old(self).spec_auth(), final(self).spec_auth()),
            final(self).spec_home() == old(self).spec_home(),
            final(self).spec_env_enabled() == old(self).spec_env_enabled(),
            final(self).spec_store() == old(self).spec_store(),
    {
        let new_auth = match loaded {
            Ok(a) => a,
            Err(_) => None,
        };
        self.set_cached_auth(new_auth)
    }

    fn set_cached_auth(&mut self, new_auth: Option<CodexAuth>) -> (changed: bool)
        ensures
            final(self).spec_auth() == new_auth,
            changed == reload_changed(old(self).spec_auth(), new_auth),
            final(self).spec_home() == old(self).spec_home(),
            final(self).spec_env_enabled() == old(self).spec_env_enabled(),
            final(self).spec_store() == old(self).spec_store(),
    {
        let changed = !AuthManager::auths_equal(self.auth.as_ref(), new_auth.as_ref());
        self.auth = new_auth;
        changed
    }

    /// After logging out: the outcome of clearing the stores, and the
    /// credentials reloaded (whatever the outcome).
    pub fn logout(&mut self, removed: Result<bool, AuthError>, reloaded: Result<Option<CodexAuth>, AuthError>) -> (r: Result<bool, AuthError>)
        ensures
            r == removed,
            removed is Ok ==> final(self).spec_auth() == (match reloaded {
                Ok(a) => a,
                Err(_) => None,
            }),
            removed is Err ==> final(self).spec_auth() == old(self).spec_auth(),
    {
        match removed {
            Err(e) => Err(e),
            Ok(b) => {
                self.reload(reloaded);
                Ok(b)
            },
        }
    }

    /// The protocol's authentication mode of the credentials held.
    pub fn get_auth_mode(&self) -> (r: Option<ApiAuthMode>)
        ensures
            r == (if self.spec_auth() is Some {
                Some(ApiAuthMode::ApiKey)
            } else {
                None::<ApiAuthMode>
            }),
    {
        match self.auth_cached() {
            Some(a) => Some(a.api_auth_mode()),
            None => None,
        }
    }
}

/// Whether two optional credentials are the same value: both absent, or
/// both present with the same key.
pub open spec fn auths_equal_spec(a: Option<CodexAuth>, b: Option<CodexAuth>) -> bool {
    match (a, b) {
        (None, None) => true,
        (Some(x), Some(y)) => x.spec_key() == y.spec_key(),
        _ => false,
    }
}

/// What `reload` reports: that the credentials held before and after are
/// not the same value.
pub open spec fn reload_changed(before: Option<CodexAuth>, after: Option<CodexAuth>) -> bool {
    !auths_equal_spec(before, after)
}

/// Reloading reports a change exactly when the user signed in or out or the
/// key changed, and reloading the same outcome again reports none.
pub proof fn law_reload_reports_changes(before: Option<CodexAuth>, loaded: Option<CodexAuth>)
    ensures
        reload_changed(before, loaded) == (before is Some != loaded is Some || (before is Some && loaded is Some
            && before->0.spec_key() != loaded->0.spec_key())),
        !reload_changed(loaded, loaded),
{
}

} // verus!
