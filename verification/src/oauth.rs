//! An OAuth2 authorization server: client and scope registration,
//! authorization codes with PKCE, the client-credentials and refresh-token
//! grants, and validation and revocation of tokens.

use vstd::prelude::*;
use crate::ids::{new_uuid, random_id_text, uuid_simple_text};
use crate::clock::utc_now_millis;
use vstd::string::StringSliceAdditionalSpecFns;
use vstd::utf8::encode_utf8;
use crate::mediator::{entry_names, find_name, names_of, put_name, put_named};
use crate::msteams::joined_by_space;
use crate::multimap::{distinct_keys, has_key, key_index, lemma_key_index_unique};
use crate::text::{str_eq, string_push, string_push_str, to_owned_string};

verus! {

/// Errors of the authorization server.
#[derive(Debug, Clone, PartialEq, Eq)]
pub enum OAuthError {
    InvalidClient(String),
    InvalidGrant(String),
    InvalidScope(String),
    Unauthorized(String),
    TokenExpired,
    TokenRevoked,
}

impl OAuthError {
    /// The error's description.
    pub fn message(&self) -> (r: String)
        ensures
            r@ == match self {
                OAuthError::InvalidClient(s) => "Invalid client: "@ + s@,
                OAuthError::InvalidGrant(s) => "Invalid grant: "@ + s@,
                OAuthError::InvalidScope(s) => "Invalid scope: "@ + s@,
                OAuthError::Unauthorized(s) => "Unauthorized: "@ + s@,
                OAuthError::TokenExpired => "Token expired"@,
                OAuthError::TokenRevoked => "Token revoked"@,
            },
    {
        let (prefix, detail): (&str, Option<&String>) = match self {
            OAuthError::InvalidClient(s) => ("Invalid client: ", Some(s)),
            OAuthError::InvalidGrant(s) => ("Invalid grant: ", Some(s)),
            OAuthError::InvalidScope(s) => ("Invalid scope: ", Some(s)),
            OAuthError::Unauthorized(s) => ("Unauthorized: ", Some(s)),
            OAuthError::TokenExpired => ("Token expired", None),
            OAuthError::TokenRevoked => ("Token revoked", None),
        };
        let mut out = to_owned_string(prefix);
        match detail {
            Some(s) => string_push_str(&mut out, s.as_str()),
            None => {},
        }
        out
    }
}

/// The ways of obtaining a token.
#[derive(Debug, Clone, Copy, PartialEq, Eq, Structural)]
pub enum GrantType {
    AuthorizationCode,
    ClientCredentials,
    RefreshToken,
    Password,
}

/// A registered application.
#[derive(Debug, Clone)]
pub struct OAuthClient {
    pub client_id: String,
    /// The secret, hashed.
    pub client_secret_hash: String,
    pub name: String,
    pub redirect_uris: Vec<String>,
    pub allowed_scopes: Vec<String>,
    pub grant_types: Vec<GrantType>,
    /// Whether the client must prove its secret.
    pub confidential: bool,
    /// In milliseconds since the Unix epoch.
    pub created_at_millis: i64,
    pub active: bool,
}

/// `a` and `b` hold the same client.
pub open spec fn same_client(a: OAuthClient, b: OAuthClient) -> bool {
    &&& a.client_id@ == b.client_id@
    &&& a.client_secret_hash@ == b.client_secret_hash@
    &&& a.name@ == b.name@
    &&& a.redirect_uris@ == b.redirect_uris@
    &&& a.allowed_scopes@ == b.allowed_scopes@
    &&& a.grant_types@ == b.grant_types@
    &&& a.confidential == b.confidential
    &&& a.created_at_millis == b.created_at_millis
    &&& a.active == b.active
}

/// An authorization code handed to a client for a user.
#[derive(Debug, Clone)]
pub struct AuthorizationCode {
    pub code: String,
    pub client_id: String,
    pub user_id: String,
    pub redirect_uri: String,
    pub scopes: Vec<String>,
    /// PKCE challenge.
    pub code_challenge: Option<String>,
    /// `plain` (the default) or `S256`.
    pub code_challenge_method: Option<String>,
    /// In milliseconds since the Unix epoch.
    pub expires_at_millis: i64,
    /// Exchanged already.
    pub used: bool,
}

/// An access token.
#[derive(Debug, Clone)]
pub struct AccessToken {
    pub token: String,
    /// Always `Bearer`.
    pub token_type: String,
    pub client_id: String,
    /// The user, for a token obtained for one.
    pub user_id: Option<String>,
    pub scopes: Vec<String>,
    /// In milliseconds since the Unix epoch.
    pub expires_at_millis: i64,
    /// In milliseconds since the Unix epoch.
    pub created_at_millis: i64,
    pub revoked: bool,
}

/// `a` and `b` hold the same access token.
pub open spec fn same_access_token(a: AccessToken, b: AccessToken) -> bool {
    &&& a.token@ == b.token@
    &&& a.token_type@ == b.token_type@
    &&& a.client_id@ == b.client_id@
    &&& a.user_id == b.user_id
    &&& a.scopes@ == b.scopes@
    &&& a.expires_at_millis == b.expires_at_millis
    &&& a.created_at_millis == b.created_at_millis
    &&& a.revoked == b.revoked
}

/// A refresh token.
#[derive(Debug, Clone)]
pub struct RefreshToken {
    pub token: String,
    /// The access token issued with it.
    pub access_token: String,
    pub client_id: String,
    pub user_id: Option<String>,
    pub scopes: Vec<String>,
    /// In milliseconds since the Unix epoch.
    pub expires_at_millis: i64,
    pub revoked: bool,
}

/// What a grant answers.
#[derive(Debug, Clone, PartialEq, Eq)]
pub struct TokenResponse {
    pub access_token: String,
    /// Always `Bearer`.
    pub token_type: String,
    /// Seconds the access token lasts.
    pub expires_in: u64,
    pub refresh_token: Option<String>,
    /// The scopes, joined by spaces.
    pub scope: String,
}

/// A scope clients may ask for.
#[derive(Debug, Clone, PartialEq, Eq)]
pub struct Scope {
    pub name: String,
    pub description: String,
    pub is_default: bool,
}

/// How long things last, in seconds.
#[derive(Debug, Clone, Copy, PartialEq, Eq)]
pub struct TokenConfig {
    pub access_token_lifetime: u64,
    pub refresh_token_lifetime: u64,
    pub auth_code_lifetime: u64,
}

/// The longest lifetime in seconds that a time span can hold.
pub const MAX_LIFETIME_SECS: u64 = 9_223_372_036_854_775;

/// Every lifetime of `c` can be held as a time span.
pub open spec fn config_ok(c: TokenConfig) -> bool {
    &&& c.access_token_lifetime <= MAX_LIFETIME_SECS
    &&& c.refresh_token_lifetime <= MAX_LIFETIME_SECS
    &&& c.auth_code_lifetime <= MAX_LIFETIME_SECS
}

impl Default for TokenConfig {
    /// An hour for access tokens, thirty days for refresh tokens, ten
    /// minutes for authorization codes.
    fn default() -> (r: Self)
        ensures
            r.access_token_lifetime == 3600,
            r.refresh_token_lifetime == 2_592_000,
            r.auth_code_lifetime == 600,
    {
        TokenConfig { access_token_lifetime: 3600, refresh_token_lifetime: 2_592_000, auth_code_lifetime: 600 }
    }
}

/// `now_millis` plus `lifetime` seconds, held at the largest time there is.
pub open spec fn expiry(now_millis: i64, lifetime: u64) -> i64 {
    if now_millis + lifetime * 1000 > i64::MAX {
        i64::MAX
    } else {
        (now_millis + lifetime * 1000) as i64
    }
}

fn expiry_exec(now_millis: i64, lifetime: u64) -> (r: i64)
    ensures
        r == expiry(now_millis, lifetime),
{
    let t: i128 = (now_millis as i128) + (lifetime as i128) * 1000;
    if t > (i64::MAX as i128) {
        i64::MAX
    } else {
        t as i64
    }
}

/// A character that `uuid` writes in a UUID's simple form.
pub open spec fn is_lower_hex(c: char) -> bool {
    ('0' <= c <= '9') || ('a' <= c <= 'f')
}

/// A random UUID as 32 lowercase hexadecimal digits.
fn random_uuid_simple() -> (r: String)
    ensures
        r@.len() == 32,
        forall|i: int| 0 <= i < 32 ==> is_lower_hex(#[trigger] r@[i]),
{
    uuid_simple_text(&new_uuid())
}

/// A fresh token: two random UUIDs in simple form, 64 hexadecimal digits.
fn generate_token() -> (r: String)
    ensures
        r@.len() == 64,
{
    let mut t = random_uuid_simple();
    let u = random_uuid_simple();
    string_push_str(&mut t, u.as_str());
    t
}

/// How a client secret is stored: `hash:` before it.
pub open spec fn secret_hash(secret: Seq<char>) -> Seq<char> {
    "hash:"@ + secret
}

fn hash_secret(secret: &str) -> (r: String)
    ensures
        r@ == secret_hash(secret@),
{
    let mut out = to_owned_string("hash:");
    string_push_str(&mut out, secret);
    out
}

/// The lowercase hexadecimal digit for `d` below sixteen.
pub open spec fn hex_digit(d: u8) -> char {
    if d < 10 {
        ((48 + d) as u8) as char
    } else {
        ((87 + d) as u8) as char
    }
}

/// The bytes as two lowercase hexadecimal digits each.
pub open spec fn hex_of(b: Seq<u8>) -> Seq<char>
    decreases b.len(),
{
    if b.len() == 0 {
        Seq::empty()
    } else {
        hex_of(b.drop_last()) + seq![hex_digit(b.last() / 16), hex_digit(b.last() % 16)]
    }
}

fn hex_digit_exec(d: u8) -> (r: char)
    requires
        d < 16,
    ensures
        r == hex_digit(d),
{
    if d < 10 {
        (48 + d) as char
    } else {
        (87 + d) as char
    }
}

/// What an `S256` challenge is compared with: the verifier's bytes as
/// hexadecimal text.
pub open spec fn s256_of(verifier: Seq<u8>) -> Seq<char> {
    hex_of(verifier)
}

fn hex_encode(b: &[u8]) -> (r: String)
    ensures
        r@ == hex_of(b@),
{
    let mut out = String::new();
    let mut i: usize = 0;
    while i < b.len()
        invariant
            i <= b@.len(),
            out@ == hex_of(b@.take(i as int)),
        decreases b@.len() - i,
    {
        proof {
            assert(b@.take(i as int + 1).drop_last() =~= b@.take(i as int));
        }
        string_push(&mut out, hex_digit_exec(b[i] / 16));
        string_push(&mut out, hex_digit_exec(b[i] % 16));
        i = i + 1;
    }
    assert(b@.take(i as int) =~= b@);
    out
}

/// Whether `s` is among `list`.
pub open spec fn listed(list: Seq<String>, s: Seq<char>) -> bool {
    exists|i: int| 0 <= i < list.len() && (#[trigger] list[i])@ == s
}

fn list_has(list: &Vec<String>, s: &str) -> (r: bool)
    ensures
        r == listed(list@, s@),
{
    let mut i: usize = 0;
    while i < list.len()
        invariant
            i <= list@.len(),
            forall|j: int| 0 <= j < i ==> (#[trigger] list@[j])@ != s@,
        decreases list@.len() - i,
    {
        if str_eq(list[i].as_str(), s) {
            return true;
        }
        i = i + 1;
    }
    false
}

/// Every scope of `requested` is among `allowed`.
pub open spec fn scopes_allowed(requested: Seq<String>, allowed: Seq<String>) -> bool {
    forall|i: int| 0 <= i < requested.len() ==> listed(allowed, (#[trigger] requested[i])@)
}

/// `r` refuses the first scope of `requested` that `allowed` lacks.
pub open spec fn refuses_first_scope<T>(r: Result<T, OAuthError>, requested: Seq<String>, allowed: Seq<String>) -> bool {
    exists|i: int|
        0 <= i < requested.len() && !listed(allowed, (#[trigger] requested[i])@) && (forall|j: int|
            0 <= j < i ==> listed(allowed, (#[trigger] requested[j])@)) && (r matches Err(
            OAuthError::InvalidScope(m),
        ) && m@ == "Scope '"@ + requested[i]@ + "' not allowed"@)
}

fn validate_scopes(requested: &Vec<String>, allowed: &Vec<String>) -> (r: Result<(), OAuthError>)
    ensures
        scopes_allowed(requested@, allowed@) ==> r is Ok,
        !scopes_allowed(requested@, allowed@) ==> refuses_first_scope(r, requested@, allowed@),
{
    let mut i: usize = 0;
    while i < requested.len()
        invariant
            i <= requested@.len(),
            forall|j: int| 0 <= j < i ==> listed(allowed@, (#[trigger] requested@[j])@),
        decreases requested@.len() - i,
    {
        if !list_has(allowed, requested[i].as_str()) {
            let mut m = to_owned_string("Scope '");
            string_push_str(&mut m, requested[i].as_str());
            string_push_str(&mut m, "' not allowed");
            let r = Err(OAuthError::InvalidScope(m));
            assert(refuses_first_scope(r, requested@, allowed@)) by {
                assert(!listed(allowed@, requested@[i as int]@));
            }
            return r;
        }
        i = i + 1;
    }
    Ok(())
}

fn copy_strings(v: &Vec<String>) -> (r: Vec<String>)
    ensures
        r@ == v@,
{
    let mut out: Vec<String> = Vec::new();
    let mut i: usize = 0;
    while i < v.len()
        invariant
            i <= v@.len(),
            out@ == v@.take(i as int),
        decreases v@.len() - i,
    {
        out.push(v[i].clone());
        assert(v@.take(i as int + 1) =~= v@.take(i as int).push(v@[i as int]));
        i = i + 1;
    }
    assert(v@.take(i as int) =~= v@);
    out
}

fn copy_opt(o: &Option<String>) -> (r: Option<String>)
    ensures
        r == *o,
{
    match o {
        Some(s) => Some(s.clone()),
        None => None,
    }
}

fn join_scopes(scopes: &Vec<String>) -> (r: String)
    ensures
        r@ == joined_by_space(scopes@.map_values(|s: String| s@)),
{
    let ghost ws = scopes@.map_values(|s: String| s@);
    let mut out = String::new();
    let mut i: usize = 0;
    while i < scopes.len()
        invariant
            i <= scopes@.len(),
            ws == scopes@.map_values(|s: String| s@),
            out@ == joined_by_space(ws.take(i as int)),
        decreases scopes@.len() - i,
    {
        proof {
            assert(ws.take(i as int + 1).drop_last() =~= ws.take(i as int));
            assert(ws.take(i as int + 1).last() == scopes@[i as int]@);
            if i == 0 {
                assert(ws.take(0) =~= Seq::<Seq<char>>::empty());
            }
        }
        if i > 0 {
            string_push_str(&mut out, " ");
        }
        string_push_str(&mut out, scopes[i].as_str());
        proof {
            if i == 0 {
                assert(ws.take(1)[0] == scopes@[0]@);
                assert(out@ =~= ws.take(1)[0]);
            }
        }
        i = i + 1;
    }
    assert(ws.take(i as int) =~= ws);
    out
}

/// How validating an access token ends.
#[derive(Debug, Clone, Copy, PartialEq, Eq, Structural)]
pub enum TokenCheck {
    Valid,
    /// No such token.
    Unknown,
    Revoked,
    Expired,
}

/// The outcome of validating `token` at `now_millis` against `tokens`.
pub open spec fn token_check(tokens: Seq<(Seq<char>, AccessToken)>, token: Seq<char>, now_millis: i64) -> TokenCheck {
    if !has_key(tokens, token) {
        TokenCheck::Unknown
    } else if tokens[key_index(tokens, token)].1.revoked {
        TokenCheck::Revoked
    } else if tokens[key_index(tokens, token)].1.expires_at_millis < now_millis {
        TokenCheck::Expired
    } else {
        TokenCheck::Valid
    }
}

/// Entries by key view.
pub open spec fn keyed<A>(s: Seq<(String, A)>) -> Seq<(Seq<char>, A)> {
    s.map_values(|e: (String, A)| (e.0@, e.1))
}

pub(crate) proof fn lemma_keyed<A>(s: Seq<(String, A)>)
    requires
        distinct_keys(entry_names(s)),
    ensures
        distinct_keys(keyed(s)),
        forall|k: Seq<char>| #[trigger] has_key(keyed(s), k) == has_key(entry_names(s), k),
        forall|k: Seq<char>| has_key(entry_names(s), k) ==> #[trigger] key_index(keyed(s), k) == key_index(entry_names(s), k),
{
    let v = keyed(s);
    let n = entry_names(s);
    assert(v.len() == n.len());
    assert forall|a: int, b: int| 0 <= a < v.len() && 0 <= b < v.len() && a != b implies v[a].0 != v[b].0 by {
        assert(n[a].0 == v[a].0 && n[b].0 == v[b].0);
    }
    assert forall|k: Seq<char>| #[trigger] has_key(v, k) == has_key(n, k) by {
        if has_key(v, k) {
            let j = choose|j: int| 0 <= j < v.len() && v[j].0 == k;
            assert(n[j].0 == k);
        }
        if has_key(n, k) {
            let j = choose|j: int| 0 <= j < n.len() && n[j].0 == k;
            assert(v[j].0 == k);
        }
    }
    assert forall|k: Seq<char>| has_key(n, k) implies #[trigger] key_index(v, k) == key_index(n, k) by {
        let j = key_index(n, k);
        assert(v[j].0 == k);
        lemma_key_index_unique(v, j);
    }
}


/// How checking a client's credentials ends.
#[derive(Debug, Clone, Copy, PartialEq, Eq, Structural)]
pub enum ClientCheck {
    Unknown,
    Inactive,
    BadSecret,
    Passed,
}

/// The outcome of checking client `id` with `secret` against `clients`: a
/// confidential client must give the secret whose hash is stored.
pub open spec fn client_check(clients: Seq<(Seq<char>, OAuthClient)>, id: Seq<char>, secret: Seq<char>) -> ClientCheck {
    if !has_key(clients, id) {
        ClientCheck::Unknown
    } else if !clients[key_index(clients, id)].1.active {
        ClientCheck::Inactive
    } else if clients[key_index(clients, id)].1.confidential && secret_hash(secret)
        != clients[key_index(clients, id)].1.client_secret_hash@ {
        ClientCheck::BadSecret
    } else {
        ClientCheck::Passed
    }
}

/// `r` is the error of a failed client check.
pub open spec fn client_error<T>(r: Result<T, OAuthError>, check: ClientCheck, id: Seq<char>) -> bool {
    match check {
        ClientCheck::Unknown => r matches Err(OAuthError::InvalidClient(m)) && m@ == id,
        ClientCheck::Inactive => r matches Err(OAuthError::InvalidClient(m)) && m@ == "Client is inactive"@,
        ClientCheck::BadSecret => r matches Err(OAuthError::InvalidClient(m)) && m@ == "Invalid client secret"@,
        ClientCheck::Passed => true,
    }
}

/// How checking an authorization code ends.
#[derive(Debug, Clone, Copy, PartialEq, Eq, Structural)]
pub enum CodeCheck {
    Unknown,
    Used,
    Expired,
    ClientMismatch,
    RedirectMismatch,
    VerifierRequired,
    BadVerifier,
    Passed,
}

/// What the verifier of code `c` must come to: its bytes in hexadecimal for
/// the `S256` method, itself otherwise.
pub open spec fn verifier_value(c: AuthorizationCode, verifier: Seq<char>) -> Seq<char> {
    if c.code_challenge_method matches Some(m) && m@ == "S256"@ {
        s256_of(encode_utf8(verifier))
    } else {
        verifier
    }
}

/// The outcome of exchanging `code` at `now_millis` for client `id` with
/// `redirect_uri` and `verifier`.
pub open spec fn code_check(
    codes: Seq<(Seq<char>, AuthorizationCode)>,
    code: Seq<char>,
    id: Seq<char>,
    redirect_uri: Seq<char>,
    verifier: Option<Seq<char>>,
    now_millis: i64,
) -> CodeCheck {
    if !has_key(codes, code) {
        CodeCheck::Unknown
    } else {
        let c = codes[key_index(codes, code)].1;
        if c.used {
            CodeCheck::Used
        } else if c.expires_at_millis < now_millis {
            CodeCheck::Expired
        } else if c.client_id@ != id {
            CodeCheck::ClientMismatch
        } else if c.redirect_uri@ != redirect_uri {
            CodeCheck::RedirectMismatch
        } else {
            match c.code_challenge {
                Some(ch) => match verifier {
                    None => CodeCheck::VerifierRequired,
                    Some(v) => if verifier_value(c, v) != ch@ {
                        CodeCheck::BadVerifier
                    } else {
                        CodeCheck::Passed
                    },
                },
                None => CodeCheck::Passed,
            }
        }
    }
}

/// `r` is the error of a failed code check.
pub open spec fn code_error<T>(r: Result<T, OAuthError>, check: CodeCheck) -> bool {
    match check {
        CodeCheck::Unknown => r matches Err(OAuthError::InvalidGrant(m)) && m@ == "Invalid authorization code"@,
        CodeCheck::Used => r matches Err(OAuthError::InvalidGrant(m)) && m@ == "Code already used"@,
        CodeCheck::Expired => r matches Err(OAuthError::InvalidGrant(m)) && m@ == "Code expired"@,
        CodeCheck::ClientMismatch => r matches Err(OAuthError::InvalidGrant(m)) && m@ == "Client mismatch"@,
        CodeCheck::RedirectMismatch => r matches Err(OAuthError::InvalidGrant(m)) && m@ == "Redirect URI mismatch"@,
        CodeCheck::VerifierRequired => r matches Err(OAuthError::InvalidGrant(m)) && m@ == "Code verifier required"@,
        CodeCheck::BadVerifier => r matches Err(OAuthError::InvalidGrant(m)) && m@ == "Invalid code verifier"@,
        CodeCheck::Passed => true,
    }
}

/// How checking a refresh token ends.
#[derive(Debug, Clone, Copy, PartialEq, Eq, Structural)]
pub enum RefreshCheck {
    Unknown,
    Revoked,
    Expired,
    ClientMismatch,
    Passed,
}

/// The outcome of using refresh token `token` at `now_millis` for client
/// `id`.
pub open spec fn refresh_check(
    tokens: Seq<(Seq<char>, RefreshToken)>,
    token: Seq<char>,
    id: Seq<char>,
    now_millis: i64,
) -> RefreshCheck {
    if !has_key(tokens, token) {
        RefreshCheck::Unknown
    } else {
        let t = tokens[key_index(tokens, token)].1;
        if t.revoked {
            RefreshCheck::Revoked
        } else if t.expires_at_millis < now_millis {
            RefreshCheck::Expired
        } else if t.client_id@ != id {
            RefreshCheck::ClientMismatch
        } else {
            RefreshCheck::Passed
        }
    }
}

/// `resp` is the answer of tokens issued for `scopes` with an access token
/// lasting `lifetime` seconds.
pub open spec fn issued(resp: TokenResponse, scopes: Seq<String>, lifetime: u64) -> bool {
    &&& resp.access_token@.len() == 64
    &&& resp.token_type@ == "Bearer"@
    &&& resp.expires_in == lifetime
    &&& resp.refresh_token matches Some(t) && t@.len() == 64
    &&& resp.scope@ == joined_by_space(scopes.map_values(|s: String| s@))
}

/// Grants access tokens to registered clients.
pub struct OAuthServer {
    clients: Vec<(String, OAuthClient)>,
    auth_codes: Vec<(String, AuthorizationCode)>,
    access_tokens: Vec<(String, AccessToken)>,
    refresh_tokens: Vec<(String, RefreshToken)>,
    scopes: Vec<(String, Scope)>,
    config: TokenConfig,
}

impl OAuthServer {
    /// The clients by identifier.
    pub closed spec fn clients_view(&self) -> Seq<(Seq<char>, OAuthClient)> {
        keyed(self.clients@)
    }

    /// The client identifiers, in the order first registered.
    pub closed spec fn client_ids(&self) -> Seq<Seq<char>> {
        names_of(self.clients@)
    }

    /// The authorization codes by value.
    pub closed spec fn codes_view(&self) -> Seq<(Seq<char>, AuthorizationCode)> {
        keyed(self.auth_codes@)
    }

    /// The access tokens by value.
    pub closed spec fn access_view(&self) -> Seq<(Seq<char>, AccessToken)> {
        keyed(self.access_tokens@)
    }

    /// The refresh tokens by value.
    pub closed spec fn refresh_view(&self) -> Seq<(Seq<char>, RefreshToken)> {
        keyed(self.refresh_tokens@)
    }

    /// The scopes by name.
    pub closed spec fn scopes_view(&self) -> Seq<(Seq<char>, Scope)> {
        keyed(self.scopes@)
    }

    /// The lifetimes.
    pub closed spec fn config_view(&self) -> TokenConfig {
        self.config
    }

    /// No key occurs twice in any table, and the lifetimes can be held.
    pub closed spec fn wf(&self) -> bool {
        &&& distinct_keys(entry_names(self.clients@))
        &&& distinct_keys(entry_names(self.auth_codes@))
        &&& distinct_keys(entry_names(self.access_tokens@))
        &&& distinct_keys(entry_names(self.refresh_tokens@))
        &&& distinct_keys(entry_names(self.scopes@))
        &&& config_ok(self.config)
    }

    /// A server with `config` and nothing registered.
    pub fn new(config: TokenConfig) -> (r: Self)
        requires
            config_ok(config),
        ensures
            r.wf(),
            r.config_view() == config,
            r.clients_view().len() == 0,
            r.codes_view().len() == 0,
            r.access_view().len() == 0,
            r.refresh_view().len() == 0,
            r.scopes_view().len() == 0,
    {
        let r = OAuthServer {
            clients: Vec::new(),
            auth_codes: Vec::new(),
            access_tokens: Vec::new(),
            refresh_tokens: Vec::new(),
            scopes: Vec::new(),
            config,
        };
        assert(entry_names(r.clients@) =~= Seq::<(Seq<char>, ())>::empty());
        assert(entry_names(r.auth_codes@) =~= Seq::<(Seq<char>, ())>::empty());
        assert(entry_names(r.access_tokens@) =~= Seq::<(Seq<char>, ())>::empty());
        assert(entry_names(r.refresh_tokens@) =~= Seq::<(Seq<char>, ())>::empty());
        assert(entry_names(r.scopes@) =~= Seq::<(Seq<char>, ())>::empty());
        r
    }

    /// Register a client and give its identifier and secret; it is active.
    pub fn register_client(
        &mut self,
        name: &str,
        redirect_uris: Vec<String>,
        scopes: Vec<String>,
        grant_types: Vec<GrantType>,
        confidential: bool,
    ) -> (r: (String, String))
        requires
            old(self).wf(),
        ensures
            final(self).wf(),
            r.0@.len() == 36,
            r.1@.len() == 36,
            has_key(final(self).clients_view(), r.0@),
            ({
                let c = final(self).clients_view()[key_index(final(self).clients_view(), r.0@)].1;
                &&& c.client_id@ == r.0@
                &&& c.client_secret_hash@ == secret_hash(r.1@)
                &&& c.name@ == name@
                &&& c.redirect_uris == redirect_uris
                &&& c.allowed_scopes == scopes
                &&& c.grant_types == grant_types
                &&& c.confidential == confidential
                &&& c.active
            }),
            final(self).client_ids() == put_name(old(self).client_ids(), r.0@),
            final(self).codes_view() == old(self).codes_view(),
            final(self).access_view() == old(self).access_view(),
            final(self).refresh_view() == old(self).refresh_view(),
            final(self).scopes_view() == old(self).scopes_view(),
            final(self).config_view() == old(self).config_view(),
    {
        let client_id = random_id_text();
        let client_secret = random_id_text();
        let client = OAuthClient {
            client_id: client_id.clone(),
            client_secret_hash: hash_secret(client_secret.as_str()),
            name: to_owned_string(name),
            redirect_uris,
            allowed_scopes: scopes,
            grant_types,
            confidential,
            created_at_millis: utc_now_millis(),
            active: true,
        };
        put_named(&mut self.clients, client_id.as_str(), client);
        proof {
            lemma_keyed(self.clients@);
        }
        (client_id, client_secret)
    }

    /// Register a scope under its name.
    pub fn register_scope(&mut self, name: &str, description: &str, is_default: bool)
        requires
            old(self).wf(),
        ensures
            final(self).wf(),
            has_key(final(self).scopes_view(), name@),
            ({
                let sc = final(self).scopes_view()[key_index(final(self).scopes_view(), name@)].1;
                sc.name@ == name@ && sc.description@ == description@ && sc.is_default == is_default
            }),
            final(self).clients_view() == old(self).clients_view(),
            final(self).codes_view() == old(self).codes_view(),
            final(self).access_view() == old(self).access_view(),
            final(self).refresh_view() == old(self).refresh_view(),
    {
        let scope = Scope { name: to_owned_string(name), description: to_owned_string(description), is_default };
        put_named(&mut self.scopes, name, scope);
        proof {
            lemma_keyed(self.scopes@);
        }
    }

    fn check_client(&self, client_id: &str, client_secret: &str) -> (r: Result<usize, OAuthError>)
        requires
            self.wf(),
        ensures
            client_check(self.clients_view(), client_id@, client_secret@) != ClientCheck::Passed ==> client_error(
                r,
                client_check(self.clients_view(), client_id@, client_secret@),
                client_id@,
            ),
            client_check(self.clients_view(), client_id@, client_secret@) == ClientCheck::Passed ==> (r matches Ok(i)
                && i == key_index(self.clients_view(), client_id@) && i < self.clients@.len()),
    {
        proof {
            lemma_keyed(self.clients@);
        }
        let i = match find_name(&self.clients, client_id) {
            Some(i) => i,
            None => {
                return Err(OAuthError::InvalidClient(to_owned_string(client_id)));
            },
        };
        let client = &self.clients[i].1;
        if !client.active {
            return Err(OAuthError::InvalidClient(to_owned_string("Client is inactive")));
        }
        if client.confidential {
            let h = hash_secret(client_secret);
            if !str_eq(h.as_str(), client.client_secret_hash.as_str()) {
                return Err(OAuthError::InvalidClient(to_owned_string("Invalid client secret")));
            }
        }
        Ok(i)
    }

    /// A copy of client `client_id`.
    pub fn get_client(&self, client_id: &str) -> (r: Option<OAuthClient>)
        requires
            self.wf(),
        ensures
            has_key(self.clients_view(), client_id@) ==> (r matches Some(c) && same_client(
                c,
                self.clients_view()[key_index(self.clients_view(), client_id@)].1,
            )),
            !has_key(self.clients_view(), client_id@) ==> r is None,
    {
        proof {
            lemma_keyed(self.clients@);
        }
        match find_name(&self.clients, client_id) {
            Some(i) => {
                let c = &self.clients[i].1;
                Some(OAuthClient {
                    client_id: c.client_id.clone(),
                    client_secret_hash: c.client_secret_hash.clone(),
                    name: c.name.clone(),
                    redirect_uris: copy_strings(&c.redirect_uris),
                    allowed_scopes: copy_strings(&c.allowed_scopes),
                    grant_types: copy_grants(&c.grant_types),
                    confidential: c.confidential,
                    created_at_millis: c.created_at_millis,
                    active: c.active,
                })
            },
            None => None,
        }
    }

    /// Issue an access and a refresh token at `now_millis`.
    fn generate_tokens(&mut self, client_id: &str, user_id: Option<&str>, scopes: Vec<String>, now_millis: i64) -> (r: TokenResponse)
        requires
            old(self).wf(),
        ensures
            final(self).wf(),
            issued(r, scopes@, old(self).config_view().access_token_lifetime),
            has_key(final(self).access_view(), r.access_token@),
            ({
                let t = final(self).access_view()[key_index(final(self).access_view(), r.access_token@)].1;
                &&& t.client_id@ == client_id@
                &&& t.scopes@ == scopes@
                &&& !t.revoked
                &&& t.expires_at_millis == expiry(now_millis, old(self).config_view().access_token_lifetime)
                &&& match user_id {
                    Some(u) => t.user_id matches Some(x) && x@ == u@,
                    None => t.user_id is None,
                }
            }),
            forall|k: Seq<char>| k != r.access_token@ && #[trigger] has_key(old(self).access_view(), k) ==> has_key(
                final(self).access_view(),
                k,
            ) && final(self).access_view()[key_index(final(self).access_view(), k)].1 == old(self).access_view()[key_index(old(self).access_view(), k)].1,
            forall|k: Seq<char>| !names_value(r.refresh_token, k) && #[trigger] has_key(old(self).refresh_view(), k) ==> has_key(
                final(self).refresh_view(),
                k,
            ) && final(self).refresh_view()[key_index(final(self).refresh_view(), k)].1 == old(self).refresh_view()[key_index(old(self).refresh_view(), k)].1,
            final(self).clients_view() == old(self).clients_view(),
            final(self).codes_view() == old(self).codes_view(),
            final(self).scopes_view() == old(self).scopes_view(),
            final(self).config_view() == old(self).config_view(),
    {
        let access_value = generate_token();
        let refresh_value = generate_token();
        let user: Option<String> = match user_id {
            Some(u) => Some(to_owned_string(u)),
            None => None,
        };
        let access = AccessToken {
            token: access_value.clone(),
            token_type: to_owned_string("Bearer"),
            client_id: to_owned_string(client_id),
            user_id: copy_opt(&user),
            scopes: copy_strings(&scopes),
            expires_at_millis: expiry_exec(now_millis, self.config.access_token_lifetime),
            created_at_millis: now_millis,
            revoked: false,
        };
        let refresh = RefreshToken {
            token: refresh_value.clone(),
            access_token: access_value.clone(),
            client_id: to_owned_string(client_id),
            user_id: user,
            scopes: copy_strings(&scopes),
            expires_at_millis: expiry_exec(now_millis, self.config.refresh_token_lifetime),
            revoked: false,
        };
        let ghost old_access = self.access_tokens@;
        let ghost old_refresh = self.refresh_tokens@;
        put_named(&mut self.access_tokens, access_value.as_str(), access);
        put_named(&mut self.refresh_tokens, refresh_value.as_str(), refresh);
        proof {
            lemma_keyed(self.refresh_tokens@);
            lemma_keyed(old_refresh);
            assert(names_of(self.refresh_tokens@).len() == self.refresh_tokens@.len());
            assert(names_of(old_refresh).len() == old_refresh.len());
            assert(self.refresh_tokens@.len() >= old_refresh.len());
            assert forall|k: Seq<char>| k != refresh_value@ && #[trigger] has_key(keyed(old_refresh), k) implies has_key(
                keyed(self.refresh_tokens@),
                k,
            ) && keyed(self.refresh_tokens@)[key_index(keyed(self.refresh_tokens@), k)].1 == keyed(old_refresh)[key_index(keyed(old_refresh), k)].1 by {
                let j = key_index(entry_names(old_refresh), k);
                assert(entry_names(old_refresh)[j].0 == k);
                assert(old_refresh[j].0@ == k);
                assert(self.refresh_tokens@[j] == old_refresh[j]);
                assert(entry_names(self.refresh_tokens@)[j].0 == k);
                lemma_key_index_unique(entry_names(self.refresh_tokens@), j);
            }
            lemma_keyed(self.access_tokens@);
            lemma_keyed(old_access);
            assert(names_of(self.access_tokens@).len() == self.access_tokens@.len());
            assert(names_of(old_access).len() == old_access.len());
            assert(self.access_tokens@.len() >= old_access.len());
            assert forall|k: Seq<char>| k != access_value@ && #[trigger] has_key(keyed(old_access), k) implies has_key(
                keyed(self.access_tokens@),
                k,
            ) && keyed(self.access_tokens@)[key_index(keyed(self.access_tokens@), k)].1 == keyed(old_access)[key_index(keyed(old_access), k)].1 by {
                let j = key_index(entry_names(old_access), k);
                assert(entry_names(old_access)[j].0 == k);
                assert(old_access[j].0@ == k);
                assert(self.access_tokens@[j] == old_access[j]);
                assert(entry_names(self.access_tokens@)[j].0 == k);
                lemma_key_index_unique(entry_names(self.access_tokens@), j);
            }
        }
        TokenResponse {
            access_token: access_value,
            token_type: to_owned_string("Bearer"),
            expires_in: self.config.access_token_lifetime,
            refresh_token: Some(refresh_value),
            scope: join_scopes(&scopes),
        }
    }

    /// `after` is this server once a code was asked for at `now_millis` for
    /// `client_id` to act for `user_id`, returning to `redirect_uri`, with
    /// `scopes` and the challenge `code_challenge` made by
    /// `code_challenge_method`, and the answer was `r`: the client must be
    /// known, active, expect the redirect and allow the scopes, and the code
    /// issued is kept unused until it expires.
    pub open spec fn auth_code_created(
        &self,
        after: &Self,
        client_id: Seq<char>,
        user_id: Seq<char>,
        redirect_uri: Seq<char>,
        scopes: Vec<String>,
        code_challenge: Option<String>,
        code_challenge_method: Option<String>,
        now_millis: i64,
        r: Result<String, OAuthError>,
    ) -> bool {
        &&& after.clients_view() == self.clients_view()
        &&& after.access_view() == self.access_view()
        &&& after.refresh_view() == self.refresh_view()
        &&& r is Err ==> after.codes_view() == self.codes_view()
        &&& !has_key(self.clients_view(), client_id) ==> (r matches Err(OAuthError::InvalidClient(m)) && m@ == client_id)
        &&& has_key(self.clients_view(), client_id) ==> ({
            let c = self.clients_view()[key_index(self.clients_view(), client_id)].1;
            &&& !c.active ==> (r matches Err(OAuthError::InvalidClient(m)) && m@ == "Client is inactive"@)
            &&& c.active && !listed(c.redirect_uris@, redirect_uri) ==> (r matches Err(OAuthError::InvalidClient(m))
                && m@ == "Invalid redirect URI"@)
            &&& c.active && listed(c.redirect_uris@, redirect_uri) && !scopes_allowed(scopes@, c.allowed_scopes@)
                ==> refuses_first_scope(r, scopes@, c.allowed_scopes@)
            &&& c.active && listed(c.redirect_uris@, redirect_uri) && scopes_allowed(scopes@, c.allowed_scopes@) ==> (
            r matches Ok(code) && code@.len() == 64 && has_key(after.codes_view(), code@) && ({
                let a = after.codes_view()[key_index(after.codes_view(), code@)].1;
                &&& a.code@ == code@
                &&& a.client_id@ == client_id
                &&& a.user_id@ == user_id
                &&& a.redirect_uri@ == redirect_uri
                &&& a.scopes == scopes
                &&& a.code_challenge == code_challenge
                &&& a.code_challenge_method == code_challenge_method
                &&& a.expires_at_millis == expiry(now_millis, self.config_view().auth_code_lifetime)
                &&& !a.used
            }))
        })
    }

    /// `after` is this server once `client_id` with `client_secret`
    /// exchanged `code` for tokens at `now_millis`, returning to
    /// `redirect_uri` with the verifier `code_verifier`, and the answer was
    /// `r`: the client must pass its check and the code its own; then the
    /// code is spent and tokens are issued for its scopes.
    pub open spec fn code_exchanged(
        &self,
        after: &Self,
        client_id: Seq<char>,
        client_secret: Seq<char>,
        code: Seq<char>,
        redirect_uri: Seq<char>,
        code_verifier: Option<Seq<char>>,
        now_millis: i64,
        r: Result<TokenResponse, OAuthError>,
    ) -> bool {
        let cc = client_check(self.clients_view(), client_id, client_secret);
        let kc = code_check(self.codes_view(), code, client_id, redirect_uri, code_verifier, now_millis);
        &&& after.clients_view() == self.clients_view()
        &&& cc != ClientCheck::Passed ==> client_error(r, cc, client_id)
        &&& cc == ClientCheck::Passed && kc != CodeCheck::Passed ==> code_error(r, kc)
        &&& !(cc == ClientCheck::Passed && kc == CodeCheck::Passed) ==> after.codes_view() == self.codes_view()
            && after.access_view() == self.access_view() && after.refresh_view() == self.refresh_view()
        &&& cc == ClientCheck::Passed && kc == CodeCheck::Passed ==> ({
            let j = key_index(self.codes_view(), code);
            let a = self.codes_view()[j].1;
            &&& r matches Ok(resp) && issued(resp, a.scopes@, self.config_view().access_token_lifetime)
            &&& after.codes_view() == self.codes_view().update(j, (code, AuthorizationCode { used: true, ..a }))
        })
    }

    /// Hand client `client_id` an authorization code for `user_id`,
    /// redirecting to `redirect_uri`, for `scopes`, at `now_millis`.
    pub fn create_auth_code_at(
        &mut self,
        client_id: &str,
        user_id: &str,
        redirect_uri: &str,
        scopes: Vec<String>,
        code_challenge: Option<String>,
        code_challenge_method: Option<String>,
        now_millis: i64,
    ) -> (r: Result<String, OAuthError>)
        requires
            old(self).wf(),
        ensures
            final(self).wf(),
            final(self).clients_view() == old(self).clients_view(),
            final(self).access_view() == old(self).access_view(),
            final(self).refresh_view() == old(self).refresh_view(),
            r is Err ==> final(self).codes_view() == old(self).codes_view(),
            old(self).auth_code_created(&*final(self), client_id@, user_id@, redirect_uri@, scopes, code_challenge, code_challenge_method, now_millis, r),
            !has_key(old(self).clients_view(), client_id@) ==> (r matches Err(OAuthError::InvalidClient(m)) && m@
                == client_id@),
            has_key(old(self).clients_view(), client_id@) ==> ({
                let c = old(self).clients_view()[key_index(old(self).clients_view(), client_id@)].1;
                &&& !c.active ==> (r matches Err(OAuthError::InvalidClient(m)) && m@ == "Client is inactive"@)
                &&& c.active && !listed(c.redirect_uris@, redirect_uri@) ==> (r matches Err(
                    OAuthError::InvalidClient(m),
                ) && m@ == "Invalid redirect URI"@)
                &&& c.active && listed(c.redirect_uris@, redirect_uri@) && !scopes_allowed(scopes@, c.allowed_scopes@)
                    ==> refuses_first_scope(r, scopes@, c.allowed_scopes@)
                &&& c.active && listed(c.redirect_uris@, redirect_uri@) && scopes_allowed(scopes@, c.allowed_scopes@)
                    ==> (r matches Ok(code) && code@.len() == 64 && has_key(final(self).codes_view(), code@) && ({
                    let a = final(self).codes_view()[key_index(final(self).codes_view(), code@)].1;
                    &&& a.code@ == code@
                    &&& a.client_id@ == client_id@
                    &&& a.user_id@ == user_id@
                    &&& a.redirect_uri@ == redirect_uri@
                    &&& a.scopes == scopes
                    &&& a.code_challenge == code_challenge
                    &&& a.code_challenge_method == code_challenge_method
                    &&& a.expires_at_millis == expiry(now_millis, old(self).config_view().auth_code_lifetime)
                    &&& !a.used
                }))
            }),
    {
        proof {
            lemma_keyed(self.clients@);
        }
        let i = match find_name(&self.clients, client_id) {
            Some(i) => i,
            None => {
                return Err(OAuthError::InvalidClient(to_owned_string(client_id)));
            },
        };
        if !self.clients[i].1.active {
            return Err(OAuthError::InvalidClient(to_owned_string("Client is inactive")));
        }
        if !list_has(&self.clients[i].1.redirect_uris, redirect_uri) {
            return Err(OAuthError::InvalidClient(to_owned_string("Invalid redirect URI")));
        }
        validate_scopes(&scopes, &self.clients[i].1.allowed_scopes)?;
        let code = generate_token();
        let auth_code = AuthorizationCode {
            code: code.clone(),
            client_id: to_owned_string(client_id),
            user_id: to_owned_string(user_id),
            redirect_uri: to_owned_string(redirect_uri),
            scopes,
            code_challenge,
            code_challenge_method,
            expires_at_millis: expiry_exec(now_millis, self.config.auth_code_lifetime),
            used: false,
        };
        put_named(&mut self.auth_codes, code.as_str(), auth_code);
        proof {
            lemma_keyed(self.auth_codes@);
        }
        Ok(code)
    }

    /// Hand client `client_id` an authorization code now.
    pub fn create_auth_code(
        &mut self,
        client_id: &str,
        user_id: &str,
        redirect_uri: &str,
        scopes: Vec<String>,
        code_challenge: Option<String>,
        code_challenge_method: Option<String>,
    ) -> (r: Result<String, OAuthError>)
        requires
            old(self).wf(),
        ensures
            final(self).wf(),
            exists|now: i64| #[trigger] old(self).auth_code_created(
                &*final(self),
                client_id@,
                user_id@,
                redirect_uri@,
                scopes,
                code_challenge,
                code_challenge_method,
                now,
                r,
            ),
    {
        let now = utc_now_millis();
        self.create_auth_code_at(client_id, user_id, redirect_uri, scopes, code_challenge, code_challenge_method, now)
    }

    fn verifier_matches(c: &AuthorizationCode, verifier: &str) -> (r: bool)
        ensures
            c.code_challenge matches Some(ch) ==> r == (verifier_value(*c, verifier@) == ch@),
    {
        let computed = match &c.code_challenge_method {
            Some(m) => if str_eq(m.as_str(), "S256") {
                hex_encode(verifier.as_bytes())
            } else {
                to_owned_string(verifier)
            },
            None => to_owned_string(verifier),
        };
        match &c.code_challenge {
            Some(ch) => str_eq(computed.as_str(), ch.as_str()),
            None => true,
        }
    }

    /// Exchange authorization `code` for tokens at `now_millis`: the client
    /// must pass its check and the code must be unused, unexpired, its own,
    /// for `redirect_uri`, and met by `code_verifier` where it has a
    /// challenge. The code is then spent.
    pub fn exchange_code_at(
        &mut self,
        client_id: &str,
        client_secret: &str,
        code: &str,
        redirect_uri: &str,
        code_verifier: Option<&str>,
        now_millis: i64,
    ) -> (r: Result<TokenResponse, OAuthError>)
        requires
            old(self).wf(),
        ensures
            final(self).wf(),
            final(self).clients_view() == old(self).clients_view(),
            old(self).code_exchanged(&*final(self), client_id@, client_secret@, code@, redirect_uri@, verifier_view(code_verifier), now_millis, r),
            ({
                let cc = client_check(old(self).clients_view(), client_id@, client_secret@);
                let kc = code_check(old(self).codes_view(), code@, client_id@, redirect_uri@, verifier_view(code_verifier), now_millis);
                &&& cc != ClientCheck::Passed ==> client_error(r, cc, client_id@)
                &&& cc == ClientCheck::Passed && kc != CodeCheck::Passed ==> code_error(r, kc)
                &&& !(cc == ClientCheck::Passed && kc == CodeCheck::Passed) ==> final(self).codes_view() == old(self).codes_view()
                    && final(self).access_view() == old(self).access_view()
                    && final(self).refresh_view() == old(self).refresh_view()
                &&& cc == ClientCheck::Passed && kc == CodeCheck::Passed ==> ({
                    let j = key_index(old(self).codes_view(), code@);
                    let a = old(self).codes_view()[j].1;
                    &&& r matches Ok(resp) && issued(resp, a.scopes@, old(self).config_view().access_token_lifetime)
                    &&& final(self).codes_view() == old(self).codes_view().update(j, (code@, AuthorizationCode { used: true, ..a }))
                })
            }),
    {
        proof {
            lemma_keyed(self.clients@);
            lemma_keyed(self.auth_codes@);
        }
        self.check_client(client_id, client_secret)?;
        let i = match find_name(&self.auth_codes, code) {
            Some(i) => i,
            None => {
                return Err(OAuthError::InvalidGrant(to_owned_string("Invalid authorization code")));
            },
        };
        let ac = &self.auth_codes[i].1;
        if ac.used {
            return Err(OAuthError::InvalidGrant(to_owned_string("Code already used")));
        }
        if ac.expires_at_millis < now_millis {
            return Err(OAuthError::InvalidGrant(to_owned_string("Code expired")));
        }
        if !str_eq(ac.client_id.as_str(), client_id) {
            return Err(OAuthError::InvalidGrant(to_owned_string("Client mismatch")));
        }
        if !str_eq(ac.redirect_uri.as_str(), redirect_uri) {
            return Err(OAuthError::InvalidGrant(to_owned_string("Redirect URI mismatch")));
        }
        if ac.code_challenge.is_some() {
            match code_verifier {
                None => {
                    return Err(OAuthError::InvalidGrant(to_owned_string("Code verifier required")));
                },
                Some(v) => {
                    if !OAuthServer::verifier_matches(ac, v) {
                        return Err(OAuthError::InvalidGrant(to_owned_string("Invalid code verifier")));
                    }
                },
            }
        }
        let user_id = ac.user_id.clone();
        let scopes = copy_strings(&ac.scopes);
        let ghost codes_before = self.auth_codes@;
        set_code_used(&mut self.auth_codes, i);
        proof {
            lemma_update_keeps_keys(codes_before, i as int, AuthorizationCode { used: true, ..codes_before[i as int].1 });
            lemma_keyed(self.auth_codes@);
        }
        Ok(self.generate_tokens(client_id, Some(user_id.as_str()), scopes, now_millis))
    }

    /// Exchange authorization `code` for tokens now.
    pub fn exchange_code(
        &mut self,
        client_id: &str,
        client_secret: &str,
        code: &str,
        redirect_uri: &str,
        code_verifier: Option<&str>,
    ) -> (r: Result<TokenResponse, OAuthError>)
        requires
            old(self).wf(),
        ensures
            final(self).wf(),
            exists|now: i64| #[trigger] old(self).code_exchanged(
                &*final(self),
                client_id@,
                client_secret@,
                code@,
                redirect_uri@,
                verifier_view(code_verifier),
                now,
                r,
            ),
    {
        let now = utc_now_millis();
        self.exchange_code_at(client_id, client_secret, code, redirect_uri, code_verifier, now)
    }

    /// Tokens for the client itself, at `now_millis`: the client must pass
    /// its check, be allowed this grant and the scopes.
    pub fn client_credentials_at(
        &mut self,
        client_id: &str,
        client_secret: &str,
        scopes: Vec<String>,
        now_millis: i64,
    ) -> (r: Result<TokenResponse, OAuthError>)
        requires
            old(self).wf(),
        ensures
            final(self).wf(),
            final(self).clients_view() == old(self).clients_view(),
            final(self).codes_view() == old(self).codes_view(),
            ({
                let cc = client_check(old(self).clients_view(), client_id@, client_secret@);
                let c = old(self).clients_view()[key_index(old(self).clients_view(), client_id@)].1;
                &&& cc != ClientCheck::Passed ==> client_error(r, cc, client_id@)
                &&& cc == ClientCheck::Passed && !c.grant_types@.contains(GrantType::ClientCredentials) ==> (r matches Err(
                    OAuthError::InvalidGrant(m),
                ) && m@ == "Grant type not allowed"@)
                &&& cc == ClientCheck::Passed && c.grant_types@.contains(GrantType::ClientCredentials) && !scopes_allowed(
                    scopes@,
                    c.allowed_scopes@,
                ) ==> refuses_first_scope(r, scopes@, c.allowed_scopes@)
                &&& cc == ClientCheck::Passed && c.grant_types@.contains(GrantType::ClientCredentials) && scopes_allowed(
                    scopes@,
                    c.allowed_scopes@,
                ) ==> (r matches Ok(resp) && issued(resp, scopes@, old(self).config_view().access_token_lifetime)
                    && has_key(final(self).access_view(), resp.access_token@) && ({
                    let t = final(self).access_view()[key_index(final(self).access_view(), resp.access_token@)].1;
                    t.client_id@ == client_id@ && t.user_id is None && !t.revoked && t.expires_at_millis == expiry(
                        now_millis,
                        old(self).config_view().access_token_lifetime,
                    )
                }))
                &&& r is Err ==> final(self).access_view() == old(self).access_view() && final(self).refresh_view()
                    == old(self).refresh_view()
            }),
    {
        let i = self.check_client(client_id, client_secret)?;
        if !contains_grant(&self.clients[i].1.grant_types, GrantType::ClientCredentials) {
            return Err(OAuthError::InvalidGrant(to_owned_string("Grant type not allowed")));
        }
        validate_scopes(&scopes, &self.clients[i].1.allowed_scopes)?;
        Ok(self.generate_tokens(client_id, None, scopes, now_millis))
    }

    /// Tokens for the client itself, now.
    pub fn client_credentials(&mut self, client_id: &str, client_secret: &str, scopes: Vec<String>) -> (r: Result<
        TokenResponse,
        OAuthError,
    >)
        requires
            old(self).wf(),
        ensures
            final(self).wf(),
            ({
                let cc = client_check(old(self).clients_view(), client_id@, client_secret@);
                cc != ClientCheck::Passed ==> client_error(r, cc, client_id@)
            }),
    {
        let now = utc_now_millis();
        self.client_credentials_at(client_id, client_secret, scopes, now)
    }

    /// New tokens for `refresh_token` at `now_millis`: the client must pass
    /// its check and the refresh token must be live and its own. The old
    /// refresh token and its access token are revoked.
    pub fn refresh_token_at(
        &mut self,
        client_id: &str,
        client_secret: &str,
        refresh_token: &str,
        now_millis: i64,
    ) -> (r: Result<TokenResponse, OAuthError>)
        requires
            old(self).wf(),
        ensures
            final(self).wf(),
            final(self).clients_view() == old(self).clients_view(),
            final(self).codes_view() == old(self).codes_view(),
            ({
                let cc = client_check(old(self).clients_view(), client_id@, client_secret@);
                let rc = refresh_check(old(self).refresh_view(), refresh_token@, client_id@, now_millis);
                let rt = old(self).refresh_view()[key_index(old(self).refresh_view(), refresh_token@)].1;
                &&& cc != ClientCheck::Passed ==> client_error(r, cc, client_id@)
                &&& cc == ClientCheck::Passed && rc == RefreshCheck::Unknown ==> (r matches Err(OAuthError::InvalidGrant(m))
                    && m@ == "Invalid refresh token"@)
                &&& cc == ClientCheck::Passed && rc == RefreshCheck::Revoked ==> r == Err::<TokenResponse, OAuthError>(
                    OAuthError::TokenRevoked,
                )
                &&& cc == ClientCheck::Passed && rc == RefreshCheck::Expired ==> r == Err::<TokenResponse, OAuthError>(
                    OAuthError::TokenExpired,
                )
                &&& cc == ClientCheck::Passed && rc == RefreshCheck::ClientMismatch ==> (r matches Err(
                    OAuthError::InvalidGrant(m),
                ) && m@ == "Client mismatch"@)
                &&& r is Err ==> final(self).access_view() == old(self).access_view() && final(self).refresh_view()
                    == old(self).refresh_view()
                &&& cc == ClientCheck::Passed && rc == RefreshCheck::Passed ==> (r matches Ok(resp) && issued(
                    resp,
                    rt.scopes@,
                    old(self).config_view().access_token_lifetime,
                ) && (!names_value(resp.refresh_token, refresh_token@) ==> has_key(final(self).refresh_view(), refresh_token@)
                    && final(self).refresh_view()[key_index(final(self).refresh_view(), refresh_token@)].1.revoked) && (has_key(old(self).access_view(), rt.access_token@) && rt.access_token@ != resp.access_token@
                    ==> forall|t: i64| token_check(final(self).access_view(), rt.access_token@, t) == TokenCheck::Revoked))
            }),
    {
        proof {
            lemma_keyed(self.refresh_tokens@);
            lemma_keyed(self.access_tokens@);
        }
        self.check_client(client_id, client_secret)?;
        let i = match find_name(&self.refresh_tokens, refresh_token) {
            Some(i) => i,
            None => {
                return Err(OAuthError::InvalidGrant(to_owned_string("Invalid refresh token")));
            },
        };
        let rt = &self.refresh_tokens[i].1;
        if rt.revoked {
            return Err(OAuthError::TokenRevoked);
        }
        if rt.expires_at_millis < now_millis {
            return Err(OAuthError::TokenExpired);
        }
        if !str_eq(rt.client_id.as_str(), client_id) {
            return Err(OAuthError::InvalidGrant(to_owned_string("Client mismatch")));
        }
        let user_id = copy_opt(&rt.user_id);
        let scopes = copy_strings(&rt.scopes);
        let old_access = rt.access_token.clone();
        let ghost refresh_before = self.refresh_tokens@;
        set_refresh_revoked(&mut self.refresh_tokens, i);
        proof {
            lemma_update_keeps_keys(refresh_before, i as int, RefreshToken { revoked: true, ..refresh_before[i as int].1 });
            lemma_keyed(self.refresh_tokens@);
            assert(entry_names(self.refresh_tokens@)[i as int].0 == refresh_token@);
            lemma_key_index_unique(entry_names(self.refresh_tokens@), i as int);
            assert(self.refresh_view()[i as int].0 == refresh_token@);
            assert(has_key(self.refresh_view(), refresh_token@));
            assert(self.refresh_view()[key_index(self.refresh_view(), refresh_token@)].1.revoked);
        }
        let ghost access_key = old_access@;
        let ghost old_access_view = self.access_view();
        match find_name(&self.access_tokens, old_access.as_str()) {
            Some(j) => {
                let ghost access_before = self.access_tokens@;
                set_access_revoked(&mut self.access_tokens, j);
                proof {
                    lemma_update_keeps_keys(access_before, j as int, AccessToken { revoked: true, ..access_before[j as int].1 });
                    lemma_keyed(self.access_tokens@);
                    assert(entry_names(self.access_tokens@)[j as int].0 == access_key);
                    lemma_key_index_unique(entry_names(self.access_tokens@), j as int);
                    assert(self.access_view()[j as int].0 == access_key);
                    assert(has_key(self.access_view(), access_key));
                    assert(self.access_view()[key_index(self.access_view(), access_key)].1.revoked);
                }
            },
            None => {
                proof {
                    lemma_keyed(self.access_tokens@);
                }
            },
        }
        let ghost refresh_mid = self.refresh_view();
        let ghost access_mid = self.access_view();
        assert(has_key(old_access_view, access_key) ==> has_key(access_mid, access_key)
            && access_mid[key_index(access_mid, access_key)].1.revoked);
        let resp = match &user_id {
            Some(u) => self.generate_tokens(client_id, Some(u.as_str()), scopes, now_millis),
            None => self.generate_tokens(client_id, None, scopes, now_millis),
        };
        proof {
            assert(has_key(refresh_mid, refresh_token@));
            if has_key(old_access_view, access_key) {
                assert(has_key(access_mid, access_key));
            }
        }
        Ok(resp)
    }


    /// Validate access token `token` at `now_millis`: a copy of it when it
    /// is known, not revoked and not expired.
    pub fn validate_token_at(&self, token: &str, now_millis: i64) -> (r: Result<AccessToken, OAuthError>)
        requires
            self.wf(),
        ensures
            ({
                let check = token_check(self.access_view(), token@, now_millis);
                &&& check == TokenCheck::Unknown ==> (r matches Err(OAuthError::Unauthorized(m)) && m@ == "Invalid token"@)
                &&& check == TokenCheck::Revoked ==> r == Err::<AccessToken, OAuthError>(OAuthError::TokenRevoked)
                &&& check == TokenCheck::Expired ==> r == Err::<AccessToken, OAuthError>(OAuthError::TokenExpired)
                &&& check == TokenCheck::Valid ==> (r matches Ok(t) && same_access_token(
                    t,
                    self.access_view()[key_index(self.access_view(), token@)].1,
                ))
            }),
    {
        proof {
            lemma_keyed(self.access_tokens@);
        }
        let i = match find_name(&self.access_tokens, token) {
            Some(i) => i,
            None => {
                return Err(OAuthError::Unauthorized(to_owned_string("Invalid token")));
            },
        };
        let at = &self.access_tokens[i].1;
        if at.revoked {
            return Err(OAuthError::TokenRevoked);
        }
        if at.expires_at_millis < now_millis {
            return Err(OAuthError::TokenExpired);
        }
        Ok(AccessToken {
            token: at.token.clone(),
            token_type: at.token_type.clone(),
            client_id: at.client_id.clone(),
            user_id: copy_opt(&at.user_id),
            scopes: copy_strings(&at.scopes),
            expires_at_millis: at.expires_at_millis,
            created_at_millis: at.created_at_millis,
            revoked: at.revoked,
        })
    }

    /// Validate access token `token` now.
    pub fn validate_token(&self, token: &str) -> (r: Result<AccessToken, OAuthError>)
        requires
            self.wf(),
        ensures
            !has_key(self.access_view(), token@) ==> (r matches Err(OAuthError::Unauthorized(m)) && m@ == "Invalid token"@),
            has_key(self.access_view(), token@) && self.access_view()[key_index(self.access_view(), token@)].1.revoked
                ==> r == Err::<AccessToken, OAuthError>(OAuthError::TokenRevoked),
            r matches Ok(t) ==> same_access_token(t, self.access_view()[key_index(self.access_view(), token@)].1),
    {
        let now = utc_now_millis();
        self.validate_token_at(token, now)
    }

    /// Revoke `token`, an access token or else a refresh token.
    pub fn revoke_token(&mut self, token: &str) -> (r: Result<(), OAuthError>)
        requires
            old(self).wf(),
        ensures
            final(self).wf(),
            final(self).clients_view() == old(self).clients_view(),
            final(self).codes_view() == old(self).codes_view(),
            has_key(old(self).access_view(), token@) ==> r is Ok && final(self).refresh_view() == old(self).refresh_view()
                && forall|t: i64| #[trigger] token_check(final(self).access_view(), token@, t) == TokenCheck::Revoked,
            !has_key(old(self).access_view(), token@) && has_key(old(self).refresh_view(), token@) ==> r is Ok
                && final(self).access_view() == old(self).access_view() && has_key(final(self).refresh_view(), token@)
                && final(self).refresh_view()[key_index(final(self).refresh_view(), token@)].1.revoked,
            !has_key(old(self).access_view(), token@) && !has_key(old(self).refresh_view(), token@) ==> (r matches Err(
                OAuthError::InvalidGrant(m),
            ) && m@ == "Token not found"@) && final(self).access_view() == old(self).access_view()
                && final(self).refresh_view() == old(self).refresh_view(),
    {
        proof {
            lemma_keyed(self.access_tokens@);
            lemma_keyed(self.refresh_tokens@);
        }
        match find_name(&self.access_tokens, token) {
            Some(i) => {
                let ghost before = self.access_tokens@;
                set_access_revoked(&mut self.access_tokens, i);
                proof {
                    lemma_update_keeps_keys(before, i as int, AccessToken { revoked: true, ..before[i as int].1 });
                    lemma_keyed(self.access_tokens@);
                    assert(entry_names(self.access_tokens@)[i as int].0 == token@);
                    lemma_key_index_unique(entry_names(self.access_tokens@), i as int);
                    assert(self.access_view()[i as int].0 == token@);
                }
                return Ok(());
            },
            None => {},
        }
        match find_name(&self.refresh_tokens, token) {
            Some(i) => {
                let ghost before = self.refresh_tokens@;
                set_refresh_revoked(&mut self.refresh_tokens, i);
                proof {
                    lemma_update_keeps_keys(before, i as int, RefreshToken { revoked: true, ..before[i as int].1 });
                    lemma_keyed(self.refresh_tokens@);
                    assert(entry_names(self.refresh_tokens@)[i as int].0 == token@);
                    lemma_key_index_unique(entry_names(self.refresh_tokens@), i as int);
                    assert(self.refresh_view()[i as int].0 == token@);
                }
                Ok(())
            },
            None => Err(OAuthError::InvalidGrant(to_owned_string("Token not found"))),
        }
    }

}

impl Default for OAuthServer {
    /// A server with the default lifetimes.
    fn default() -> (r: Self)
        ensures
            r.wf(),
            r.config_view() == (TokenConfig { access_token_lifetime: 3600, refresh_token_lifetime: 2_592_000, auth_code_lifetime: 600 }),
            r.clients_view().len() == 0,
    {
        OAuthServer::new(TokenConfig::default())
    }
}

/// A spent authorization code is refused whatever is asked: a code is
/// exchanged at most once.
pub proof fn lemma_spent_code_refused(
    codes: Seq<(Seq<char>, AuthorizationCode)>,
    code: Seq<char>,
    id: Seq<char>,
    redirect_uri: Seq<char>,
    verifier: Option<Seq<char>>,
    now_millis: i64,
)
    requires
        has_key(codes, code),
        codes[key_index(codes, code)].1.used,
    ensures
        code_check(codes, code, id, redirect_uri, verifier, now_millis) == CodeCheck::Used,
{
}

/// A revoked access token is refused at every time.
pub proof fn lemma_revoked_token_refused(tokens: Seq<(Seq<char>, AccessToken)>, token: Seq<char>, now_millis: i64)
    requires
        has_key(tokens, token),
        tokens[key_index(tokens, token)].1.revoked,
    ensures
        token_check(tokens, token, now_millis) == TokenCheck::Revoked,
{
}

/// A spent refresh token is refused whatever client asks.
pub proof fn lemma_revoked_refresh_refused(tokens: Seq<(Seq<char>, RefreshToken)>, token: Seq<char>, id: Seq<char>, now_millis: i64)
    requires
        has_key(tokens, token),
        tokens[key_index(tokens, token)].1.revoked,
    ensures
        refresh_check(tokens, token, id, now_millis) == RefreshCheck::Revoked,
{
}

/// `o` holds the text `k`.
pub open spec fn names_value(o: Option<String>, k: Seq<char>) -> bool {
    o matches Some(t) && t@ == k
}

/// The verifier given, by view.
pub open spec fn verifier_view(v: Option<&str>) -> Option<Seq<char>> {
    match v {
        Some(s) => Some(s@),
        None => None,
    }
}

fn set_code_used(codes: &mut Vec<(String, AuthorizationCode)>, i: usize)
    requires
        i < old(codes)@.len(),
    ensures
        final(codes)@ == old(codes)@.update(
            i as int,
            (old(codes)@[i as int].0, AuthorizationCode { used: true, ..old(codes)@[i as int].1 }),
        ),
{
    let (k, mut c) = codes.remove(i);
    c.used = true;
    codes.insert(i, (k, c));
    assert(codes@ =~= old(codes)@.update(
        i as int,
        (old(codes)@[i as int].0, AuthorizationCode { used: true, ..old(codes)@[i as int].1 }),
    ));
}

fn set_access_revoked(tokens: &mut Vec<(String, AccessToken)>, i: usize)
    requires
        i < old(tokens)@.len(),
    ensures
        final(tokens)@ == old(tokens)@.update(
            i as int,
            (old(tokens)@[i as int].0, AccessToken { revoked: true, ..old(tokens)@[i as int].1 }),
        ),
{
    let (k, mut t) = tokens.remove(i);
    t.revoked = true;
    tokens.insert(i, (k, t));
    assert(tokens@ =~= old(tokens)@.update(
        i as int,
        (old(tokens)@[i as int].0, AccessToken { revoked: true, ..old(tokens)@[i as int].1 }),
    ));
}

fn set_refresh_revoked(tokens: &mut Vec<(String, RefreshToken)>, i: usize)
    requires
        i < old(tokens)@.len(),
    ensures
        final(tokens)@ == old(tokens)@.update(
            i as int,
            (old(tokens)@[i as int].0, RefreshToken { revoked: true, ..old(tokens)@[i as int].1 }),
        ),
{
    let (k, mut t) = tokens.remove(i);
    t.revoked = true;
    tokens.insert(i, (k, t));
    assert(tokens@ =~= old(tokens)@.update(
        i as int,
        (old(tokens)@[i as int].0, RefreshToken { revoked: true, ..old(tokens)@[i as int].1 }),
    ));
}

/// Changing the value at one place keeps the keys of a table.
proof fn lemma_update_keeps_keys<A>(s: Seq<(String, A)>, i: int, v: A)
    requires
        0 <= i < s.len(),
        distinct_keys(entry_names(s)),
    ensures
        entry_names(s.update(i, (s[i].0, v))) == entry_names(s),
        keyed(s.update(i, (s[i].0, v))) == keyed(s).update(i, (s[i].0@, v)),
{
    assert(entry_names(s.update(i, (s[i].0, v))) =~= entry_names(s));
    assert(keyed(s.update(i, (s[i].0, v))) =~= keyed(s).update(i, (s[i].0@, v)));
}

fn contains_grant(v: &Vec<GrantType>, g: GrantType) -> (r: bool)
    ensures
        r == v@.contains(g),
{
    let mut i: usize = 0;
    while i < v.len()
        invariant
            i <= v@.len(),
            forall|j: int| 0 <= j < i ==> v@[j] != g,
        decreases v@.len() - i,
    {
        if v[i] == g {
            assert(v@[i as int] == g);
            return true;
        }
        i = i + 1;
    }
    false
}

fn copy_grants(v: &Vec<GrantType>) -> (r: Vec<GrantType>)
    ensures
        r@ == v@,
{
    let mut out: Vec<GrantType> = Vec::new();
    let mut i: usize = 0;
    while i < v.len()
        invariant
            i <= v@.len(),
            out@ == v@.take(i as int),
        decreases v@.len() - i,
    {
        out.push(v[i]);
        assert(v@.take(i as int + 1) =~= v@.take(i as int).push(v@[i as int]));
        i = i + 1;
    }
    assert(v@.take(i as int) =~= v@);
    out
}

} // verus!
