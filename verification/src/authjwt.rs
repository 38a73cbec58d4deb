//! Credential issuance and validation: registration against a shared
//! secret, signed-claim issuance with a 24-hour expiry, and validation
//! of a bearer token before a mutation is allowed.
//!
//! The signing itself is done by an outside JWT library behind trusted
//! wrappers; what a token carries is named by the spec functions
//! [`token_of`] and [`claims_in_token`], and everything around the two
//! calls — the shared-secret gate, the subject construction, the expiry
//! arithmetic and the expiry check — is verified.

use vstd::prelude::*;

use crate::AppState;
use crate::strutil::{str_eq, str_has_prefix};

verus! {

/// Authentication-related errors.
#[derive(Debug, Clone, Copy, PartialEq, Eq, Structural)]
pub enum AuthError {
    /// The caller sent no usable token.
    InvalidToken,
    /// An internal error occurred during token creation.
    TokenCreation,
    /// The registration or the token's verification failed.
    Registration,
}

impl AuthError {
    /// The HTTP status code and message the presentation layer reports
    /// for this error.
    pub fn response_parts(&self) -> (r: (u16, &'static str))
        ensures
            self is Registration ==> r.0 == 401 && r.1@ == "Invalid registration"@,
            self is TokenCreation ==> r.0 == 500 && r.1@ == "Token creation error"@,
            self is InvalidToken ==> r.0 == 401 && r.1@ == "Invalid token"@,
    {
        match self {
            AuthError::Registration => (401, "Invalid registration"),
            AuthError::TokenCreation => (500, "Token creation error"),
            AuthError::InvalidToken => (401, "Invalid token"),
        }
    }
}

/// Holds the secret the JWT encoding and decoding keys are derived from.
pub struct JwtKeys {
    pub secret: Vec<u8>,
}

impl View for JwtKeys {
    type V = Seq<u8>;

    open spec fn view(&self) -> Seq<u8> {
        self.secret@
    }
}

impl JwtKeys {
    /// Creates new JWT keys from a secret.
    pub fn new(secret: &[u8]) -> (r: Self)
        ensures
            r@ == secret@,
    {
        JwtKeys { secret: vstd::slice::slice_to_vec(secret) }
    }
}

/// A signed token response: the token string and its fixed type label.
#[derive(Debug, PartialEq, Eq)]
pub struct AuthBody {
    pub access_token: String,
    pub token_type: String,
}

impl AuthBody {
    /// Wraps a signed token with the fixed `Bearer` type label.
    pub fn new(access_token: String) -> (r: Self)
        ensures
            r.access_token@ == access_token@,
            r.token_type@ == "Bearer"@,
    {
        AuthBody { access_token, token_type: "Bearer".to_owned() }
    }
}

/// A registration request: declared name, contact and password.
pub struct Registration {
    /// The full name of the registrant.
    pub full_name: String,
    /// The email address of the registrant.
    pub email: String,
    /// The password supplied by the registrant.
    pub password: String,
}

/// Signed claims: issuer, subject and expiry timestamp.
#[derive(Debug, PartialEq, Eq)]
pub struct Claims {
    /// The issuer of the token.
    pub iss: String,
    /// The subject of the token (registrant information).
    pub sub: String,
    /// Expiration time as a Unix timestamp.
    pub exp: u64,
}

/// The fixed service identifier used as the claim issuer.
pub open spec fn service_issuer() -> Seq<char> {
    "recipe-server.po8.org"@
}

/// The claim subject derived from a registrant's name and contact.
pub open spec fn subject_of(name: Seq<char>, email: Seq<char>) -> Seq<char> {
    name + " <"@ + email + ">"@
}

/// The signed token that encoding the claims (issuer, subject, expiry)
/// under a secret yields.  Named rather than written out: the encoding
/// is a function of the claims and the secret alone.
pub uninterp spec fn token_of(iss: Seq<char>, sub: Seq<char>, exp: u64, secret: Seq<u8>) -> Seq<
    char,
>;

/// What decoding a token under a secret (without any expiry check)
/// yields: the carried claims, or nothing when the decoder rejects the
/// token.  Named rather than written out: decoding reads no clock here,
/// so it is a function of the token and the secret alone.
pub uninterp spec fn claims_in_token(token: Seq<char>, secret: Seq<u8>) -> Option<
    (Seq<char>, Seq<char>, u64),
>;

/// Relies on jsonwebtoken::encode with HS512: the token is a signed
/// encoding of exactly these claims, a function of the claims and the
/// secret alone, and decoding it under the same secret yields the claims
/// back.  Encoding succeeds on every input: the HS512 header matches the
/// HMAC key family, JSON serialization of the fixed header and of
/// string/integer claims cannot fail, and HMAC signing has no failure
/// path.
#[verifier::external_body]
fn encode_claims(iss: &str, sub: &str, exp: u64, secret: &[u8]) -> (r: Option<String>)
    ensures
        r is Some,
        r matches Some(t) ==> t@ == token_of(iss@, sub@, exp, secret@),
        r matches Some(t) ==> claims_in_token(t@, secret@) == Some((iss@, sub@, exp)),
{
    let header = jsonwebtoken::Header::new(jsonwebtoken::Algorithm::HS512);
    let key = jsonwebtoken::EncodingKey::from_secret(secret);
    let mut claims = serde_json::Map::new();
    claims.insert("iss".to_owned(), serde_json::Value::String(iss.to_owned()));
    claims.insert("sub".to_owned(), serde_json::Value::String(sub.to_owned()));
    claims.insert("exp".to_owned(), serde_json::Value::from(exp));
    jsonwebtoken::encode(&header, &serde_json::Value::Object(claims), &key).ok()
}

/// Relies on jsonwebtoken::decode with HS512, with the expiry check
/// disabled (the caller checks expiry itself): the result is exactly
/// what the token carries under the secret — the claims on acceptance,
/// nothing on rejection — and a token produced by jsonwebtoken::encode
/// under the same secret is accepted.
#[verifier::external_body]
fn decode_claims(token: &str, secret: &[u8]) -> (r: Option<(String, String, u64)>)
    ensures
        r matches Some(c) ==> claims_in_token(token@, secret@) == Some((c.0@, c.1@, c.2)),
        r is None ==> claims_in_token(token@, secret@) is None,
        (exists|i: Seq<char>, s: Seq<char>, e: u64|
            token@ == token_of(i, s, e, secret@)) ==> r is Some,
{
    let key = jsonwebtoken::DecodingKey::from_secret(secret);
    let mut validation = jsonwebtoken::Validation::new(jsonwebtoken::Algorithm::HS512);
    validation.validate_exp = false;
    validation.required_spec_claims = std::collections::HashSet::new();
    let data = match jsonwebtoken::decode::<serde_json::Value>(token, &key, &validation) {
        Ok(d) => d,
        Err(_) => return None,
    };
    let iss = data.claims.get("iss")?.as_str()?.to_owned();
    let sub = data.claims.get("sub")?.as_str()?.to_owned();
    let exp = data.claims.get("exp")?.as_u64()?;
    Some((iss, sub, exp))
}

/// Relies on chrono::Utc::now for the current Unix timestamp; nothing
/// is promised of the clock's value.
#[verifier::external_body]
fn unix_now() -> i64 {
    chrono::Utc::now().timestamp()
}

/// Builds the claim subject `"<name> <<email>>"`.
fn make_subject(name: &str, email: &str) -> (r: String)
    ensures
        r@ == subject_of(name@, email@),
{
    let mut s = name.to_owned();
    s.append(" <");
    s.append(email);
    s.append(">");
    s
}

/// The number of seconds a token stays valid: 24 hours.
pub const TOKEN_LIFETIME_SECONDS: u64 = 86400;

/// Issues a signed token for a registration at the given issuance time.
///
/// Succeeds exactly when the supplied password equals the process-wide
/// shared secret and the expiry timestamp fits; the token then carries
/// issuer, subject `"<name> <<email>>"` and expiry `now + 24 hours`.
/// Fails with `Registration` exactly on a wrong password, and with
/// `TokenCreation` — the internal-failure kind, never conflated with a
/// bad password — exactly when the expiry would overflow.
pub fn make_jwt_token_at(appstate: &AppState, registration: &Registration, now: u64) -> (r: Result<
    AuthBody,
    AuthError,
>)
    ensures
        (r matches Err(e) && e == AuthError::Registration) <==> registration.password@
            != appstate.reg_key@,
        registration.password@ == appstate.reg_key@ && now + TOKEN_LIFETIME_SECONDS <= u64::MAX
            ==> r is Ok,
        r matches Err(e) ==> (e == AuthError::TokenCreation ==> now + TOKEN_LIFETIME_SECONDS
            > u64::MAX),
        r matches Ok(b) ==> ({
            let exp = (now + TOKEN_LIFETIME_SECONDS) as u64;
            let sub = subject_of(registration.full_name@, registration.email@);
            &&& now + TOKEN_LIFETIME_SECONDS <= u64::MAX
            &&& b.token_type@ == "Bearer"@
            &&& b.access_token@ == token_of(service_issuer(), sub, exp, appstate.jwt_keys@)
            &&& claims_in_token(b.access_token@, appstate.jwt_keys@) == Some(
                (service_issuer(), sub, exp),
            )
        }),
{
    if !str_eq(registration.password.as_str(), appstate.reg_key.as_str()) {
        return Err(AuthError::Registration);
    }
    let exp = match now.checked_add(TOKEN_LIFETIME_SECONDS) {
        Some(exp) => exp,
        None => {
            return Err(AuthError::TokenCreation);
        },
    };
    let sub = make_subject(registration.full_name.as_str(), registration.email.as_str());
    match encode_claims(
        "recipe-server.po8.org",
        sub.as_str(),
        exp,
        appstate.jwt_keys.secret.as_slice(),
    ) {
        Some(token) => Ok(AuthBody::new(token)),
        None => Err(AuthError::TokenCreation),
    }
}

/// Issues a signed token for a registration, taking the issuance time
/// from the system clock.
///
/// Fails with `Registration` exactly when the supplied password does
/// not equal the shared secret; any token it returns carries the
/// service issuer, the subject `"<name> <<email>>"` and some expiry.
pub fn make_jwt_token(appstate: &AppState, registration: &Registration) -> (r: Result<
    AuthBody,
    AuthError,
>)
    ensures
        (r matches Err(e) && e == AuthError::Registration) <==> registration.password@
            != appstate.reg_key@,
        r matches Ok(b) ==> ({
            let sub = subject_of(registration.full_name@, registration.email@);
            &&& b.token_type@ == "Bearer"@
            &&& exists|exp: u64|
                b.access_token@ == #[trigger] token_of(
                    service_issuer(),
                    sub,
                    exp,
                    appstate.jwt_keys@,
                ) && claims_in_token(b.access_token@, appstate.jwt_keys@) == Some(
                    (service_issuer(), sub, exp),
                )
        }),
{
    if !str_eq(registration.password.as_str(), appstate.reg_key.as_str()) {
        return Err(AuthError::Registration);
    }
    let now_signed = unix_now();
    if now_signed < 0 {
        return Err(AuthError::TokenCreation);
    }
    make_jwt_token_at(appstate, registration, now_signed as u64)
}

/// Validates a bearer token at the given time: verifies the signature
/// under the service secret and checks that the expiry is in the
/// future.  Succeeds exactly when the decoder accepts the token and its
/// expiry lies in the future, and then yields the embedded claims; any
/// failure — malformed token, bad signature, or expiry not in the
/// future — is reported as `Registration`, the verification-failed
/// error kind.
pub fn validate_token(token: &str, keys: &JwtKeys, now: u64) -> (r: Result<Claims, AuthError>)
    ensures
        r is Ok <==> (claims_in_token(token@, keys@) matches Some(c) && c.2 > now),
        r matches Ok(c) ==> claims_in_token(token@, keys@) == Some(
            (c.iss@, c.sub@, c.exp),
        ) && c.exp > now,
        r matches Err(e) ==> e == AuthError::Registration,
{
    match decode_claims(token, keys.secret.as_slice()) {
        None => Err(AuthError::Registration),
        Some((iss, sub, exp)) => {
            if exp > now {
                Ok(Claims { iss, sub, exp })
            } else {
                Err(AuthError::Registration)
            }
        },
    }
}

/// Extracts the bearer token from an authorization header value: the
/// part after the `"Bearer "` scheme prefix, or nothing when the prefix
/// is absent.
pub fn extract_bearer(header: &str) -> (r: Option<String>)
    ensures
        r is Some <==> header@.len() >= 7 && header@.subrange(0, 7) == "Bearer "@,
        r matches Some(t) ==> t@ == header@.skip(7),
{
    proof {
        reveal_strlit("Bearer ");
    }
    if str_has_prefix(header, "Bearer ") {
        let n = header.unicode_len();
        let rest = header.substring_char(7, n).to_owned();
        proof {
            assert(rest@ =~= header@.skip(7));
        }
        Some(rest)
    } else {
        None
    }
}

} // verus!
