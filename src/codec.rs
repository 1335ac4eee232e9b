use jsonwebtoken::errors::ErrorKind;
use jsonwebtoken::{Algorithm, DecodingKey, EncodingKey, Header, Validation};
use serde_json::Map as JsonMap;
use serde_json::Value as JsonValue;
use vstd::prelude::*;

verus! {

/// Identity claims carried by a token: subject id, display name, role and
/// expiry (seconds since the Unix epoch).
#[derive(Debug, Clone)]
pub struct Claims {
    pub id: String,
    pub username: String,
    pub role: String,
    pub exp: u64,
}

/// Claims as mathematical values: id, name, role, expiry.
pub type ClaimsView = (Seq<char>, Seq<char>, Seq<char>, u64);

impl View for Claims {
    type V = ClaimsView;

    open spec fn view(&self) -> ClaimsView {
        (self.id@, self.username@, self.role@, self.exp)
    }
}

/// Why a token was not accepted, or could not be made.
#[derive(Debug, Clone, Copy, PartialEq, Eq, Structural)]
pub enum TokenError {
    /// The token could not be signed.
    SigningError,
    /// The signature does not match, or the token asks for another algorithm.
    InvalidSignature,
    /// The token's expiry lies before the present time.
    Expired,
    /// The token is not a well-formed token carrying the four claims.
    Malformed,
}

/// How decoding a token failed, before its claims are looked at.
#[derive(Debug, Clone, Copy, PartialEq, Eq, Structural)]
pub enum TokenFault {
    /// The signature or the algorithm was refused.
    Signature,
    /// The token's structure, encoding or payload was refused.
    Malformed,
}

/// The claim fields that a decoded token carried, each absent where the
/// payload had no field of that name and type.
#[derive(Debug, Clone)]
pub struct TokenFields {
    pub id: Option<String>,
    pub username: Option<String>,
    pub role: Option<String>,
    pub exp: Option<u64>,
}

pub type FieldsView = (Option<Seq<char>>, Option<Seq<char>>, Option<Seq<char>>, Option<u64>);

pub open spec fn text_of(o: Option<String>) -> Option<Seq<char>> {
    match o {
        Some(s) => Some(s@),
        None => None,
    }
}

impl View for TokenFields {
    type V = FieldsView;

    open spec fn view(&self) -> FieldsView {
        (text_of(self.id), text_of(self.username), text_of(self.role), self.exp)
    }
}

pub open spec fn fields_result(r: Result<TokenFields, TokenFault>) -> Result<FieldsView, TokenFault> {
    match r {
        Ok(f) => Ok(f@),
        Err(e) => Err(e),
    }
}

pub open spec fn claims_result(r: Result<Claims, TokenError>) -> Result<ClaimsView, TokenError> {
    match r {
        Ok(c) => Ok(c@),
        Err(e) => Err(e),
    }
}

/// The token that signing the four claims under `secret` gives.
pub uninterp spec fn signed_token(id: Seq<char>, username: Seq<char>, role: Seq<char>, exp: u64, secret: Seq<u8>) -> Seq<char>;

/// What decoding `token` under `secret` gives, before the expiry is looked at.
pub uninterp spec fn opened_token(token: Seq<char>, secret: Seq<u8>) -> Result<FieldsView, TokenFault>;

/// What verification decides, given the decoded fields and the present time:
/// a refused signature or structure first, then a missing claim, then expiry.
pub open spec fn verdict(opened: Result<FieldsView, TokenFault>, now: u64) -> Result<ClaimsView, TokenError> {
    match opened {
        Err(TokenFault::Signature) => Err(TokenError::InvalidSignature),
        Err(TokenFault::Malformed) => Err(TokenError::Malformed),
        Ok((Some(id), Some(username), Some(role), Some(exp))) => {
            if exp < now {
                Err(TokenError::Expired)
            } else {
                Ok((id, username, role, exp))
            }
        },
        Ok(_) => Err(TokenError::Malformed),
    }
}

/// Lifetime of a token made by `generate_jwt`: eight hours.
pub const TOKEN_TTL_SECS: u64 = 28800;

/// Relies on jsonwebtoken::encode with the default header (HS256) and an HMAC
/// key made from `secret`; the claims go in as a JSON object of four fields.
/// With an HMAC key and HS256 the key and algorithm agree, a JSON map always
/// serializes, and HMAC signing does not fail, so encoding succeeds.
#[verifier::external_body]
fn sign_claims(id: &str, username: &str, role: &str, exp: u64, secret: &[u8]) -> (r: Option<String>)
    ensures
        r is Some,
        r matches Some(t) ==> t@ == signed_token(id@, username@, role@, exp, secret@),
{
    let mut claims = JsonMap::new();
    claims.insert(String::from("id"), JsonValue::from(id));
    claims.insert(String::from("username"), JsonValue::from(username));
    claims.insert(String::from("role"), JsonValue::from(role));
    claims.insert(String::from("exp"), JsonValue::from(exp));
    jsonwebtoken::encode(&Header::default(), &claims, &EncodingKey::from_secret(secret)).ok()
}

/// Relies on jsonwebtoken::decode with HS256 as the only algorithm and the
/// expiry left unchecked (the caller checks it), so the outcome depends on the
/// token and the secret alone.
#[verifier::external_body]
fn open_token(token: &str, secret: &[u8]) -> (r: Result<TokenFields, TokenFault>)
    ensures
        fields_result(r) == opened_token(token@, secret@),
{
    let mut rules = Validation::new(Algorithm::HS256);
    rules.validate_exp = false;
    match jsonwebtoken::decode::<JsonMap<String, JsonValue>>(token, &DecodingKey::from_secret(secret), &rules) {
        Ok(d) => Ok(TokenFields {
            id: d.claims.get("id").and_then(JsonValue::as_str).map(String::from),
            username: d.claims.get("username").and_then(JsonValue::as_str).map(String::from),
            role: d.claims.get("role").and_then(JsonValue::as_str).map(String::from),
            exp: d.claims.get("exp").and_then(JsonValue::as_u64),
        }),
        Err(e) => Err(match e.kind() {
            ErrorKind::InvalidSignature => TokenFault::Signature,
            ErrorKind::InvalidAlgorithm => TokenFault::Signature,
            _ => TokenFault::Malformed,
        }),
    }
}

/// Relies on std's SystemTime::elapsed, applied to the Unix epoch: whole
/// seconds since the epoch, or `None` where the clock reads before it.
#[verifier::external_body]
fn unix_now() -> (r: Option<u64>) {
    std::time::UNIX_EPOCH.elapsed().ok().as_ref().map(std::time::Duration::as_secs)
}

/// The present time in whole seconds; a clock before the epoch reads as the
/// epoch, and one past the largest signed time as that time.
pub(crate) fn now_secs() -> (r: u64)
    ensures
        r <= i64::MAX,
{
    match unix_now() {
        Some(t) => if t > i64::MAX as u64 {
            i64::MAX as u64
        } else {
            t
        },
        None => 0,
    }
}

/// Signs the claims with expiry `exp` under `secret`.
pub fn issue_token_at(id: &str, username: &str, role: &str, exp: u64, secret: &[u8]) -> (r: Result<String, TokenError>)
    ensures
        match r {
            Ok(t) => t@ == signed_token(id@, username@, role@, exp, secret@),
            Err(_) => false,
        },
{
    match sign_claims(id, username, role, exp, secret) {
        Some(t) => Ok(t),
        None => Err(TokenError::SigningError),
    }
}

/// Decides on decoded fields at time `now`: the claims where the token was
/// sound, carried all four claims and has not expired.
pub fn judge_opened(opened: Result<TokenFields, TokenFault>, now: u64) -> (r: Result<Claims, TokenError>)
    ensures
        claims_result(r) == verdict(fields_result(opened), now),
{
    match opened {
        Err(TokenFault::Signature) => Err(TokenError::InvalidSignature),
        Err(TokenFault::Malformed) => Err(TokenError::Malformed),
        Ok(f) => match (f.id, f.username, f.role, f.exp) {
            (Some(id), Some(username), Some(role), Some(exp)) => {
                if exp < now {
                    Err(TokenError::Expired)
                } else {
                    Ok(Claims { id, username, role, exp })
                }
            },
            _ => Err(TokenError::Malformed),
        },
    }
}

/// Verifies `token` under `secret` at time `now`.
pub fn verify_token_at(token: &str, secret: &[u8], now: u64) -> (r: Result<Claims, TokenError>)
    ensures
        claims_result(r) == verdict(opened_token(token@, secret@), now),
{
    judge_opened(open_token(token, secret), now)
}

/// The expiry of a token issued at `now` that lives `ttl` seconds, held at the
/// largest representable time where the sum would pass it.
pub open spec fn expiry_of(now: u64, ttl: u64) -> u64 {
    if now + ttl > u64::MAX {
        u64::MAX
    } else {
        (now + ttl) as u64
    }
}

/// Signs the claims with an expiry `ttl` seconds after `now`.
pub fn issue_token_at_time(id: &str, username: &str, role: &str, ttl: u64, now: u64, secret: &[u8]) -> (r: Result<String, TokenError>)
    ensures
        match r {
            Ok(t) => t@ == signed_token(id@, username@, role@, expiry_of(now, ttl), secret@),
            Err(_) => false,
        },
{
    let exp = if ttl > u64::MAX - now {
        u64::MAX
    } else {
        now + ttl
    };
    issue_token_at(id, username, role, exp, secret)
}

/// Signs the claims with an expiry `ttl` seconds from now.
pub fn issue_token(id: &str, username: &str, role: &str, ttl: u64, secret: &[u8]) -> (r: Result<String, TokenError>)
    ensures
        match r {
            Ok(t) => exists|now: u64| now <= i64::MAX && t@ == #[trigger] signed_token(id@, username@, role@, expiry_of(now, ttl), secret@),
            Err(_) => false,
        },
{
    let now = now_secs();
    let r = issue_token_at_time(id, username, role, ttl, now, secret);
    assert(r matches Ok(t) ==> t@ == signed_token(id@, username@, role@, expiry_of(now, ttl), secret@));
    r
}

/// Makes a token for the user that expires eight hours from now.
pub fn generate_jwt(user_id: &str, username: &str, role: &str, secret: &[u8]) -> (r: Result<String, TokenError>)
    ensures
        match r {
            Ok(t) => exists|now: u64| now <= i64::MAX && t@ == #[trigger] signed_token(user_id@, username@, role@, expiry_of(now, TOKEN_TTL_SECS), secret@),
            Err(_) => false,
        },
{
    issue_token(user_id, username, role, TOKEN_TTL_SECS, secret)
}

/// Verifies `token` under `secret` at the present time.
pub fn validate_jwt(token: &str, secret: &[u8]) -> (r: Result<Claims, TokenError>)
    ensures
        exists|now: u64| now <= i64::MAX && claims_result(r) == verdict(opened_token(token@, secret@), now),
{
    let now = now_secs();
    let r = verify_token_at(token, secret, now);
    assert(claims_result(r) == verdict(opened_token(token@, secret@), now));
    r
}

/// A soundly signed token that carries all four claims is accepted with
/// exactly those claims at any time up to its expiry.
pub proof fn lemma_sound_token_verifies(claims: ClaimsView, now: u64)
    requires
        now <= claims.3,
    ensures
        verdict(Ok((Some(claims.0), Some(claims.1), Some(claims.2), Some(claims.3))), now) == Ok::<ClaimsView, TokenError>(claims),
{
}

/// A token whose signature decoding refused is reported as such at every
/// time, expired or not: the signature is judged before the expiry.
pub proof fn lemma_refused_signature_is_reported(now: u64)
    ensures
        verdict(Err(TokenFault::Signature), now) == Err::<ClaimsView, TokenError>(TokenError::InvalidSignature),
{
}

/// A soundly signed token that carries all four claims and whose expiry lies
/// before the present time is refused as expired.
pub proof fn lemma_past_expiry_is_expired(fields: FieldsView, now: u64)
    requires
        fields.0 is Some,
        fields.1 is Some,
        fields.2 is Some,
        fields.3 matches Some(exp) && exp < now,
    ensures
        verdict(Ok(fields), now) == Err::<ClaimsView, TokenError>(TokenError::Expired),
{
}

} // verus!
