//! Signed session tokens that carry a subject and an expiry time.
//!
//! Tokens are signed and read by the `jsonwebtoken` crate, with HMAC-SHA256
//! under one secret. The crate checks the signature and the shape of a
//! token; whether a token has expired is decided here, against a time that
//! the caller names.

use crate::auth_errors::AuthServiceError;
use crate::clock::{latest_second, now_seconds};
use jsonwebtoken::{Algorithm, DecodingKey, EncodingKey, Header, Validation};
use vstd::prelude::*;

verus! {

/// The error type of the `jsonwebtoken` crate.
#[verifier::external_type_specification]
#[verifier::external_body]
pub struct ExJwtError(jsonwebtoken::errors::Error);

/// The longest time to live, in seconds: with it, a token issued at the
/// latest second that the clock can read expires at the last second that
/// can be counted.
pub const MAX_TTL_SECONDS: u64 = 0x8000_0000_0000_0000;

/// What a session token asserts: who its bearer is, and the second after
/// which it is no longer valid.
#[derive(Debug)]
pub struct JwtClaims {
    pub sub: String,
    pub exp: u64,
}

/// The two claims as they are read from a token, each absent where the
/// token does not hold it in the right form.
#[derive(Debug)]
pub struct DecodedClaims {
    pub sub: Option<String>,
    pub exp: Option<u64>,
}

/// What is read from a token: nothing where it is rejected, else the text of
/// its `sub` claim and the number of its `exp` claim, as far as it has them.
pub type Decoding = Option<(Option<Seq<char>>, Option<u64>)>;

impl DecodedClaims {
    /// The claims as plain values.
    pub open spec fn view(&self) -> (Option<Seq<char>>, Option<u64>) {
        (
            match self.sub {
                Some(s) => Some(s@),
                None => None,
            },
            self.exp,
        )
    }
}

/// The token that `jsonwebtoken::encode` makes with the default header
/// (HS256) of the claims `sub` and `exp`, in this order, under a secret.
pub uninterp spec fn jwt_encoding(sub: Seq<char>, exp: u64, secret: Seq<u8>) -> Seq<char>;

/// What `jsonwebtoken::decode` reads from a token under a secret when it
/// accepts HS256 only, asks for an `exp` claim and does not compare it with
/// the clock: `None` where it returns an error.
pub uninterp spec fn jwt_decoding(token: Seq<char>, secret: Seq<u8>) -> Option<(Option<Seq<char>>, Option<u64>)>;

/// `jsonwebtoken::encode` with `Header::default()` and
/// `EncodingKey::from_secret`, on a JSON object of the two claims. It
/// returns a token, the named one: the key is of the family of the header's
/// algorithm, the header and an object of a string and a whole number are
/// always written out as JSON, and signing with HMAC returns no error. The
/// token is read back, under the same secret, as the two claims that went
/// in.
#[verifier::external_body]
fn jwt_encode(sub: &str, exp: u64, secret: &[u8]) -> (signed: Result<
    String,
    jsonwebtoken::errors::Error,
>)
    ensures
        signed is Ok,
        signed matches Ok(token) ==> token@ == jwt_encoding(sub@, exp, secret@),
        signed matches Ok(token) ==> jwt_decoding(token@, secret@) == Some((Some(sub@), Some(exp))),
{
    let mut claims = serde_json::Map::new();
    claims.insert("sub".to_owned(), serde_json::Value::from(sub));
    claims.insert("exp".to_owned(), serde_json::Value::from(exp));
    jsonwebtoken::encode(&Header::default(), &claims, &EncodingKey::from_secret(secret))
}

/// `jsonwebtoken::decode` with `DecodingKey::from_secret` and a validation
/// for HS256 whose comparison of `exp` with the clock is switched off. The
/// result is the named one: the error, or the `sub` claim where it is a
/// string and the `exp` claim where it is a whole number that is not
/// negative.
#[verifier::external_body]
fn jwt_decode(token: &str, secret: &[u8]) -> (decoded: Result<
    DecodedClaims,
    jsonwebtoken::errors::Error,
>)
    ensures
        decoded matches Ok(claims) ==> jwt_decoding(token@, secret@) == Some(claims@),
        decoded is Err ==> jwt_decoding(token@, secret@) is None,
{
    let mut validation = Validation::new(Algorithm::HS256);
    validation.validate_exp = false;
    let key = DecodingKey::from_secret(secret);
    let claims = jsonwebtoken::decode::<serde_json::Value>(token, &key, &validation)?.claims;
    let sub = claims.get("sub").and_then(serde_json::Value::as_str).map(str::to_owned);
    let exp = claims.get("exp").and_then(serde_json::Value::as_u64);
    Ok(DecodedClaims { sub, exp })
}

/// The subject that a decoding yields at the second `now`: the `sub` claim
/// where both claims are there and `now` is not past `exp`, else
/// `InvalidToken`.
pub open spec fn subject_at(decoding: Decoding, now: u64) -> Result<Seq<char>, AuthServiceError> {
    match decoding {
        Some((Some(sub), Some(exp))) => if now <= exp {
            Ok(sub)
        } else {
            Err(AuthServiceError::InvalidToken)
        },
        _ => Err(AuthServiceError::InvalidToken),
    }
}

/// A result that holds a string, with the string as its characters.
pub open spec fn text_of(r: Result<String, AuthServiceError>) -> Result<Seq<char>, AuthServiceError> {
    match r {
        Ok(s) => Ok(s@),
        Err(e) => Err(e),
    }
}

/// What was read from a token, as plain values.
pub open spec fn decoding_of(decoded: Result<DecodedClaims, jsonwebtoken::errors::Error>) -> Decoding {
    match decoded {
        Ok(claims) => Some(claims@),
        Err(_) => None,
    }
}

/// The subject of a token that was read as `decoded`, at the second `now`.
/// A token that was rejected, that lacks a claim or whose expiry has
/// passed gives `InvalidToken`, with no word on which of these it was.
pub fn subject_of_decoded(
    decoded: Result<DecodedClaims, jsonwebtoken::errors::Error>,
    now: u64,
) -> (subject: Result<String, AuthServiceError>)
    ensures
        text_of(subject) == subject_at(decoding_of(decoded), now),
{
    match decoded {
        Ok(claims) => match (claims.sub, claims.exp) {
            (Some(sub), Some(exp)) => if now <= exp {
                Ok(sub)
            } else {
                Err(AuthServiceError::InvalidToken)
            },
            _ => Err(AuthServiceError::InvalidToken),
        },
        Err(_) => Err(AuthServiceError::InvalidToken),
    }
}

/// Issues and validates session tokens under one secret, each token valid
/// for the same number of seconds.
pub struct TokenIssuer {
    secret: Vec<u8>,
    ttl_seconds: u64,
}

impl TokenIssuer {
    /// A token lives for at least one second and for `MAX_TTL_SECONDS` at
    /// most.
    #[verifier::type_invariant]
    spec fn lives(&self) -> bool {
        0 < self.ttl_seconds <= MAX_TTL_SECONDS
    }

    /// The secret that tokens are signed with.
    pub closed spec fn secret(&self) -> Seq<u8> {
        self.secret@
    }

    /// The number of seconds a token is valid for.
    pub closed spec fn ttl(&self) -> u64 {
        self.ttl_seconds
    }

    /// An issuer with the given secret and time to live; none where the time
    /// to live is zero, or longer than `MAX_TTL_SECONDS`: every token of an
    /// issuer expires, and at a second that can be counted.
    pub fn new(secret: Vec<u8>, ttl_seconds: u64) -> (issuer: Option<TokenIssuer>)
        ensures
            issuer is Some <==> 0 < ttl_seconds <= MAX_TTL_SECONDS,
            issuer matches Some(i) ==> i.secret() == secret@ && i.ttl() == ttl_seconds,
    {
        if ttl_seconds == 0 || ttl_seconds > MAX_TTL_SECONDS {
            None
        } else {
            Some(TokenIssuer { secret, ttl_seconds })
        }
    }

    /// The number of seconds a token is valid for.
    pub fn ttl_seconds(&self) -> (ttl: u64)
        ensures
            ttl == self.ttl(),
            0 < ttl <= MAX_TTL_SECONDS,
            latest_second() + ttl <= u64::MAX,
    {
        proof {
            use_type_invariant(self);
        }
        self.ttl_seconds
    }

    /// `token` is a token that this issuer signs for `subject` at the
    /// second `now`: it expires `ttl` seconds later, and is read back as
    /// these claims.
    pub open spec fn issued(&self, subject: Seq<char>, now: u64, token: Seq<char>) -> bool {
        &&& now + self.ttl() <= u64::MAX
        &&& jwt_encoding(subject, (now + self.ttl()) as u64, self.secret()) == token
        &&& jwt_decoding(token, self.secret()) == Some(
            (Some(subject), Some((now + self.ttl()) as u64)),
        )
    }

    /// `token` is a token that this issuer signs for `subject` at some
    /// second that the clock can read.
    pub open spec fn issued_once(&self, subject: Seq<char>, token: Seq<char>) -> bool {
        exists|now: u64| now <= latest_second() && #[trigger] self.issued(subject, now, token)
    }

    /// What validating `token` at the second `now` gives.
    pub open spec fn validation(&self, token: Seq<char>, now: u64) -> Result<
        Seq<char>,
        AuthServiceError,
    > {
        subject_at(jwt_decoding(token, self.secret()), now)
    }

    /// What a token for `subject` asserts when it is issued at the second
    /// `now`: the subject, and the second `ttl` seconds later as the one it
    /// expires at. None where that second cannot be counted.
    pub fn claims_at(&self, subject: &str, now: u64) -> (claims: Option<JwtClaims>)
        ensures
            claims is Some <==> now + self.ttl() <= u64::MAX,
            claims matches Some(c) ==> c.sub@ == subject@ && c.exp == now + self.ttl() && now
                < c.exp,
    {
        proof {
            use_type_invariant(self);
        }
        match now.checked_add(self.ttl_seconds) {
            Some(exp) => Some(JwtClaims { sub: subject.to_owned(), exp }),
            None => None,
        }
    }

    /// The token that asserts `claims`, signed with the secret. The signer
    /// does not fail.
    pub fn sign(&self, claims: &JwtClaims) -> (signed: Result<String, AuthServiceError>)
        ensures
            signed matches Ok(token) && token@ == jwt_encoding(
                claims.sub@,
                claims.exp,
                self.secret(),
            ) && jwt_decoding(token@, self.secret()) == Some((Some(claims.sub@), Some(claims.exp))),
    {
        match jwt_encode(claims.sub.as_str(), claims.exp, self.secret.as_slice()) {
            Ok(token) => Ok(token),
            Err(_) => Err(AuthServiceError::Unknown),
        }
    }

    /// A token for `subject` that expires `ttl` seconds after `now`.
    /// `Unknown` where that second cannot be counted, and in no other case.
    pub fn issue_at(&self, subject: &str, now: u64) -> (issue: Result<String, AuthServiceError>)
        ensures
            match issue {
                Ok(token) => self.issued(subject@, now, token@) && now < now + self.ttl(),
                Err(e) => e == AuthServiceError::Unknown && now + self.ttl() > u64::MAX,
            },
    {
        match self.claims_at(subject, now) {
            Some(claims) => self.sign(&claims),
            None => Err(AuthServiceError::Unknown),
        }
    }

    /// The subject of `token` if, at the second `now`, it is a token of this
    /// issuer that has not expired; `InvalidToken` in every other case.
    pub fn validate_at(&self, token: &str, now: u64) -> (subject: Result<String, AuthServiceError>)
        ensures
            text_of(subject) == self.validation(token@, now),
    {
        subject_of_decoded(jwt_decode(token, self.secret.as_slice()), now)
    }

    /// A token for `subject` that expires `ttl` seconds after the present
    /// time. It does not fail: the second a token expires at can be counted
    /// whatever the clock reads.
    pub fn issue(&self, subject: &str) -> (issue: Result<String, AuthServiceError>)
        ensures
            issue matches Ok(token) && self.issued_once(subject@, token@),
    {
        proof {
            use_type_invariant(self);
        }
        let now = now_seconds();
        let issue = self.issue_at(subject, now);
        proof {
            if issue is Ok {
                assert(self.issued(subject@, now, issue->Ok_0@));
            }
        }
        issue
    }

    /// The subject of `token` if it is a token of this issuer that has not
    /// expired at the present time; `InvalidToken` in every other case.
    pub fn validate(&self, token: &str) -> (subject: Result<String, AuthServiceError>)
        ensures
            exists|now: u64|
                now <= latest_second() && text_of(subject) == #[trigger] self.validation(
                    token@,
                    now,
                ),
    {
        let now = now_seconds();
        let subject = self.validate_at(token, now);
        assert(text_of(subject) == self.validation(token@, now));
        subject
    }
}

/// A token that asserts `email` as its subject, valid from the present time
/// for as long as the issuer lets tokens live. It does not fail.
pub fn generate_jwt(email: &str, issuer: &TokenIssuer) -> (issue: Result<String, AuthServiceError>)
    ensures
        issue matches Ok(token) && issuer.issued_once(email@, token@),
{
    issuer.issue(email)
}

/// Tells whether `token` is a token of the issuer that has not expired at
/// the present time.
pub fn validate_jwt(token: &str, issuer: &TokenIssuer) -> (valid: bool)
    ensures
        exists|now: u64|
            now <= latest_second() && valid == (#[trigger] issuer.validation(token@, now) is Ok),
{
    let now = now_seconds();
    let subject = issuer.validate_at(token, now);
    assert(subject.is_ok() == (issuer.validation(token@, now) is Ok));
    subject.is_ok()
}

} // verus!
