//! Session tokens: issuing, validating and revoking them.
//!
//! A token is a signed set of claims. The signature is made and checked by
//! `jsonwebtoken`; what the claims say, when they have expired and which
//! tokens are revoked is decided here.

use crate::config::AuthConfig;
use crate::error::AppError;
use crate::models::{LoginResponse, LogoutResponse, TokenVerifyResponse};
use crate::utils::clock::{now, CLOCK_SPAN};
use crate::utils::ident::random_id;
use crate::utils::text::{opt_view, owned, str_eq, strip_prefix};
use vstd::hash_set::StringHashSet;
use vstd::prelude::*;

verus! {

/// What a token says.
#[derive(Debug, Clone)]
pub struct Claims {
    /// Subject (username).
    pub sub: String,
    /// Expiration time (Unix timestamp).
    pub exp: i64,
    /// Issued at (Unix timestamp).
    pub iat: i64,
    /// Token id.
    pub jti: String,
    /// Token type: `"access"` or `"refresh"`.
    pub token_type: String,
}

/// What a token says, as plain values.
pub struct ClaimSet {
    pub sub: Seq<char>,
    pub exp: i64,
    pub iat: i64,
    pub jti: Seq<char>,
    pub token_type: Seq<char>,
}

impl View for Claims {
    type V = ClaimSet;

    open spec fn view(&self) -> ClaimSet {
        ClaimSet {
            sub: self.sub@,
            exp: self.exp,
            iat: self.iat,
            jti: self.jti@,
            token_type: self.token_type@,
        }
    }
}

/// The token that `jsonwebtoken::encode` makes of the claims `sub`, `exp`,
/// `iat`, `jti` and `token_type` with the default header and the HMAC
/// secret `secret`; `None` where it fails.
pub uninterp spec fn signed_token(
    sub: Seq<char>,
    exp: i64,
    iat: i64,
    jti: Seq<char>,
    token_type: Seq<char>,
    secret: Seq<char>,
) -> Option<Seq<char>>;

/// The claims `(sub, exp, iat, jti, token_type)` that `jsonwebtoken::decode`
/// reads from `token` when its signature is checked against the HMAC secret
/// `secret` and its expiry is not; `None` where the token is rejected.
pub uninterp spec fn verified_claims(token: Seq<char>, secret: Seq<char>) -> Option<
    (Seq<char>, i64, i64, Seq<char>, Seq<char>),
>;

/// The token for `claims` under `secret`.
pub open spec fn token_for(claims: ClaimSet, secret: Seq<char>) -> Option<Seq<char>> {
    signed_token(claims.sub, claims.exp, claims.iat, claims.jti, claims.token_type, secret)
}

/// The claims of `token`, if its signature is good under `secret`.
pub open spec fn claims_of(token: Seq<char>, secret: Seq<char>) -> Option<ClaimSet> {
    match verified_claims(token, secret) {
        Some((sub, exp, iat, jti, token_type)) => Some(
            ClaimSet { sub, exp, iat, jti, token_type },
        ),
        None => None,
    }
}

/// Signs `claims` with `jsonwebtoken::encode`, under the default header
/// (HS256) and a key made of `secret` by `EncodingKey::from_secret`. The
/// claims are handed over as a JSON object of their five fields. The result
/// is the token, a function of the claims and the secret alone.
///
/// The signing does not fail: the key is of the family of the header's
/// algorithm, an object of texts and whole numbers is written as JSON
/// without error, and an HMAC is made of any key and any message.
///
/// A token that was signed so is one that `jsonwebtoken::decode` takes
/// under the same secret, and reads the same five claims from, as long as
/// its expiry time is not negative: `decode` reads `exp` as an unsigned
/// number and asks for it.
#[verifier::external_body]
fn jwt_sign(claims: &Claims, secret: &str) -> (token: Option<String>)
    ensures
        token is Some,
        opt_view(token) == signed_token(
            claims.sub@,
            claims.exp,
            claims.iat,
            claims.jti@,
            claims.token_type@,
            secret@,
        ),
        token matches Some(t) ==> (claims.exp >= 0 ==> verified_claims(t@, secret@) == Some(
            (claims.sub@, claims.exp, claims.iat, claims.jti@, claims.token_type@),
        )),
{
    let mut payload = serde_json::Map::new();
    payload.insert("sub".to_string(), serde_json::Value::from(claims.sub.as_str()));
    payload.insert("exp".to_string(), serde_json::Value::from(claims.exp));
    payload.insert("iat".to_string(), serde_json::Value::from(claims.iat));
    payload.insert("jti".to_string(), serde_json::Value::from(claims.jti.as_str()));
    payload.insert("token_type".to_string(), serde_json::Value::from(claims.token_type.as_str()));
    let key = jsonwebtoken::EncodingKey::from_secret(secret.as_bytes());
    jsonwebtoken::encode(&jsonwebtoken::Header::default(), &payload, &key).ok()
}

/// Checks `token` with `jsonwebtoken::decode`, under a key made of `secret`
/// by `DecodingKey::from_secret` and the default validation (HS256, `exp`
/// required) with the expiry check switched off, and reads the five claims
/// from the decoded JSON object. The result is a function of the token and
/// the secret alone: the clock is not consulted.
#[verifier::external_body]
fn jwt_verify(token: &str, secret: &str) -> (claims: Option<Claims>)
    ensures
        claim_fields(claims) == verified_claims(token@, secret@),
{
    let mut rules = jsonwebtoken::Validation::default();
    rules.validate_exp = false;
    let key = jsonwebtoken::DecodingKey::from_secret(secret.as_bytes());
    let data = jsonwebtoken::decode::<serde_json::Value>(token, &key, &rules).ok()?;
    Some(Claims {
        sub: data.claims.get("sub")?.as_str()?.to_string(),
        exp: data.claims.get("exp")?.as_i64()?,
        iat: data.claims.get("iat")?.as_i64()?,
        jti: data.claims.get("jti")?.as_str()?.to_string(),
        token_type: data.claims.get("token_type")?.as_str()?.to_string(),
    })
}

/// The five fields of optional claims.
pub open spec fn claim_fields(o: Option<Claims>) -> Option<
    (Seq<char>, i64, i64, Seq<char>, Seq<char>),
> {
    match o {
        Some(c) => Some((c.sub@, c.exp, c.iat, c.jti@, c.token_type@)),
        None => None,
    }
}

/// Seconds for which an access token is good.
pub const ACCESS_TOKEN_SECONDS: i64 = 3600;

/// Seconds for which a refresh token is good.
pub const REFRESH_TOKEN_SECONDS: i64 = 604800;

/// A token that is issued at `iat` and good for `lifetime` seconds has an
/// expiry time that is a 64-bit number.
pub open spec fn expiry_fits(iat: i64, lifetime: i64) -> bool {
    i64::MIN <= iat + lifetime <= i64::MAX
}

/// A token that is good for `lifetime` seconds has an expiry time that is
/// a 64-bit number, whatever the clock shows when it is issued.
pub open spec fn lifetime_fits(lifetime: i64) -> bool {
    CLOCK_SPAN - i64::MAX <= lifetime <= i64::MAX - CLOCK_SPAN
}

/// The claims of a token of type `token_type` for `sub` that was issued at
/// `iat` with the id `jti` and is good for `lifetime` seconds.
pub open spec fn fresh_claims(
    sub: Seq<char>,
    token_type: Seq<char>,
    lifetime: i64,
    iat: i64,
    jti: Seq<char>,
) -> ClaimSet {
    ClaimSet { sub, exp: (iat + lifetime) as i64, iat, jti, token_type }
}

/// The token of type `token_type` for `sub` that is issued at `iat` with
/// the id `jti` for `lifetime` seconds under `secret`; `None` where the
/// expiry time is no 64-bit number or the signing fails.
pub open spec fn issued(
    sub: Seq<char>,
    token_type: Seq<char>,
    lifetime: i64,
    secret: Seq<char>,
    iat: i64,
    jti: Seq<char>,
) -> Option<Seq<char>> {
    if expiry_fits(iat, lifetime) {
        token_for(fresh_claims(sub, token_type, lifetime, iat, jti), secret)
    } else {
        None
    }
}

/// `token` is the token issued at `iat` with the id `jti`; and unless it
/// expires before the epoch, it is a token whose signature is good and
/// whose claims are those it was issued with.
pub open spec fn is_issued(
    token: Seq<char>,
    sub: Seq<char>,
    token_type: Seq<char>,
    lifetime: i64,
    secret: Seq<char>,
    iat: i64,
    jti: Seq<char>,
) -> bool {
    &&& issued(sub, token_type, lifetime, secret, iat, jti) == Some(token)
    &&& iat + lifetime >= 0 ==> claims_of(token, secret) == Some(
        fresh_claims(sub, token_type, lifetime, iat, jti),
    )
}

/// `res` is what issuing at `iat` with the id `jti` comes to: the token
/// where there is one, else `Internal`.
pub open spec fn issue_outcome(
    res: Result<String, AppError>,
    sub: Seq<char>,
    token_type: Seq<char>,
    lifetime: i64,
    secret: Seq<char>,
    iat: i64,
    jti: Seq<char>,
) -> bool {
    match res {
        Ok(token) => is_issued(token@, sub, token_type, lifetime, secret, iat, jti),
        Err(e) => e is Internal && issued(sub, token_type, lifetime, secret, iat, jti) is None,
    }
}

/// `token` is a token of type `token_type` for `sub`, signed under
/// `secret`, that expires `lifetime` seconds after it was issued.
pub open spec fn issued_to(
    token: Seq<char>,
    sub: Seq<char>,
    token_type: Seq<char>,
    lifetime: i64,
    secret: Seq<char>,
) -> bool {
    exists|iat: i64, jti: Seq<char>|
        #[trigger] is_issued(token, sub, token_type, lifetime, secret, iat, jti)
}

/// `res` is what issuing an access token and a refresh token for `sub`
/// comes to, the first at `access_iat` with the id `access_jti`, the second
/// at `refresh_iat` with the id `refresh_jti`: both tokens where there are
/// both, else `Internal`.
pub open spec fn pair_outcome(
    res: Result<LoginResponse, AppError>,
    sub: Seq<char>,
    access_lifetime: i64,
    refresh_lifetime: i64,
    secret: Seq<char>,
    access_iat: i64,
    access_jti: Seq<char>,
    refresh_iat: i64,
    refresh_jti: Seq<char>,
) -> bool {
    match res {
        Ok(reply) => {
            &&& is_issued(
                reply.access_token@,
                sub,
                "access"@,
                access_lifetime,
                secret,
                access_iat,
                access_jti,
            )
            &&& is_issued(
                reply.refresh_token@,
                sub,
                "refresh"@,
                refresh_lifetime,
                secret,
                refresh_iat,
                refresh_jti,
            )
            &&& reply.token_type@ == "Bearer"@
            &&& reply.expires_in == access_lifetime
        },
        Err(e) => {
            &&& e is Internal
            &&& issued(sub, "access"@, access_lifetime, secret, access_iat, access_jti) is None
                || issued(sub, "refresh"@, refresh_lifetime, secret, refresh_iat, refresh_jti)
                is None
        },
    }
}

/// The token that an `Authorization` header of the form `Bearer <token>`
/// carries.
pub open spec fn bearer_token(header: Option<Seq<char>>) -> Option<Seq<char>> {
    match header {
        Some(h) => if "Bearer "@.is_prefix_of(h) {
            Some(h.skip("Bearer "@.len() as int))
        } else {
            None
        },
        None => None,
    }
}

/// A token that expires at `exp` is no longer good at `now`: the expiry
/// time has passed.
pub open spec fn expired(exp: i64, now: i64) -> bool {
    exp < now
}

/// A token that expires at `exp` is expired at no time that a clock can
/// show.
pub open spec fn cannot_expire(exp: i64) -> bool {
    exp >= i64::MAX
}

/// The token `token` is accepted at the time `now`: its signature is good
/// under `secret`, it has not expired, and its id is not among `revoked`.
pub open spec fn accepted(
    revoked: Set<Seq<char>>,
    token: Seq<char>,
    secret: Seq<char>,
    now: i64,
) -> bool {
    match claims_of(token, secret) {
        Some(c) => !expired(c.exp, now) && !revoked.contains(c.jti),
        None => false,
    }
}

/// The revocation set after `token` was revoked: the token's id is added
/// if its signature is good, else nothing changes.
pub open spec fn revoke_effect(
    revoked: Set<Seq<char>>,
    token: Seq<char>,
    secret: Seq<char>,
) -> Set<Seq<char>> {
    match claims_of(token, secret) {
        Some(c) => revoked.insert(c.jti),
        None => revoked,
    }
}

/// A revoked token is never accepted again: not at any time, and not after
/// any number of further revocations.
pub proof fn lemma_revoked_is_rejected(
    revoked: Set<Seq<char>>,
    later: Set<Seq<char>>,
    token: Seq<char>,
    secret: Seq<char>,
    now: i64,
)
    requires
        revoke_effect(revoked, token, secret).subset_of(later),
    ensures
        !accepted(later, token, secret, now),
{
    match claims_of(token, secret) {
        Some(c) => {
            assert(revoke_effect(revoked, token, secret).contains(c.jti));
        },
        None => {},
    }
}

/// A token is not expired at the time it was issued, nor at any time up to
/// the end of its lifetime.
pub proof fn lemma_fresh_token_is_not_expired(iat: i64, lifetime: i64, now: i64)
    requires
        iat + lifetime <= i64::MAX,
        iat + lifetime >= i64::MIN,
        now <= iat + lifetime,
    ensures
        !expired((iat + lifetime) as i64, now),
{
}

/// A token that was just issued is accepted, with the claims it was issued
/// with: at the time of issue and at any time up to its expiry time, as
/// long as its id is not revoked. A token that expires before the epoch is
/// left out.
pub proof fn lemma_issued_token_is_accepted(
    revoked: Set<Seq<char>>,
    token: Seq<char>,
    sub: Seq<char>,
    token_type: Seq<char>,
    lifetime: i64,
    secret: Seq<char>,
    iat: i64,
    jti: Seq<char>,
    now: i64,
)
    requires
        is_issued(token, sub, token_type, lifetime, secret, iat, jti),
        iat + lifetime >= 0,
        !revoked.contains(jti),
        now <= iat + lifetime,
    ensures
        accepted(revoked, token, secret, now),
        accepted_as(revoked, token, secret, now, token_type),
        claims_of(token, secret) == Some(fresh_claims(sub, token_type, lifetime, iat, jti)),
{
}

/// Revoking never takes an id out of the revocation set.
pub proof fn lemma_revoke_grows(revoked: Set<Seq<char>>, token: Seq<char>, secret: Seq<char>)
    ensures
        revoked.subset_of(revoke_effect(revoked, token, secret)),
{
}

/// The token service: one signing secret, the two lifetimes, and the ids of
/// the tokens that were revoked.
pub struct JwtService {
    secret: String,
    access_token_duration: i64,
    refresh_token_duration: i64,
    blacklist: StringHashSet,
}

impl JwtService {
    /// The signing secret.
    pub closed spec fn secret(&self) -> Seq<char> {
        self.secret@
    }

    /// The ids of the revoked tokens.
    pub closed spec fn revoked(&self) -> Set<Seq<char>> {
        self.blacklist@
    }

    /// The lifetime of an access token, in seconds.
    pub closed spec fn access_seconds(&self) -> i64 {
        self.access_token_duration
    }

    /// The lifetime of a refresh token, in seconds.
    pub closed spec fn refresh_seconds(&self) -> i64 {
        self.refresh_token_duration
    }

    /// A service that signs with `secret`, gives access tokens one hour and
    /// refresh tokens seven days, and has revoked nothing.
    pub fn new(secret: &str) -> (out: Self)
        ensures
            out.secret() == secret@,
            out.revoked() == Set::<Seq<char>>::empty(),
            out.access_seconds() == ACCESS_TOKEN_SECONDS,
            out.refresh_seconds() == REFRESH_TOKEN_SECONDS,
    {
        JwtService {
            secret: owned(secret),
            access_token_duration: ACCESS_TOKEN_SECONDS,
            refresh_token_duration: REFRESH_TOKEN_SECONDS,
            blacklist: StringHashSet::new(),
        }
    }

    /// A service that signs with `secret`, gives access tokens
    /// `access_seconds` and refresh tokens `refresh_seconds`, and has revoked
    /// nothing.
    pub fn with_lifetimes(secret: &str, access_seconds: i64, refresh_seconds: i64) -> (out: Self)
        ensures
            out.secret() == secret@,
            out.revoked() == Set::<Seq<char>>::empty(),
            out.access_seconds() == access_seconds,
            out.refresh_seconds() == refresh_seconds,
    {
        JwtService {
            secret: owned(secret),
            access_token_duration: access_seconds,
            refresh_token_duration: refresh_seconds,
            blacklist: StringHashSet::new(),
        }
    }

    /// Signs a token of type `token_type` for `username`, issued at `now`
    /// with the id `jti` and good for `lifetime` seconds.
    ///
    /// Fails with `Internal` exactly if the expiry time is no 64-bit number.
    fn issue(&self, username: &str, token_type: &str, lifetime: i64, now: i64, jti: String) -> (res:
        Result<String, AppError>)
        ensures
            issue_outcome(res, username@, token_type@, lifetime, self.secret(), now, jti@),
            res is Ok <==> expiry_fits(now, lifetime),
    {
        let exp = match now.checked_add(lifetime) {
            Some(exp) => exp,
            None => {
                return Err(AppError::Internal(owned("Failed to create token")));
            },
        };
        let claims = Claims {
            sub: owned(username),
            exp,
            iat: now,
            jti,
            token_type: owned(token_type),
        };
        match jwt_sign(&claims, self.secret.as_str()) {
            Some(token) => Ok(token),
            None => Err(AppError::Internal(owned("Failed to create token"))),
        }
    }

    /// Signs an access token for `username`, issued at `now` with the id
    /// `jti`.
    ///
    /// Fails with `Internal` exactly if the expiry time is no 64-bit number.
    pub fn create_access_token_at(&self, username: &str, now: i64, jti: String) -> (res: Result<
        String,
        AppError,
    >)
        ensures
            res is Ok <==> expiry_fits(now, self.access_seconds()),
            issue_outcome(
                res,
                username@,
                "access"@,
                self.access_seconds(),
                self.secret(),
                now,
                jti@,
            ),
            res is Ok <==> issued(
                username@,
                "access"@,
                self.access_seconds(),
                self.secret(),
                now,
                jti@,
            ) is Some,
            res matches Ok(token) ==> issued_to(
                token@,
                username@,
                "access"@,
                self.access_seconds(),
                self.secret(),
            ),
    {
        let res = self.issue(username, "access", self.access_token_duration, now, jti);
        proof {
            if res is Ok {
                assert(is_issued(
                    res->Ok_0@,
                    username@,
                    "access"@,
                    self.access_seconds(),
                    self.secret(),
                    now,
                    jti@,
                ));
            }
        }
        res
    }

    /// Signs a refresh token for `username`, issued at `now` with the id
    /// `jti`.
    ///
    /// Fails with `Internal` exactly if the expiry time is no 64-bit number.
    pub fn create_refresh_token_at(&self, username: &str, now: i64, jti: String) -> (res: Result<
        String,
        AppError,
    >)
        ensures
            res is Ok <==> expiry_fits(now, self.refresh_seconds()),
            issue_outcome(
                res,
                username@,
                "refresh"@,
                self.refresh_seconds(),
                self.secret(),
                now,
                jti@,
            ),
            res is Ok <==> issued(
                username@,
                "refresh"@,
                self.refresh_seconds(),
                self.secret(),
                now,
                jti@,
            ) is Some,
            res matches Ok(token) ==> issued_to(
                token@,
                username@,
                "refresh"@,
                self.refresh_seconds(),
                self.secret(),
            ),
    {
        let res = self.issue(username, "refresh", self.refresh_token_duration, now, jti);
        proof {
            if res is Ok {
                assert(is_issued(
                    res->Ok_0@,
                    username@,
                    "refresh"@,
                    self.refresh_seconds(),
                    self.secret(),
                    now,
                    jti@,
                ));
            }
        }
        res
    }

    /// Signs an access token for `username`, issued now with a fresh random
    /// id.
    ///
    /// The result is what issuing at the time the clock shows, with the id
    /// that was drawn, comes to. It is a token unless the lifetime is so
    /// long, or so far below zero, that the expiry time is no 64-bit
    /// number.
    pub fn create_access_token(&self, username: &str) -> (res: Result<String, AppError>)
        ensures
            lifetime_fits(self.access_seconds()) ==> res is Ok,
            exists|iat: i64, jti: Seq<char>|
                #[trigger] issue_outcome(
                    res,
                    username@,
                    "access"@,
                    self.access_seconds(),
                    self.secret(),
                    iat,
                    jti,
                ),
            match res {
                Ok(token) => issued_to(
                    token@,
                    username@,
                    "access"@,
                    self.access_seconds(),
                    self.secret(),
                ),
                Err(e) => e is Internal,
            },
    {
        let at = now();
        let jti = random_id();
        let ghost id = jti@;
        let res = self.create_access_token_at(username, at.secs, jti);
        assert(issue_outcome(
            res,
            username@,
            "access"@,
            self.access_seconds(),
            self.secret(),
            at.secs,
            id,
        ));
        res
    }

    /// Signs a refresh token for `username`, issued now with a fresh random
    /// id.
    ///
    /// The result is what issuing at the time the clock shows, with the id
    /// that was drawn, comes to. It is a token unless the lifetime is so
    /// long, or so far below zero, that the expiry time is no 64-bit
    /// number.
    pub fn create_refresh_token(&self, username: &str) -> (res: Result<String, AppError>)
        ensures
            lifetime_fits(self.refresh_seconds()) ==> res is Ok,
            exists|iat: i64, jti: Seq<char>|
                #[trigger] issue_outcome(
                    res,
                    username@,
                    "refresh"@,
                    self.refresh_seconds(),
                    self.secret(),
                    iat,
                    jti,
                ),
            match res {
                Ok(token) => issued_to(
                    token@,
                    username@,
                    "refresh"@,
                    self.refresh_seconds(),
                    self.secret(),
                ),
                Err(e) => e is Internal,
            },
    {
        let at = now();
        let jti = random_id();
        let ghost id = jti@;
        let res = self.create_refresh_token_at(username, at.secs, jti);
        assert(issue_outcome(
            res,
            username@,
            "refresh"@,
            self.refresh_seconds(),
            self.secret(),
            at.secs,
            id,
        ));
        res
    }

    /// The claims of `token`, if it is accepted at the time `now`.
    ///
    /// Fails with `Unauthorized` if the signature is not good, the token has
    /// expired, or its id is revoked.
    pub fn validate_token_at(&self, token: &str, now: i64) -> (res: Result<Claims, AppError>)
        ensures
            res is Ok <==> accepted(self.revoked(), token@, self.secret(), now),
            match res {
                Ok(claims) => Some(claims@) == claims_of(token@, self.secret()),
                Err(e) => e is Unauthorized,
            },
    {
        let claims = match jwt_verify(token, self.secret.as_str()) {
            Some(claims) => claims,
            None => {
                return Err(AppError::Unauthorized(owned("Invalid token")));
            },
        };
        if claims.exp < now {
            return Err(AppError::Unauthorized(owned("Invalid token")));
        }
        if self.blacklist.contains(claims.jti.as_str()) {
            return Err(AppError::Unauthorized(owned("Token has been revoked")));
        }
        Ok(claims)
    }

    /// The claims of `token`, if it is accepted now.
    ///
    /// Fails with `Unauthorized` if the signature is not good, the token has
    /// expired, or its id is revoked. Whether the token is of the type that
    /// the caller expects is for the caller to check. The result is that of
    /// [`JwtService::validate_token_at`] at the time the clock shows; a
    /// token that is not revoked and cannot expire is taken whatever the
    /// clock shows.
    pub fn validate_token(&self, token: &str) -> (res: Result<Claims, AppError>)
        ensures
            exists|at: i64|
                res is Ok <==> #[trigger] accepted(self.revoked(), token@, self.secret(), at),
            match res {
                Ok(claims) => Some(claims@) == claims_of(token@, self.secret())
                    && !self.revoked().contains(claims@.jti),
                Err(e) => e is Unauthorized,
            },
            claims_of(token@, self.secret()) matches Some(c) ==> (self.revoked().contains(c.jti)
                ==> res is Err),
            claims_of(token@, self.secret()) is None ==> res is Err,
            claims_of(token@, self.secret()) matches Some(c) ==> (!self.revoked().contains(c.jti)
                && cannot_expire(c.exp) ==> res is Ok),
    {
        let at = now();
        let res = self.validate_token_at(token, at.secs);
        assert(res is Ok <==> accepted(self.revoked(), token@, self.secret(), at.secs));
        res
    }

    /// Revokes `token`: its id joins the revocation set, so that the token
    /// is never accepted again. A token whose signature is not good is left
    /// alone. Never fails.
    pub fn blacklist_token(&mut self, token: &str) -> (res: Result<(), AppError>)
        ensures
            res is Ok,
            final(self).revoked() == revoke_effect(old(self).revoked(), token@, old(self).secret()),
            final(self).secret() == old(self).secret(),
            final(self).access_seconds() == old(self).access_seconds(),
            final(self).refresh_seconds() == old(self).refresh_seconds(),
    {
        match jwt_verify(token, self.secret.as_str()) {
            Some(claims) => {
                self.blacklist.insert(claims.jti);
            },
            None => {},
        }
        Ok(())
    }

    /// The lifetime of an access token, in seconds.
    pub fn get_access_token_duration_seconds(&self) -> (seconds: i64)
        ensures
            seconds == self.access_seconds(),
    {
        self.access_token_duration
    }
}

/// Compares two texts with `constant_time_eq::constant_time_eq` on their
/// bytes, which is true exactly for byte strings of one length that agree
/// in every byte: for texts that are the same.
#[verifier::external_body]
pub(crate) fn secure_eq(a: &str, b: &str) -> (same: bool)
    ensures
        same == (a@ == b@),
{
    constant_time_eq::constant_time_eq(a.as_bytes(), b.as_bytes())
}

/// The token that the `Authorization` header carries, if it is of the form
/// `Bearer <token>`.
pub fn bearer_of(header: Option<&str>) -> (token: Option<String>)
    ensures
        opt_view(token) == bearer_token(header_text(header)),
{
    match header {
        Some(h) => strip_prefix(h, "Bearer "),
        None => None,
    }
}

/// Checks the credentials against the administrator's and, where they are
/// right, issues an access token and a refresh token for `username`.
///
/// Fails with `Unauthorized` exactly if the username or the password is
/// wrong. With the right credentials the result is what issuing the two
/// tokens comes to, at the times the clock shows and with the ids that were
/// drawn: both tokens, unless a lifetime is such that an expiry time is no
/// 64-bit number.
pub fn login(auth: &AuthConfig, jwt_service: &JwtService, username: &str, password: &str) -> (res:
    Result<LoginResponse, AppError>)
    ensures
        res is Ok <== username@ == auth.admin_username@ && password@ == auth.admin_password@
            && lifetime_fits(jwt_service.access_seconds()) && lifetime_fits(
            jwt_service.refresh_seconds(),
        ),
        username@ == auth.admin_username@ && password@ == auth.admin_password@ ==> exists|
            access_iat: i64,
            access_jti: Seq<char>,
            refresh_iat: i64,
            refresh_jti: Seq<char>,
        |
            #[trigger] pair_outcome(
                res,
                username@,
                jwt_service.access_seconds(),
                jwt_service.refresh_seconds(),
                jwt_service.secret(),
                access_iat,
                access_jti,
                refresh_iat,
                refresh_jti,
            ),
        match res {
            Ok(reply) => {
                &&& username@ == auth.admin_username@ && password@ == auth.admin_password@
                &&& issued_to(
                    reply.access_token@,
                    username@,
                    "access"@,
                    jwt_service.access_seconds(),
                    jwt_service.secret(),
                )
                &&& issued_to(
                    reply.refresh_token@,
                    username@,
                    "refresh"@,
                    jwt_service.refresh_seconds(),
                    jwt_service.secret(),
                )
                &&& reply.token_type@ == "Bearer"@
                &&& reply.expires_in == jwt_service.access_seconds()
            },
            Err(e) => {
                &&& e is Unauthorized <==> !(username@ == auth.admin_username@ && password@
                    == auth.admin_password@)
                &&& e is Unauthorized || e is Internal
            },
        },
{
    let username_valid = secure_eq(auth.admin_username.as_str(), username);
    let password_valid = secure_eq(auth.admin_password.as_str(), password);
    if !username_valid || !password_valid {
        return Err(AppError::Unauthorized(owned("Invalid credentials")));
    }
    let first = jwt_service.create_access_token(username);
    let ghost (access_iat, access_jti): (i64, Seq<char>) = choose|iat: i64, jti: Seq<char>|
        #[trigger] issue_outcome(
            first,
            username@,
            "access"@,
            jwt_service.access_seconds(),
            jwt_service.secret(),
            iat,
            jti,
        );
    let access_token = match first {
        Ok(token) => token,
        Err(_) => {
            let res = Err(AppError::Internal(owned("Failed to create access token")));
            assert(pair_outcome(
                res,
                username@,
                jwt_service.access_seconds(),
                jwt_service.refresh_seconds(),
                jwt_service.secret(),
                access_iat,
                access_jti,
                0,
                Seq::empty(),
            ));
            return res;
        },
    };
    let second = jwt_service.create_refresh_token(username);
    let ghost (refresh_iat, refresh_jti): (i64, Seq<char>) = choose|iat: i64, jti: Seq<char>|
        #[trigger] issue_outcome(
            second,
            username@,
            "refresh"@,
            jwt_service.refresh_seconds(),
            jwt_service.secret(),
            iat,
            jti,
        );
    let refresh_token = match second {
        Ok(token) => token,
        Err(_) => {
            let res = Err(AppError::Internal(owned("Failed to create refresh token")));
            assert(pair_outcome(
                res,
                username@,
                jwt_service.access_seconds(),
                jwt_service.refresh_seconds(),
                jwt_service.secret(),
                access_iat,
                access_jti,
                refresh_iat,
                refresh_jti,
            ));
            return res;
        },
    };
    let res = Ok(
        LoginResponse {
            access_token,
            refresh_token,
            token_type: owned("Bearer"),
            expires_in: jwt_service.get_access_token_duration_seconds(),
        },
    );
    assert(pair_outcome(
        res,
        username@,
        jwt_service.access_seconds(),
        jwt_service.refresh_seconds(),
        jwt_service.secret(),
        access_iat,
        access_jti,
        refresh_iat,
        refresh_jti,
    ));
    res
}

/// The revocation set after a logout at the time `now` with the
/// `Authorization` header `header`: a bearer token that is accepted is
/// revoked, and nothing else changes.
pub open spec fn logout_effect(
    revoked: Set<Seq<char>>,
    secret: Seq<char>,
    header: Option<Seq<char>>,
    now: i64,
) -> Set<Seq<char>> {
    match bearer_token(header) {
        Some(token) => if accepted(revoked, token, secret, now) {
            revoke_effect(revoked, token, secret)
        } else {
            revoked
        },
        None => revoked,
    }
}

/// Logs out at the time `now`: a bearer token that is accepted is revoked.
/// The answer is the same whatever was presented.
pub fn logout_at(jwt_service: &mut JwtService, auth_header: Option<&str>, now: i64) -> (reply:
    LogoutResponse)
    ensures
        reply.message@ == "Logged out successfully"@,
        final(jwt_service).revoked() == logout_effect(
            old(jwt_service).revoked(),
            old(jwt_service).secret(),
            header_text(auth_header),
            now,
        ),
        final(jwt_service).secret() == old(jwt_service).secret(),
        final(jwt_service).access_seconds() == old(jwt_service).access_seconds(),
        final(jwt_service).refresh_seconds() == old(jwt_service).refresh_seconds(),
{
    if let Some(token) = bearer_of(auth_header) {
        if jwt_service.validate_token_at(token.as_str(), now).is_ok() {
            let _ = jwt_service.blacklist_token(token.as_str());
        }
    }
    LogoutResponse { message: owned("Logged out successfully") }
}

/// Logs out now: a bearer token that is accepted is revoked. The answer is
/// the same whatever was presented, and nothing is ever taken out of the
/// revocation set. The effect is that of [`logout_at`] at the time the
/// clock shows; a bearer token that is not revoked and cannot expire is
/// revoked whatever the clock shows.
pub fn logout(jwt_service: &mut JwtService, auth_header: Option<&str>) -> (reply: LogoutResponse)
    ensures
        reply.message@ == "Logged out successfully"@,
        exists|at: i64|
            final(jwt_service).revoked() == #[trigger] logout_effect(
                old(jwt_service).revoked(),
                old(jwt_service).secret(),
                header_text(auth_header),
                at,
            ),
        bearer_token(header_text(auth_header)) matches Some(token) ==> (claims_of(
            token,
            old(jwt_service).secret(),
        ) matches Some(c) ==> (!old(jwt_service).revoked().contains(c.jti) && cannot_expire(c.exp)
            ==> final(jwt_service).revoked() == revoke_effect(
            old(jwt_service).revoked(),
            token,
            old(jwt_service).secret(),
        ))),
        bearer_token(header_text(auth_header)) is None ==> final(jwt_service).revoked() == old(
            jwt_service,
        ).revoked(),
        old(jwt_service).revoked().subset_of(final(jwt_service).revoked()),
        final(jwt_service).secret() == old(jwt_service).secret(),
        final(jwt_service).access_seconds() == old(jwt_service).access_seconds(),
        final(jwt_service).refresh_seconds() == old(jwt_service).refresh_seconds(),
{
    let at = now();
    let reply = logout_at(jwt_service, auth_header, at.secs);
    assert(jwt_service.revoked() == logout_effect(
        old(jwt_service).revoked(),
        old(jwt_service).secret(),
        header_text(auth_header),
        at.secs,
    ));
    reply
}

/// What rotating `token` at the time `now` comes to, with the ids
/// `access_jti` and `refresh_jti` for the new tokens. A token that can be
/// rotated is revoked, and the result is what issuing the new pair for its
/// subject comes to. For any other token the result is `Unauthorized` and
/// the revocation set stays as it was.
pub open spec fn rotation_outcome(
    res: Result<LoginResponse, AppError>,
    before: Set<Seq<char>>,
    after: Set<Seq<char>>,
    token: Seq<char>,
    access_lifetime: i64,
    refresh_lifetime: i64,
    secret: Seq<char>,
    now: i64,
    access_jti: Seq<char>,
    refresh_jti: Seq<char>,
) -> bool {
    if rotates(before, token, secret, now) {
        &&& after == revoke_effect(before, token, secret)
        &&& pair_outcome(
            res,
            claims_of(token, secret)->Some_0.sub,
            access_lifetime,
            refresh_lifetime,
            secret,
            now,
            access_jti,
            now,
            refresh_jti,
        )
    } else {
        &&& after == before
        &&& match res {
            Ok(_) => false,
            Err(e) => e is Unauthorized,
        }
    }
}

/// A rotation that succeeds replaces the refresh token: the old token is
/// rejected at every time from then on, and the new access token and the
/// new refresh token are accepted for the old token's subject, at the time
/// of the rotation and at any time `later` up to their expiry times, as
/// long as their ids are not revoked. Tokens that expire before the epoch
/// are left out.
pub proof fn lemma_rotation_replaces(
    res: Result<LoginResponse, AppError>,
    before: Set<Seq<char>>,
    after: Set<Seq<char>>,
    token: Seq<char>,
    access_lifetime: i64,
    refresh_lifetime: i64,
    secret: Seq<char>,
    now: i64,
    access_jti: Seq<char>,
    refresh_jti: Seq<char>,
    later: i64,
    ever: i64,
)
    requires
        rotation_outcome(
            res,
            before,
            after,
            token,
            access_lifetime,
            refresh_lifetime,
            secret,
            now,
            access_jti,
            refresh_jti,
        ),
        res is Ok,
        !after.contains(access_jti),
        !after.contains(refresh_jti),
        0 <= now + access_lifetime,
        0 <= now + refresh_lifetime,
        later <= now + access_lifetime,
        later <= now + refresh_lifetime,
    ensures
        !accepted(after, token, secret, ever),
        accepted_as(after, res->Ok_0.access_token@, secret, later, "access"@),
        accepted_as(after, res->Ok_0.refresh_token@, secret, later, "refresh"@),
        claims_of(res->Ok_0.access_token@, secret)->Some_0.sub == claims_of(
            token,
            secret,
        )->Some_0.sub,
        claims_of(res->Ok_0.refresh_token@, secret)->Some_0.sub == claims_of(
            token,
            secret,
        )->Some_0.sub,
{
    lemma_revoked_is_rejected(before, after, token, secret, ever);
}

/// Rotates the refresh token `refresh_token` at the time `now`: it must be
/// an accepted token of type `refresh`; it is revoked, and a new access
/// token and a new refresh token are issued for its subject with the ids
/// `access_jti` and `refresh_jti`.
///
/// Fails with `Unauthorized`, changing nothing, exactly if the token is not
/// accepted or is not a refresh token. Fails with `Internal` exactly if the
/// token can be rotated and the expiry time of a new token is no 64-bit
/// number; the old token is revoked by then.
pub fn refresh_token_at(
    jwt_service: &mut JwtService,
    refresh_token: &str,
    now: i64,
    access_jti: String,
    refresh_jti: String,
) -> (res: Result<LoginResponse, AppError>)
    ensures
        rotation_outcome(
            res,
            old(jwt_service).revoked(),
            final(jwt_service).revoked(),
            refresh_token@,
            old(jwt_service).access_seconds(),
            old(jwt_service).refresh_seconds(),
            old(jwt_service).secret(),
            now,
            access_jti@,
            refresh_jti@,
        ),
        res is Ok <==> rotates(
            old(jwt_service).revoked(),
            refresh_token@,
            old(jwt_service).secret(),
            now,
        ) && expiry_fits(now, old(jwt_service).access_seconds()) && expiry_fits(
            now,
            old(jwt_service).refresh_seconds(),
        ),
        final(jwt_service).secret() == old(jwt_service).secret(),
        final(jwt_service).access_seconds() == old(jwt_service).access_seconds(),
        final(jwt_service).refresh_seconds() == old(jwt_service).refresh_seconds(),
        rotates(old(jwt_service).revoked(), refresh_token@, old(jwt_service).secret(), now) <==> (
        match res {
            Ok(_) => true,
            Err(e) => !(e is Unauthorized),
        }),
        match res {
            Ok(reply) => {
                &&& final(jwt_service).revoked() == revoke_effect(
                    old(jwt_service).revoked(),
                    refresh_token@,
                    old(jwt_service).secret(),
                )
                &&& forall|later: i64|
                    !accepted(
                        final(jwt_service).revoked(),
                        refresh_token@,
                        old(jwt_service).secret(),
                        later,
                    )
                &&& claims_of(refresh_token@, old(jwt_service).secret()) matches Some(claims)
                &&& issued_to(
                    reply.access_token@,
                    claims.sub,
                    "access"@,
                    old(jwt_service).access_seconds(),
                    old(jwt_service).secret(),
                ) && issued_to(
                    reply.refresh_token@,
                    claims.sub,
                    "refresh"@,
                    old(jwt_service).refresh_seconds(),
                    old(jwt_service).secret(),
                )
                &&& reply.token_type@ == "Bearer"@
                &&& reply.expires_in == old(jwt_service).access_seconds()
            },
            Err(e) => {
                &&& e is Unauthorized ==> final(jwt_service).revoked() == old(
                    jwt_service,
                ).revoked()
                &&& !(e is Unauthorized) ==> e is Internal && final(jwt_service).revoked()
                    == revoke_effect(
                    old(jwt_service).revoked(),
                    refresh_token@,
                    old(jwt_service).secret(),
                )
            },
        },
{
    let claims = match jwt_service.validate_token_at(refresh_token, now) {
        Ok(claims) => claims,
        Err(e) => {
            return Err(e);
        },
    };
    if !str_eq(claims.token_type.as_str(), "refresh") {
        return Err(AppError::Unauthorized(owned("Invalid token type")));
    }
    let _ = jwt_service.blacklist_token(refresh_token);
    proof {
        assert forall|later: i64|
            !accepted(jwt_service.revoked(), refresh_token@, jwt_service.secret(), later) by {
            lemma_revoked_is_rejected(
                old(jwt_service).revoked(),
                jwt_service.revoked(),
                refresh_token@,
                jwt_service.secret(),
                later,
            );
        }
    }
    let access_token = match jwt_service.create_access_token_at(
        claims.sub.as_str(),
        now,
        access_jti,
    ) {
        Ok(token) => token,
        Err(_) => {
            return Err(AppError::Internal(owned("Failed to create access token")));
        },
    };
    let refresh_token = match jwt_service.create_refresh_token_at(
        claims.sub.as_str(),
        now,
        refresh_jti,
    ) {
        Ok(token) => token,
        Err(_) => {
            return Err(AppError::Internal(owned("Failed to create refresh token")));
        },
    };
    Ok(
        LoginResponse {
            access_token,
            refresh_token,
            token_type: owned("Bearer"),
            expires_in: jwt_service.get_access_token_duration_seconds(),
        },
    )
}

/// The token `token` can be rotated at the time `now`: it is accepted and
/// is a refresh token.
pub open spec fn rotates(
    revoked: Set<Seq<char>>,
    token: Seq<char>,
    secret: Seq<char>,
    now: i64,
) -> bool {
    accepted_as(revoked, token, secret, now, "refresh"@)
}

/// The token `token` is accepted at the time `now` and is of the type
/// `kind`.
pub open spec fn accepted_as(
    revoked: Set<Seq<char>>,
    token: Seq<char>,
    secret: Seq<char>,
    now: i64,
    kind: Seq<char>,
) -> bool {
    accepted(revoked, token, secret, now) && match claims_of(token, secret) {
        Some(c) => c.token_type == kind,
        None => false,
    }
}

/// The header of a request, as text.
pub open spec fn header_text(header: Option<&str>) -> Option<Seq<char>> {
    match header {
        Some(h) => Some(h@),
        None => None,
    }
}

/// Rotates the refresh token `token` now, with fresh random ids for
/// the new tokens. Once this has succeeded, the old refresh token is never
/// accepted again.
///
/// Fails with `Unauthorized`, changing nothing, if the token is not
/// accepted or is not a refresh token. The result is that of
/// [`refresh_token_at`] at the time the clock shows and with the ids that
/// were drawn; a refresh token that is not revoked and cannot expire is
/// rotated whatever the clock shows.
pub fn refresh_token(jwt_service: &mut JwtService, token: &str) -> (res: Result<
    LoginResponse,
    AppError,
>)
    ensures
        exists|at: i64, access_jti: Seq<char>, refresh_jti: Seq<char>|
            #[trigger] rotation_outcome(
                res,
                old(jwt_service).revoked(),
                final(jwt_service).revoked(),
                token@,
                old(jwt_service).access_seconds(),
                old(jwt_service).refresh_seconds(),
                old(jwt_service).secret(),
                at,
                access_jti,
                refresh_jti,
            ),
        claims_of(token@, old(jwt_service).secret()) matches Some(c) ==> (c.token_type
            == "refresh"@ && !old(jwt_service).revoked().contains(c.jti) && cannot_expire(c.exp)
            ==> final(jwt_service).revoked() == revoke_effect(
            old(jwt_service).revoked(),
            token@,
            old(jwt_service).secret(),
        ) && (match res {
            Ok(_) => true,
            Err(e) => e is Internal && !(lifetime_fits(old(jwt_service).access_seconds())
                && lifetime_fits(old(jwt_service).refresh_seconds())),
        })),
        final(jwt_service).secret() == old(jwt_service).secret(),
        final(jwt_service).access_seconds() == old(jwt_service).access_seconds(),
        final(jwt_service).refresh_seconds() == old(jwt_service).refresh_seconds(),
        old(jwt_service).revoked().subset_of(final(jwt_service).revoked()),
        match res {
            Ok(reply) => {
                &&& final(jwt_service).revoked() == revoke_effect(
                    old(jwt_service).revoked(),
                    token@,
                    old(jwt_service).secret(),
                )
                &&& forall|later: i64|
                    !accepted(
                        final(jwt_service).revoked(),
                        token@,
                        old(jwt_service).secret(),
                        later,
                    )
                &&& claims_of(token@, old(jwt_service).secret()) matches Some(claims)
                &&& claims.token_type == "refresh"@
                &&& issued_to(
                    reply.access_token@,
                    claims.sub,
                    "access"@,
                    old(jwt_service).access_seconds(),
                    old(jwt_service).secret(),
                ) && issued_to(
                    reply.refresh_token@,
                    claims.sub,
                    "refresh"@,
                    old(jwt_service).refresh_seconds(),
                    old(jwt_service).secret(),
                )
                &&& reply.token_type@ == "Bearer"@
            },
            Err(e) => {
                &&& e is Unauthorized || e is Internal
                &&& e is Unauthorized ==> final(jwt_service).revoked() == old(
                    jwt_service,
                ).revoked()
            },
        },
        !(match claims_of(token@, old(jwt_service).secret()) {
            Some(c) => c.token_type == "refresh"@ && !old(jwt_service).revoked().contains(c.jti),
            None => false,
        }) ==> (match res {
            Ok(_) => false,
            Err(e) => e is Unauthorized,
        }),
{
    let at = now();
    let access_jti = random_id();
    let refresh_jti = random_id();
    let ghost first = access_jti@;
    let ghost second = refresh_jti@;
    let res = refresh_token_at(jwt_service, token, at.secs, access_jti, refresh_jti);
    assert(rotation_outcome(
        res,
        old(jwt_service).revoked(),
        jwt_service.revoked(),
        token@,
        old(jwt_service).access_seconds(),
        old(jwt_service).refresh_seconds(),
        old(jwt_service).secret(),
        at.secs,
        first,
        second,
    ));
    res
}

/// What a verification answers at the time `now` to the `Authorization`
/// header `header`: whether it carries a bearer token that is accepted as
/// an access token, and if so the token's subject and expiry time; for
/// anything else `false` and nothing more.
pub open spec fn verification_at(
    revoked: Set<Seq<char>>,
    secret: Seq<char>,
    header: Option<Seq<char>>,
    now: i64,
) -> (bool, Option<Seq<char>>, Option<i64>) {
    match bearer_token(header) {
        Some(token) => match claims_of(token, secret) {
            Some(c) => if accepted_as(revoked, token, secret, now, "access"@) {
                (true, Some(c.sub), Some(c.exp))
            } else {
                (false, None, None)
            },
            None => (false, None, None),
        },
        None => (false, None, None),
    }
}

/// What the reply `reply` says, as plain values.
pub open spec fn verification_of(reply: TokenVerifyResponse) -> (
    bool,
    Option<Seq<char>>,
    Option<i64>,
) {
    (reply.valid, opt_view(reply.username), reply.expires_at)
}

/// Whether the presented bearer token is an accepted access token at the
/// time `now`, and if so for whom and until when. No detail is given of
/// why a token is not valid.
pub fn verify_token_at(jwt_service: &JwtService, auth_header: Option<&str>, now: i64) -> (reply:
    TokenVerifyResponse)
    ensures
        verification_of(reply) == verification_at(
            jwt_service.revoked(),
            jwt_service.secret(),
            header_text(auth_header),
            now,
        ),
        reply.valid <==> match bearer_token(header_text(auth_header)) {
            Some(token) => accepted_as(
                jwt_service.revoked(),
                token,
                jwt_service.secret(),
                now,
                "access"@,
            ),
            None => false,
        },
        reply.valid ==> match bearer_token(header_text(auth_header)) {
            Some(token) => match claims_of(token, jwt_service.secret()) {
                Some(c) => opt_view(reply.username) == Some(c.sub) && reply.expires_at == Some(
                    c.exp,
                ),
                None => false,
            },
            None => false,
        },
        !reply.valid ==> reply.username is None && reply.expires_at is None,
{
    if let Some(token) = bearer_of(auth_header) {
        if let Ok(claims) = jwt_service.validate_token_at(token.as_str(), now) {
            if str_eq(claims.token_type.as_str(), "access") {
                return TokenVerifyResponse {
                    valid: true,
                    username: Some(claims.sub),
                    expires_at: Some(claims.exp),
                };
            }
        }
    }
    TokenVerifyResponse { valid: false, username: None, expires_at: None }
}

/// Whether the presented bearer token is an accepted access token now, and
/// if so for whom and until when.
///
/// The reply is the one that `verify_token_at` gives at the time that the
/// clock shows. So the token is reported valid only if its signature is
/// good, it is an access token and it is not revoked, and then with its
/// own subject and expiry time; and such a token is reported valid
/// whatever the clock shows if it cannot expire.
pub fn verify_token(jwt_service: &JwtService, auth_header: Option<&str>) -> (reply:
    TokenVerifyResponse)
    ensures
        exists|at: i64|
            verification_of(reply) == #[trigger] verification_at(
                jwt_service.revoked(),
                jwt_service.secret(),
                header_text(auth_header),
                at,
            ),
        reply.valid ==> match bearer_token(header_text(auth_header)) {
            Some(token) => match claims_of(token, jwt_service.secret()) {
                Some(c) => c.token_type == "access"@ && !jwt_service.revoked().contains(c.jti)
                    && opt_view(reply.username) == Some(c.sub) && reply.expires_at == Some(c.exp),
                None => false,
            },
            None => false,
        },
        !reply.valid ==> reply.username is None && reply.expires_at is None,
        match bearer_token(header_text(auth_header)) {
            Some(token) => match claims_of(token, jwt_service.secret()) {
                Some(c) => c.token_type == "access"@ && !jwt_service.revoked().contains(c.jti)
                    && cannot_expire(c.exp) ==> reply.valid,
                None => !reply.valid,
            },
            None => !reply.valid,
        },
{
    let at = now();
    let reply = verify_token_at(jwt_service, auth_header, at.secs);
    assert(verification_of(reply) == verification_at(
        jwt_service.revoked(),
        jwt_service.secret(),
        header_text(auth_header),
        at.secs,
    ));
    reply
}

} // verus!
