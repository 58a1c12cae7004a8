use crate::error::AppError;
use crate::model::{shows, AuthResponse, User, UserResponse};
use vstd::prelude::*;

verus! {

/// How long a token stays valid: 24 hours, in seconds.
pub const TOKEN_LIFETIME_SECS: u64 = 86400;

/// The decoded payload of a token: subject, issued-at and expiry, in Unix seconds.
#[derive(Debug, Clone)]
pub struct Claims {
    pub sub: String,
    pub exp: u64,
    pub iat: u64,
}

/// The lower-case hexadecimal digit of `d`, for `0 <= d < 16`.
pub open spec fn hex_digit(d: int) -> char {
    seq!['0', '1', '2', '3', '4', '5', '6', '7', '8', '9', 'a', 'b', 'c', 'd', 'e', 'f'][d]
}

/// The last `n` hexadecimal digits of `v`, most significant first.
pub open spec fn hex_digits(v: nat, n: nat) -> Seq<char>
    decreases n,
{
    if n == 0 {
        Seq::empty()
    } else {
        hex_digits(v / 16, (n - 1) as nat).push(hex_digit((v % 16) as int))
    }
}

/// The canonical text of a user identifier: its 32 hexadecimal digits in lower
/// case, in groups of 8, 4, 4, 4 and 12 joined by hyphens.
pub open spec fn uuid_text(id: u128) -> Seq<char> {
    let h = hex_digits(id as nat, 32);
    h.subrange(0, 8) + seq!['-'] + h.subrange(8, 12) + seq!['-'] + h.subrange(12, 16) + seq!['-']
        + h.subrange(16, 20) + seq!['-'] + h.subrange(20, 32)
}

/// The token that `jsonwebtoken::encode` makes, with the default HS256 header, of
/// the claims `{sub, iat, exp}` under the secret.
pub uninterp spec fn jwt_token_of(sub: Seq<char>, iat: int, exp: int, secret: Seq<char>) -> Seq<char>;

/// The claims that `jsonwebtoken::decode` recovers from a token under the secret,
/// checking the signature and not the expiry; `None` where it rejects the token.
pub uninterp spec fn jwt_claims_of(token: Seq<char>, secret: Seq<char>) -> Option<(Seq<char>, int, int)>;

/// Relies on `uuid::Uuid::from_u128` and its `Display`: the hyphenated lower-case text.
#[verifier::external_body]
fn uuid_string(id: u128) -> (r: String)
    ensures
        r@ == uuid_text(id),
{
    uuid::Uuid::from_u128(id).to_string()
}

/// Relies on `chrono::Utc::now`: the current Unix time in seconds, never before
/// 1970 (`Utc::now` stops rather than return an earlier time).
#[verifier::external_body]
pub(crate) fn unix_now() -> (r: i64)
    ensures
        r >= 0,
{
    chrono::Utc::now().timestamp()
}

/// Relies on `jsonwebtoken::encode` with `Header::default()` (HS256) and
/// `EncodingKey::from_secret`, over a JSON object of the three claims. It cannot
/// fail here: an HMAC key suits HS256, a string-keyed map always serialises, and
/// HMAC signing has no error.
#[verifier::external_body]
fn jwt_encode(sub: &str, iat: u64, exp: u64, secret: &str) -> (r: Option<String>)
    ensures
        r is Some,
        r matches Some(t) ==> t@ == jwt_token_of(sub@, iat as int, exp as int, secret@),
{
    let mut claims = std::collections::BTreeMap::new();
    claims.insert("sub", serde_json::Value::from(sub));
    claims.insert("iat", serde_json::Value::from(iat));
    claims.insert("exp", serde_json::Value::from(exp));
    let key = jsonwebtoken::EncodingKey::from_secret(secret.as_bytes());
    jsonwebtoken::encode(&jsonwebtoken::Header::default(), &claims, &key).ok()
}

/// Relies on `jsonwebtoken::decode` with `DecodingKey::from_secret` and the default
/// validation less its expiry check: the signature is checked, and a token that
/// `jsonwebtoken::encode` made under the same secret decodes to its claims.
#[verifier::external_body]
fn jwt_decode(token: &str, secret: &str) -> (r: Option<(String, u64, u64)>)
    ensures
        r matches Some(c) ==> jwt_claims_of(token@, secret@) == Some((c.0@, c.1 as int, c.2 as int)),
        r is None ==> jwt_claims_of(token@, secret@) is None,
        r is None ==> forall|s: Seq<char>, i: int, e: int|
            0 <= i <= u64::MAX && 0 <= e <= u64::MAX ==> #[trigger] jwt_token_of(s, i, e, secret@) != token@,
        r matches Some(c) ==> forall|s: Seq<char>, i: int, e: int|
            0 <= i <= u64::MAX && 0 <= e <= u64::MAX && #[trigger] jwt_token_of(s, i, e, secret@) == token@
                ==> c.0@ == s && c.1 == i && c.2 == e,
{
    let mut validation = jsonwebtoken::Validation::default();
    validation.validate_exp = false;
    let key = jsonwebtoken::DecodingKey::from_secret(secret.as_bytes());
    let data = jsonwebtoken::decode::<std::collections::BTreeMap<String, serde_json::Value>>(
        token,
        &key,
        &validation,
    ).ok()?;
    let sub = data.claims.get("sub")?.as_str()?.to_string();
    let iat = data.claims.get("iat")?.as_u64()?;
    let exp = data.claims.get("exp")?.as_u64()?;
    Some((sub, iat, exp))
}

/// `token` is a token that this secret signed for user `id`, expiring exactly
/// [`TOKEN_LIFETIME_SECS`] after it was issued.
pub open spec fn issued_for(token: Seq<char>, id: u128, secret: Seq<char>) -> bool {
    exists|iat: int|
        0 <= iat <= u64::MAX - TOKEN_LIFETIME_SECS && token == #[trigger] jwt_token_of(
            uuid_text(id),
            iat,
            iat + TOKEN_LIFETIME_SECS,
            secret,
        )
}

/// Issues and verifies session tokens under one signing secret.
pub struct AuthService {
    jwt_secret: String,
}

impl AuthService {
    /// The signing secret.
    pub closed spec fn secret(&self) -> Seq<char> {
        self.jwt_secret@
    }

    pub fn new(jwt_secret: String) -> (r: AuthService)
        ensures
            r.secret() == jwt_secret@,
    {
        AuthService { jwt_secret }
    }

    /// The token for `user_id` issued at Unix time `now`: subject the identifier's
    /// text, expiry `now` plus 24 hours. `Internal` where the times do not fit the
    /// claims.
    pub fn issue_token_at(&self, user_id: u128, now: i64) -> (r: Result<String, AppError>)
        ensures
            r is Ok <==> 0 <= now <= u64::MAX - TOKEN_LIFETIME_SECS,
            r matches Ok(t) ==> t@ == jwt_token_of(
                uuid_text(user_id),
                now as int,
                now + TOKEN_LIFETIME_SECS,
                self.secret(),
            ),
            r matches Err(e) ==> e == AppError::Internal,
    {
        if now < 0 || now as u64 > u64::MAX - TOKEN_LIFETIME_SECS {
            return Err(AppError::Internal);
        }
        let iat = now as u64;
        let sub = uuid_string(user_id);
        match jwt_encode(sub.as_str(), iat, iat + TOKEN_LIFETIME_SECS, self.jwt_secret.as_str()) {
            Some(t) => Ok(t),
            None => Err(AppError::Internal),
        }
    }

    /// The token for `user_id`, issued now.
    pub fn generate_token(&self, user_id: u128) -> (r: Result<String, AppError>)
        ensures
            r matches Ok(t) && issued_for(t@, user_id, self.secret()),
    {
        let now = unix_now();
        let r = self.issue_token_at(user_id, now);
        assert(r->Ok_0@ == jwt_token_of(uuid_text(user_id), now as int, now + TOKEN_LIFETIME_SECS, self.secret()));
        r
    }

    /// Checks `token` at Unix time `now`: the signature must verify under the
    /// secret and `now` must not be past the expiry. Every failure is `Unauthorized`.
    pub fn verify_token_at(&self, token: &str, now: i64) -> (r: Result<Claims, AppError>)
        ensures
            r is Ok <==> (jwt_claims_of(token@, self.secret()) matches Some(c) && now <= c.2),
            r matches Ok(c) ==> jwt_claims_of(token@, self.secret()) == Some(
                (c.sub@, c.iat as int, c.exp as int),
            ),
            r matches Err(e) ==> e == AppError::Unauthorized,
            forall|s: Seq<char>, i: int, e: int|
                0 <= i <= u64::MAX && 0 <= e <= u64::MAX && token@ == #[trigger] jwt_token_of(
                    s,
                    i,
                    e,
                    self.secret(),
                ) ==> (r is Ok <==> now <= e) && (r matches Ok(c) ==> c.sub@ == s && c.iat == i
                    && c.exp == e),
    {
        match jwt_decode(token, self.jwt_secret.as_str()) {
            Some((sub, iat, exp)) => {
                if now < 0 || (now as u64) <= exp {
                    Ok(Claims { sub, exp, iat })
                } else {
                    Err(AppError::Unauthorized)
                }
            },
            None => Err(AppError::Unauthorized),
        }
    }

    /// Checks `token` now.
    pub fn verify_token(&self, token: &str) -> (r: Result<Claims, AppError>)
        ensures
            r matches Ok(c) ==> jwt_claims_of(token@, self.secret()) == Some(
                (c.sub@, c.iat as int, c.exp as int),
            ),
            r matches Err(e) ==> e == AppError::Unauthorized,
    {
        let now = unix_now();
        self.verify_token_at(token, now)
    }

    /// Pairs the public view of `user` with a token issued for it at `now`.
    pub fn create_auth_response_at(&self, user: User, now: i64) -> (r: Result<AuthResponse, AppError>)
        ensures
            r is Ok <==> 0 <= now <= u64::MAX - TOKEN_LIFETIME_SECS,
            r matches Ok(a) ==> shows(a.user, user@) && a.token@ == jwt_token_of(
                uuid_text(user.id),
                now as int,
                now + TOKEN_LIFETIME_SECS,
                self.secret(),
            ),
            r matches Err(e) ==> e == AppError::Internal,
    {
        let token = self.issue_token_at(user.id, now)?;
        Ok(AuthResponse { token, user: UserResponse::from_user(user) })
    }

    /// Pairs the public view of `user` with a token issued for it now.
    pub fn create_auth_response(&self, user: User) -> (r: Result<AuthResponse, AppError>)
        ensures
            r matches Ok(a) && shows(a.user, user@) && issued_for(a.token@, user.id, self.secret()),
    {
        let now = unix_now();
        let ghost id = user.id;
        let r = self.create_auth_response_at(user, now);
        assert(r->Ok_0.token@ == jwt_token_of(uuid_text(id), now as int, now + TOKEN_LIFETIME_SECS, self.secret()));
        r
    }
}

} // verus!
