use crate::error::AppError;
use crate::text::{has_prefix, strip_prefix, text_eq};
use crate::token::{jwt_claims_of, unix_now, AuthService, Claims};
use vstd::prelude::*;

verus! {

/// The path of the health check.
pub const HEALTH_PATH: &'static str = "/health";

/// The prefix of the authentication flows.
pub const AUTH_PREFIX: &'static str = "/api/auth/";

/// The scheme that must open an `Authorization` header.
pub const BEARER_PREFIX: &'static str = "Bearer ";

/// Requests to this path need no token.
pub open spec fn is_public_path(path: Seq<char>) -> bool {
    path == HEALTH_PATH@ || has_prefix(path, AUTH_PREFIX@)
}

/// The token carried by a header of the form `Bearer <token>`.
pub open spec fn bearer_token(header: Seq<char>) -> Seq<char> {
    header.subrange(BEARER_PREFIX@.len() as int, header.len() as int)
}

/// The access check in front of every route, at Unix time `now`. A public path
/// is let through with `Ok(None)`. Any other needs an `Authorization` header `Bearer <token>`
/// whose token verifies; its claims come back for the request context. Every
/// failure is `Unauthorized`, and none of them reaches the user table.
pub fn auth_middleware_at(
    auth: &AuthService,
    path: &str,
    authorization: Option<&str>,
    now: i64,
) -> (r: Result<Option<Claims>, AppError>)
    ensures
        is_public_path(path@) ==> r matches Ok(None),
        !is_public_path(path@) ==> match authorization {
            None => r matches Err(AppError::Unauthorized),
            Some(h) => if !has_prefix(h@, BEARER_PREFIX@) {
                r matches Err(AppError::Unauthorized)
            } else {
                &&& r is Ok <==> (jwt_claims_of(bearer_token(h@), auth.secret()) matches Some(c)
                    && now <= c.2)
                &&& r matches Ok(Some(c)) ==> jwt_claims_of(bearer_token(h@), auth.secret())
                    == Some((c.sub@, c.iat as int, c.exp as int))
                &&& r matches Err(e) ==> e == AppError::Unauthorized
                &&& !(r matches Ok(None))
            },
        },
{
    if text_eq(path, HEALTH_PATH) || starts_with_auth(path) {
        return Ok(None);
    }
    let header = match authorization {
        Some(h) => h,
        None => return Err(AppError::Unauthorized),
    };
    let token = match strip_prefix(header, BEARER_PREFIX) {
        Some(t) => t,
        None => return Err(AppError::Unauthorized),
    };
    match auth.verify_token_at(token, now) {
        Ok(c) => Ok(Some(c)),
        Err(_) => Err(AppError::Unauthorized),
    }
}

fn starts_with_auth(path: &str) -> (r: bool)
    ensures
        r == has_prefix(path@, AUTH_PREFIX@),
{
    crate::text::starts_with(path, AUTH_PREFIX)
}

/// [`auth_middleware_at`] at the current time.
pub fn auth_middleware(
    auth: &AuthService,
    path: &str,
    authorization: Option<&str>,
) -> (r: Result<Option<Claims>, AppError>)
    ensures
        is_public_path(path@) ==> r matches Ok(None),
        !is_public_path(path@) ==> match authorization {
            None => r matches Err(AppError::Unauthorized),
            Some(h) => if !has_prefix(h@, BEARER_PREFIX@) {
                r matches Err(AppError::Unauthorized)
            } else {
                &&& r matches Ok(Some(c)) ==> jwt_claims_of(bearer_token(h@), auth.secret())
                    == Some((c.sub@, c.iat as int, c.exp as int))
                &&& r matches Err(e) ==> e == AppError::Unauthorized
                &&& !(r matches Ok(None))
            },
        },
{
    let now = unix_now();
    auth_middleware_at(auth, path, authorization, now)
}

} // verus!
