use vstd::prelude::*;

verus! {

/// A stored user record. `id` is the 128-bit identifier; timestamps are Unix seconds.
#[derive(Debug, Clone)]
pub struct User {
    pub id: u128,
    pub email: String,
    pub username: String,
    pub password_hash: String,
    pub created_at: i64,
    pub updated_at: i64,
}

/// The mathematical value of a [`User`].
pub struct UserView {
    pub id: u128,
    pub email: Seq<char>,
    pub username: Seq<char>,
    pub password_hash: Seq<char>,
    pub created_at: i64,
    pub updated_at: i64,
}

impl View for User {
    type V = UserView;

    open spec fn view(&self) -> UserView {
        UserView {
            id: self.id,
            email: self.email@,
            username: self.username@,
            password_hash: self.password_hash@,
            created_at: self.created_at,
            updated_at: self.updated_at,
        }
    }
}

impl User {
    /// A field-by-field copy.
    pub fn duplicate(&self) -> (r: User)
        ensures
            r@ == self@,
    {
        User {
            id: self.id,
            email: self.email.clone(),
            username: self.username.clone(),
            password_hash: self.password_hash.clone(),
            created_at: self.created_at,
            updated_at: self.updated_at,
        }
    }
}

/// The public view of a user: everything but the credential hash.
#[derive(Debug, Clone)]
pub struct UserResponse {
    pub id: u128,
    pub email: String,
    pub username: String,
    pub created_at: i64,
    pub updated_at: i64,
}

/// `r` shows exactly the public fields of `u`.
pub open spec fn shows(r: UserResponse, u: UserView) -> bool {
    &&& r.id == u.id
    &&& r.email@ == u.email
    &&& r.username@ == u.username
    &&& r.created_at == u.created_at
    &&& r.updated_at == u.updated_at
}

impl UserResponse {
    /// Drops the credential hash.
    pub fn from_user(u: User) -> (r: UserResponse)
        ensures
            shows(r, u@),
    {
        UserResponse {
            id: u.id,
            email: u.email,
            username: u.username,
            created_at: u.created_at,
            updated_at: u.updated_at,
        }
    }
}

/// A token paired with the user it was issued for.
#[derive(Debug, Clone)]
pub struct AuthResponse {
    pub token: String,
    pub user: UserResponse,
}

/// Fields of a registration or an administrative create.
#[derive(Debug, Clone)]
pub struct CreateUserRequest {
    pub email: String,
    pub username: String,
    pub password: String,
}

/// Fields of a login.
#[derive(Debug, Clone)]
pub struct LoginRequest {
    pub email: String,
    pub password: String,
}

/// A partial update: an absent field keeps its stored value.
#[derive(Debug, Clone)]
pub struct UpdateUserRequest {
    pub email: Option<String>,
    pub username: Option<String>,
}

/// The page size used when a listing names none.
pub const DEFAULT_LIMIT: i64 = 10;

pub fn default_limit() -> (r: i64)
    ensures
        r == DEFAULT_LIMIT,
{
    DEFAULT_LIMIT
}

/// Paging of a user listing.
#[derive(Debug, Clone, Copy, PartialEq, Eq, Structural)]
pub struct ListUsersQuery {
    pub limit: i64,
    pub offset: i64,
}

impl ListUsersQuery {
    /// Fills in the defaults: a limit of [`DEFAULT_LIMIT`] and an offset of 0.
    pub fn new(limit: Option<i64>, offset: Option<i64>) -> (r: ListUsersQuery)
        ensures
            r.limit == match limit {
                Some(l) => l,
                None => DEFAULT_LIMIT,
            },
            r.offset == match offset {
                Some(o) => o,
                None => 0,
            },
    {
        let limit = match limit {
            Some(l) => l,
            None => default_limit(),
        };
        let offset = match offset {
            Some(o) => o,
            None => 0,
        };
        ListUsersQuery { limit, offset }
    }
}

} // verus!
