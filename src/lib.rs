//! Identity and access core: credential hashing, signed session tokens, the
//! request gate, and the user table with its registration, login and profile flows.

pub mod config;
pub mod error;
pub mod model;
pub mod text;
pub mod credential;
pub mod token;
pub mod store;
pub mod policy;
pub mod handlers;

pub use config::{parse_port, Config};
pub use error::AppError;
pub use credential::{hash_password, verify_password_hash};
pub use handlers::{
    create_user, delete_user, get_user, list_users, login, register, update_user, validate_create,
    validate_update, MIN_PASSWORD_LEN,
};
pub use policy::{auth_middleware, auth_middleware_at};
pub use store::UserService;
pub use token::{AuthService, Claims, TOKEN_LIFETIME_SECS};
pub use model::{
    default_limit, AuthResponse, CreateUserRequest, ListUsersQuery, LoginRequest,
    UpdateUserRequest, User, UserResponse, DEFAULT_LIMIT,
};
