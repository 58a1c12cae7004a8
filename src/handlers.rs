use crate::credential::bcrypt_verdict;
use crate::error::AppError;
use crate::model::{
    shows, AuthResponse, CreateUserRequest, ListUsersQuery, LoginRequest, UpdateUserRequest,
    UserResponse, UserView,
};
use crate::store::{
    coalesced, first_with_email, has_email, has_id, newest_first_page, opt_view, placed, views,
    UserService,
};
use crate::token::{issued_for, AuthService};
use vstd::prelude::*;

verus! {

/// The fewest characters a password may have.
pub const MIN_PASSWORD_LEN: usize = 6;

/// Whether `validator` accepts the text as an email address.
pub uninterp spec fn email_accepted(s: Seq<char>) -> bool;

/// Relies on `validator::ValidateEmail::validate_email` for `&str`: the
/// answer depends on the text alone.
#[verifier::external_body]
fn email_format_ok(s: &str) -> (r: bool)
    ensures
        r == email_accepted(s@),
{
    validator::ValidateEmail::validate_email(&s)
}

/// A create or register request is well formed.
pub open spec fn create_request_valid(req: CreateUserRequest) -> bool {
    &&& email_accepted(req.email@)
    &&& req.username@.len() > 0
    &&& req.password@.len() >= MIN_PASSWORD_LEN
}

/// Each field that an update supplies is well formed.
pub open spec fn update_request_valid(req: UpdateUserRequest) -> bool {
    &&& (req.email matches Some(e) ==> email_accepted(e@))
    &&& (req.username matches Some(n) ==> n@.len() > 0)
}

/// Checks the shape of a create or register request.
pub fn validate_create(req: &CreateUserRequest) -> (r: bool)
    ensures
        r == create_request_valid(*req),
{
    email_format_ok(req.email.as_str()) && !req.username.as_str().is_empty()
        && req.password.as_str().unicode_len() >= MIN_PASSWORD_LEN
}

/// Checks the shape of the fields an update supplies.
pub fn validate_update(req: &UpdateUserRequest) -> (r: bool)
    ensures
        r == update_request_valid(*req),
{
    let email_ok = match &req.email {
        Some(e) => email_format_ok(e.as_str()),
        None => true,
    };
    let username_ok = match &req.username {
        Some(n) => !n.as_str().is_empty(),
        None => true,
    };
    email_ok && username_ok
}

/// `after` is `before` with one new row `u` made from `req`.
pub open spec fn registered(
    before: Seq<UserView>,
    after: Seq<UserView>,
    req: CreateUserRequest,
    u: UserView,
) -> bool {
    &&& exists|p: int| placed(before, after, p, u)
    &&& u.email == req.email@
    &&& u.username == req.username@
    &&& u.created_at == u.updated_at
    &&& bcrypt_verdict(req.password@, u.password_hash) == Some(true)
}

/// Once a registration has stored a row for its email, that email is taken, so
/// registering it again ends in `Conflict` (see the contract of [`register`]).
pub proof fn lemma_registered_email_is_taken(
    before: Seq<UserView>,
    after: Seq<UserView>,
    req: CreateUserRequest,
    u: UserView,
)
    requires
        registered(before, after, req, u),
    ensures
        has_email(after, req.email@),
{
    let p = choose|p: int| placed(before, after, p, u);
    assert(after[p] == u);
}

/// A registration takes only its own email: every other email that was free
/// stays free, so registrations with distinct emails never conflict.
pub proof fn lemma_registration_keeps_other_emails_free(
    before: Seq<UserView>,
    after: Seq<UserView>,
    req: CreateUserRequest,
    u: UserView,
    other: Seq<char>,
)
    requires
        registered(before, after, req, u),
        !has_email(before, other),
        other != req.email@,
    ensures
        !has_email(after, other),
{
    let p = choose|p: int| placed(before, after, p, u);
    assert forall|i: int| 0 <= i < after.len() implies #[trigger] after[i].email != other by {
        if i < p {
            assert(after[i] == before[i]);
        } else if i > p {
            assert(after[i] == before[i - 1]);
        }
    }
}

/// Creation shared by [`register`] and [`create_user`]: shape, then email
/// uniqueness, then the new row.
fn create_checked(users: &mut UserService, payload: CreateUserRequest) -> (r: Result<
    crate::model::User,
    AppError,
>)
    requires
        old(users).wf(),
    ensures
        final(users).wf(),
        !create_request_valid(payload) ==> r matches Err(AppError::Validation),
        create_request_valid(payload) && has_email(old(users).table(), payload.email@) ==> r matches Err(
            AppError::Conflict,
        ),
        create_request_valid(payload) && !has_email(old(users).table(), payload.email@) ==> (r matches Err(
            e,
        ) ==> e == AppError::Crypto || e == AppError::Database),
        r is Err ==> final(users).table() == old(users).table(),
        r matches Ok(u) ==> create_request_valid(payload) && !has_email(
            old(users).table(),
            payload.email@,
        ) && registered(old(users).table(), final(users).table(), payload, u@),
{
    if !validate_create(&payload) {
        return Err(AppError::Validation);
    }
    if users.get_user_by_email(payload.email.as_str()).is_some() {
        return Err(AppError::Conflict);
    }
    users.create_user(payload)
}

/// Registration: a well-formed request with an unused email creates the user
/// and returns it with a token for it.
pub fn register(auth: &AuthService, users: &mut UserService, payload: CreateUserRequest) -> (r:
    Result<AuthResponse, AppError>)
    requires
        old(users).wf(),
    ensures
        final(users).wf(),
        !create_request_valid(payload) ==> (r matches Err(AppError::Validation))
            && final(users).table() == old(users).table(),
        create_request_valid(payload) && has_email(old(users).table(), payload.email@) ==> (r matches Err(
            AppError::Conflict,
        )) && final(users).table() == old(users).table(),
        r matches Ok(a) ==> create_request_valid(payload) && !has_email(
            old(users).table(),
            payload.email@,
        ) && exists|u: UserView|
            #[trigger] registered(old(users).table(), final(users).table(), payload, u) && shows(
                a.user,
                u,
            ) && issued_for(a.token@, u.id, auth.secret()),
        create_request_valid(payload) && !has_email(old(users).table(), payload.email@) ==> (r matches Err(
            e,
        ) ==> e == AppError::Crypto || e == AppError::Database),
        r is Err ==> final(users).table() == old(users).table(),
{
    let user = create_checked(users, payload)?;
    let ghost uv = user@;
    let r = auth.create_auth_response(user);
    assert(registered(old(users).table(), users.table(), payload, uv));
    r
}

/// Login: the user whose email and password match, with a token for it. An
/// unknown email and a wrong password fail alike with `Unauthorized`.
pub fn login(auth: &AuthService, users: &UserService, payload: LoginRequest) -> (r: Result<
    AuthResponse,
    AppError,
>)
    requires
        users.wf(),
    ensures
        !has_email(users.table(), payload.email@) ==> r matches Err(AppError::Unauthorized),
        forall|i: int|
            #[trigger] first_with_email(users.table(), payload.email@, i) ==> match bcrypt_verdict(
                payload.password@,
                users.table()[i].password_hash,
            ) {
                Some(true) => r matches Ok(a) && shows(a.user, users.table()[i]) && issued_for(
                    a.token@,
                    users.table()[i].id,
                    auth.secret(),
                ),
                Some(false) => r matches Err(AppError::Unauthorized),
                None => r matches Err(AppError::Crypto),
            },
{
    let found = users.verify_password(payload.email.as_str(), payload.password.as_str());
    match found {
        Ok(Some(user)) => auth.create_auth_response(user),
        Ok(None) => Err(AppError::Unauthorized),
        Err(e) => Err(e),
    }
}

/// A page of users, newest first, without credential hashes.
pub fn list_users(users: &UserService, query: ListUsersQuery) -> (r: Result<
    Vec<UserResponse>,
    AppError,
>)
    requires
        users.wf(),
    ensures
        r is Err <==> query.limit < 0 || query.offset < 0,
        r matches Err(e) ==> e == AppError::Database,
        r matches Ok(v) ==> {
            let page = newest_first_page(users.table(), query.limit as int, query.offset as int);
            &&& v@.len() == page.len()
            &&& forall|k: int| 0 <= k < page.len() ==> shows(#[trigger] v@[k], page[k])
        },
{
    let rows = users.list_users(query.limit, query.offset)?;
    let ghost page = views(rows@);
    let rest = rows;
    let mut i: usize = 0;
    let mut taken: Vec<UserResponse> = Vec::new();
    while i < rest.len()
        invariant
            page == views(rest@),
            i <= rest@.len(),
            taken@.len() == i,
            forall|j: int| 0 <= j < i ==> shows(#[trigger] taken@[j], page[j]),
        decreases rest@.len() - i,
    {
        let u = rest[i].duplicate();
        assert(page[i as int] == rest@[i as int]@);
        taken.push(UserResponse::from_user(u));
        i = i + 1;
    }
    Ok(taken)
}

/// The user with identifier `id`, or `NotFound`.
pub fn get_user(users: &UserService, id: u128) -> (r: Result<UserResponse, AppError>)
    requires
        users.wf(),
    ensures
        r is Err <==> !has_id(users.table(), id),
        r matches Err(e) ==> e == AppError::NotFound,
        r matches Ok(v) ==> exists|i: int|
            0 <= i < users.table().len() && users.table()[i].id == id && shows(
                v,
                #[trigger] users.table()[i],
            ),
{
    match users.get_user_by_id(id) {
        Some(u) => Ok(UserResponse::from_user(u)),
        None => Err(AppError::NotFound),
    }
}

/// Administrative create: as [`register`], without a token.
pub fn create_user(users: &mut UserService, payload: CreateUserRequest) -> (r: Result<
    UserResponse,
    AppError,
>)
    requires
        old(users).wf(),
    ensures
        final(users).wf(),
        !create_request_valid(payload) ==> r matches Err(AppError::Validation),
        create_request_valid(payload) && has_email(old(users).table(), payload.email@) ==> r matches Err(
            AppError::Conflict,
        ),
        create_request_valid(payload) && !has_email(old(users).table(), payload.email@) ==> (r matches Err(
            e,
        ) ==> e == AppError::Crypto || e == AppError::Database),
        r is Err ==> final(users).table() == old(users).table(),
        r matches Ok(v) ==> create_request_valid(payload) && !has_email(
            old(users).table(),
            payload.email@,
        ) && exists|u: UserView|
            #[trigger] registered(old(users).table(), final(users).table(), payload, u) && shows(v, u),
{
    let user = create_checked(users, payload)?;
    let ghost uv = user@;
    assert(registered(old(users).table(), users.table(), payload, uv));
    Ok(UserResponse::from_user(user))
}

/// Coalescing profile update of the user with identifier `id`.
pub fn update_user(users: &mut UserService, id: u128, payload: UpdateUserRequest) -> (r: Result<
    UserResponse,
    AppError,
>)
    requires
        old(users).wf(),
    ensures
        final(users).wf(),
        !update_request_valid(payload) ==> r matches Err(AppError::Validation),
        update_request_valid(payload) && !has_id(old(users).table(), id) ==> r matches Err(
            AppError::NotFound,
        ),
        update_request_valid(payload) && has_id(old(users).table(), id) ==> r is Ok,
        r is Err ==> final(users).table() == old(users).table(),
        r matches Ok(v) ==> update_request_valid(payload) && exists|i: int|
            0 <= i < old(users).table().len() && old(users).table()[i].id == id
                && final(users).table() == old(users).table().update(
                i,
                coalesced(
                    #[trigger] old(users).table()[i],
                    opt_view(payload.email),
                    opt_view(payload.username),
                    v.updated_at,
                ),
            ) && shows(v, final(users).table()[i]),
{
    if !validate_update(&payload) {
        return Err(AppError::Validation);
    }
    match users.update_user(id, payload) {
        Some(u) => Ok(UserResponse::from_user(u)),
        None => Err(AppError::NotFound),
    }
}

/// Removes the user with identifier `id`, or `NotFound`.
pub fn delete_user(users: &mut UserService, id: u128) -> (r: Result<(), AppError>)
    requires
        old(users).wf(),
    ensures
        final(users).wf(),
        r is Ok <==> has_id(old(users).table(), id),
        r matches Err(e) ==> e == AppError::NotFound && final(users).table() == old(users).table(),
        r is Ok ==> exists|i: int|
            0 <= i < old(users).table().len() && #[trigger] old(users).table()[i].id == id
                && final(users).table() == old(users).table().remove(i),
{
    if users.delete_user(id) {
        Ok(())
    } else {
        Err(AppError::NotFound)
    }
}

} // verus!
