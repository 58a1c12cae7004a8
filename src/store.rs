use crate::credential::{bcrypt_verdict, hash_password, verify_password_hash};
use crate::error::AppError;
use crate::model::{CreateUserRequest, UpdateUserRequest, User, UserView};
use crate::text::text_eq;
use crate::token::unix_now;
use vstd::prelude::*;

verus! {

/// Some row of `t` has identifier `id`.
pub open spec fn has_id(t: Seq<UserView>, id: u128) -> bool {
    exists|i: int| 0 <= i < t.len() && #[trigger] t[i].id == id
}

/// Some row of `t` has this email.
pub open spec fn has_email(t: Seq<UserView>, email: Seq<char>) -> bool {
    exists|i: int| 0 <= i < t.len() && #[trigger] t[i].email == email
}

/// Row `i` is the first row of `t` with this email.
pub open spec fn first_with_email(t: Seq<UserView>, email: Seq<char>, i: int) -> bool {
    &&& 0 <= i < t.len()
    &&& t[i].email == email
    &&& forall|j: int| 0 <= j < i ==> #[trigger] t[j].email != email
}

/// No two rows share an identifier.
pub open spec fn ids_unique(t: Seq<UserView>) -> bool {
    forall|i: int, j: int| 0 <= i < j < t.len() ==> #[trigger] t[i].id != #[trigger] t[j].id
}

/// Rows run from the oldest creation time to the newest.
pub open spec fn oldest_first(t: Seq<UserView>) -> bool {
    forall|i: int, j: int|
        0 <= i <= j < t.len() ==> #[trigger] t[i].created_at <= #[trigger] t[j].created_at
}

/// `after` is `before` with row `u`, created at `now`, placed at `p`: after every
/// row created no later than `now` and before every row created later.
pub open spec fn placed(before: Seq<UserView>, after: Seq<UserView>, p: int, u: UserView) -> bool {
    &&& 0 <= p <= before.len()
    &&& after == before.insert(p, u)
    &&& forall|j: int| 0 <= j < p ==> #[trigger] before[j].created_at <= u.created_at
    &&& forall|j: int| p <= j < before.len() ==> #[trigger] before[j].created_at > u.created_at
}

/// A page of `t` listed newest first: `limit` rows from position `offset`.
pub open spec fn newest_first_page(t: Seq<UserView>, limit: int, offset: int) -> Seq<UserView> {
    let n = if offset >= t.len() {
        0
    } else if limit < t.len() - offset {
        limit
    } else {
        t.len() - offset
    };
    Seq::new(n as nat, |k: int| t[t.len() - 1 - offset - k])
}

/// An optional text field as a value.
pub open spec fn opt_view(o: Option<String>) -> Option<Seq<char>> {
    match o {
        Some(s) => Some(s@),
        None => None,
    }
}

/// Row `u` after a coalescing update at `now`: each field given replaces the
/// stored one, each absent field keeps it, and the update time becomes `now`.
pub open spec fn coalesced(
    u: UserView,
    email: Option<Seq<char>>,
    username: Option<Seq<char>>,
    now: i64,
) -> UserView {
    UserView {
        email: match email {
            Some(e) => e,
            None => u.email,
        },
        username: match username {
            Some(n) => n,
            None => u.username,
        },
        updated_at: now,
        ..u
    }
}

/// An update that supplies no field still moves the update time to `now`, and
/// keeps every other field, email and username among them, as stored.
pub proof fn lemma_empty_update_refreshes_only_timestamp(u: UserView, now: i64)
    ensures
        coalesced(u, None, None, now) == (UserView { updated_at: now, ..u }),
        coalesced(u, None, None, now).email == u.email,
        coalesced(u, None, None, now).username == u.username,
        coalesced(u, None, None, now).updated_at == now,
{
}

/// The values of a sequence of rows.
pub open spec fn views(s: Seq<User>) -> Seq<UserView> {
    s.map_values(|u: User| u@)
}

proof fn lemma_views_insert(s: Seq<User>, p: int, u: User)
    requires
        0 <= p <= s.len(),
    ensures
        views(s.insert(p, u)) == views(s).insert(p, u@),
{
    assert(views(s.insert(p, u)) =~= views(s).insert(p, u@));
}

proof fn lemma_views_update(s: Seq<User>, i: int, u: User)
    requires
        0 <= i < s.len(),
    ensures
        views(s.update(i, u)) == views(s).update(i, u@),
{
    assert(views(s.update(i, u)) =~= views(s).update(i, u@));
}

proof fn lemma_views_remove(s: Seq<User>, i: int)
    requires
        0 <= i < s.len(),
    ensures
        views(s.remove(i)) == views(s).remove(i),
{
    assert(views(s.remove(i)) =~= views(s).remove(i));
}

/// Relies on `uuid::Uuid::new_v4`: a random identifier, of which nothing is promised.
#[verifier::external_body]
fn random_user_id() -> (r: u128) {
    uuid::Uuid::new_v4().as_u128()
}

/// The user table: every read and write of user records goes through it.
pub struct UserService {
    rows: Vec<User>,
}

impl UserService {
    /// The rows, oldest first.
    pub closed spec fn table(&self) -> Seq<UserView> {
        views(self.rows@)
    }

    pub open spec fn wf(&self) -> bool {
        ids_unique(self.table()) && oldest_first(self.table())
    }

    /// An empty table.
    pub fn new() -> (r: UserService)
        ensures
            r.wf(),
            r.table() == Seq::<UserView>::empty(),
    {
        let r = UserService { rows: Vec::new() };
        assert(r.table() =~= Seq::<UserView>::empty());
        r
    }

    /// The row with identifier `id`, if any.
    pub fn get_user_by_id(&self, id: u128) -> (r: Option<User>)
        requires
            self.wf(),
        ensures
            r is None <==> !has_id(self.table(), id),
            r matches Some(u) ==> exists|i: int|
                0 <= i < self.table().len() && #[trigger] self.table()[i] == u@ && u.id == id,
    {
        let mut i: usize = 0;
        while i < self.rows.len()
            invariant
                i <= self.rows@.len(),
                self.table().len() == self.rows@.len(),
                forall|j: int| 0 <= j < i ==> #[trigger] self.table()[j].id != id,
            decreases self.rows@.len() - i,
        {
            if self.rows[i].id == id {
                let u = self.rows[i].duplicate();
                assert(self.table()[i as int] == u@);
                assert(self.table()[i as int].id == id);
                return Some(u);
            }
            i = i + 1;
        }
        None
    }

    /// The first row with this email, if any.
    pub fn get_user_by_email(&self, email: &str) -> (r: Option<User>)
        requires
            self.wf(),
        ensures
            r is None <==> !has_email(self.table(), email@),
            r matches Some(u) ==> exists|i: int|
                first_with_email(self.table(), email@, i) && #[trigger] self.table()[i] == u@,
    {
        let mut i: usize = 0;
        while i < self.rows.len()
            invariant
                i <= self.rows@.len(),
                self.table().len() == self.rows@.len(),
                forall|j: int| 0 <= j < i ==> #[trigger] self.table()[j].email != email@,
            decreases self.rows@.len() - i,
        {
            if text_eq(self.rows[i].email.as_str(), email) {
                let u = self.rows[i].duplicate();
                assert(self.table()[i as int] == u@);
                assert(first_with_email(self.table(), email@, i as int));
                return Some(u);
            }
            i = i + 1;
        }
        None
    }

    /// Up to `limit` rows from position `offset`, newest first. `Database` where
    /// either bound is negative, as the store refuses such a page.
    pub fn list_users(&self, limit: i64, offset: i64) -> (r: Result<Vec<User>, AppError>)
        requires
            self.wf(),
        ensures
            r is Err <==> limit < 0 || offset < 0,
            r matches Err(e) ==> e == AppError::Database,
            r matches Ok(v) ==> views(v@) == newest_first_page(
                self.table(),
                limit as int,
                offset as int,
            ),
    {
        if limit < 0 || offset < 0 {
            return Err(AppError::Database);
        }
        let len = self.rows.len();
        let ghost page = newest_first_page(self.table(), limit as int, offset as int);
        let start: usize = if offset as u64 >= len as u64 {
            len
        } else {
            offset as usize
        };
        let n: usize = if start == len {
            0
        } else if (limit as u64) < (len - start) as u64 {
            limit as usize
        } else {
            len - start
        };
        assert(n == page.len());
        let mut out: Vec<User> = Vec::new();
        let mut k: usize = 0;
        while k < n
            invariant
                len == self.rows@.len(),
                self.table().len() == len,
                n == page.len(),
                n <= len,
                start <= len,
                n > 0 ==> start == offset && start + n <= len,
                k <= n,
                page == newest_first_page(self.table(), limit as int, offset as int),
                views(out@) == page.subrange(0, k as int),
            decreases n - k,
        {
            let idx: usize = len - 1 - start - k;
            let u = self.rows[idx].duplicate();
            assert(self.table()[idx as int] == u@);
            assert(page[k as int] == self.table()[idx as int]);
            let ghost before = out@;
            out.push(u);
            assert(out@ == before.push(u));
            assert(views(out@) =~= page.subrange(0, k + 1)) by {
                assert(views(before).len() == k);
                assert(views(out@).len() == k + 1);
                assert forall|j: int| 0 <= j < k + 1 implies views(out@)[j] == page[j] by {
                    assert(views(out@)[j] == out@[j]@);
                    if j < k {
                        assert(views(before)[j] == before[j]@);
                        assert(views(before)[j] == page.subrange(0, k as int)[j]);
                    }
                }
            }
            k = k + 1;
        }
        assert(page.subrange(0, n as int) =~= page);
        Ok(out)
    }

    /// Inserts the row `{id, email, username, password_hash}` created and updated
    /// at `now`, keeping the rows ordered by creation time. `Database` where the
    /// identifier is taken, as the store refuses a second row with one key.
    pub fn insert_user(
        &mut self,
        id: u128,
        email: String,
        username: String,
        password_hash: String,
        now: i64,
    ) -> (r: Result<User, AppError>)
        requires
            old(self).wf(),
        ensures
            final(self).wf(),
            r is Err <==> has_id(old(self).table(), id),
            r matches Err(e) ==> e == AppError::Database && final(self).table() == old(self).table(),
            r matches Ok(u) ==> u@ == (UserView {
                id,
                email: email@,
                username: username@,
                password_hash: password_hash@,
                created_at: now,
                updated_at: now,
            }),
            r matches Ok(u) ==> exists|q: int| placed(old(self).table(), final(self).table(), q, u@),
    {
        if self.get_user_by_id(id).is_some() {
            return Err(AppError::Database);
        }
        let ghost t = self.table();
        let mut p: usize = 0;
        while p < self.rows.len() && self.rows[p].created_at <= now
            invariant
                t == self.table(),
                t.len() == self.rows@.len(),
                p <= t.len(),
                forall|j: int| 0 <= j < p ==> #[trigger] t[j].created_at <= now,
            decreases self.rows@.len() - p,
        {
            assert(t[p as int].created_at == self.rows@[p as int].created_at);
            p = p + 1;
        }
        if p < self.rows.len() {
            assert(t[p as int].created_at == self.rows@[p as int].created_at);
        }
        let user = User { id, email, username, password_hash, created_at: now, updated_at: now };
        let ghost uv = user@;
        let out = user.duplicate();
        assert(out@ == uv);
        proof {
            lemma_views_insert(self.rows@, p as int, user);
            assert forall|j: int| p <= j < t.len() implies #[trigger] t[j].created_at > now by {
                assert(t[p as int].created_at <= t[j].created_at);
            }
        }
        self.rows.insert(p, user);
        proof {
            let t2 = self.table();
            assert(t2 == t.insert(p as int, uv));
            assert(placed(t, t2, p as int, uv));
            assert(exists|q: int| placed(t, t2, q, uv));
            assert forall|i: int, j: int| 0 <= i < j < t2.len() implies #[trigger] t2[i].id
                != #[trigger] t2[j].id by {
                if i == p {
                    assert(t2[j] == t[j - 1]);
                } else if j == p {
                    assert(t2[i] == t[i]);
                }
            }
            assert forall|i: int, j: int|
                0 <= i <= j < t2.len() implies #[trigger] t2[i].created_at
                <= #[trigger] t2[j].created_at by {
                if i < p && j > p {
                    assert(t2[j] == t[j - 1]);
                }
            }
        }
        let r: Result<User, AppError> = Ok(out);
        assert(placed(old(self).table(), self.table(), p as int, r->Ok_0@));
        r
    }

    /// Creates a user: a fresh random identifier, the password hashed, both
    /// timestamps now. Uniqueness of the email is the caller's check.
    pub fn create_user(&mut self, request: CreateUserRequest) -> (r: Result<User, AppError>)
        requires
            old(self).wf(),
        ensures
            final(self).wf(),
            r matches Ok(u) ==> u.email@ == request.email@ && u.username@ == request.username@
                && u.created_at == u.updated_at && bcrypt_verdict(
                request.password@,
                u.password_hash@,
            ) == Some(true) && exists|p: int| placed(old(self).table(), final(self).table(), p, u@),
            r matches Err(e) ==> (e == AppError::Crypto || e == AppError::Database)
                && final(self).table() == old(self).table(),
    {
        let password_hash = hash_password(request.password.as_str())?;
        let id = random_user_id();
        let now = unix_now();
        self.insert_user(id, request.email, request.username, password_hash, now)
    }

    /// Position of the row with identifier `id`, if any.
    fn position_of(&self, id: u128) -> (r: Option<usize>)
        requires
            self.wf(),
        ensures
            r is None <==> !has_id(self.table(), id),
            r matches Some(i) ==> i < self.table().len() && self.table()[i as int].id == id,
    {
        let mut i: usize = 0;
        while i < self.rows.len()
            invariant
                i <= self.rows@.len(),
                self.table().len() == self.rows@.len(),
                forall|j: int| 0 <= j < i ==> #[trigger] self.table()[j].id != id,
            decreases self.rows@.len() - i,
        {
            if self.rows[i].id == id {
                assert(self.table()[i as int].id == id);
                return Some(i);
            }
            i = i + 1;
        }
        None
    }

    /// Applies a coalescing update at Unix time `now` to the row with identifier
    /// `id`: given fields replace the stored ones, absent ones are kept, and the
    /// update time becomes `now` even where nothing else changes.
    pub fn update_user_at(&mut self, id: u128, request: UpdateUserRequest, now: i64) -> (r: Option<User>)
        requires
            old(self).wf(),
        ensures
            final(self).wf(),
            r is None <==> !has_id(old(self).table(), id),
            r is None ==> final(self).table() == old(self).table(),
            r matches Some(u) ==> exists|i: int|
                0 <= i < old(self).table().len() && old(self).table()[i].id == id && u@ == coalesced(
                    #[trigger] old(self).table()[i],
                    opt_view(request.email),
                    opt_view(request.username),
                    now,
                ) && final(self).table() == old(self).table().update(i, u@),
    {
        let i = match self.position_of(id) {
            Some(i) => i,
            None => return None,
        };
        let ghost t = self.table();
        let mut row = self.rows[i].duplicate();
        match request.email {
            Some(e) => row.email = e,
            None => {},
        }
        match request.username {
            Some(n) => row.username = n,
            None => {},
        }
        row.updated_at = now;
        let ghost rv = row@;
        assert(rv == coalesced(t[i as int], opt_view(request.email), opt_view(request.username), now));
        let out = row.duplicate();
        proof {
            lemma_views_update(self.rows@, i as int, row);
        }
        self.rows.set(i, row);
        proof {
            let t2 = self.table();
            assert(t2 == t.update(i as int, rv));
            assert forall|a: int, b: int| 0 <= a < b < t2.len() implies #[trigger] t2[a].id
                != #[trigger] t2[b].id by {
                assert(t[a].id != t[b].id);
            }
            assert forall|a: int, b: int|
                0 <= a <= b < t2.len() implies #[trigger] t2[a].created_at
                <= #[trigger] t2[b].created_at by {
                assert(t[a].created_at <= t[b].created_at);
            }
        }
        Some(out)
    }

    /// [`UserService::update_user_at`] at the current time.
    pub fn update_user(&mut self, id: u128, request: UpdateUserRequest) -> (r: Option<User>)
        requires
            old(self).wf(),
        ensures
            final(self).wf(),
            r is None <==> !has_id(old(self).table(), id),
            r is None ==> final(self).table() == old(self).table(),
            r matches Some(u) ==> exists|i: int|
                0 <= i < old(self).table().len() && old(self).table()[i].id == id && u@ == coalesced(
                    #[trigger] old(self).table()[i],
                    opt_view(request.email),
                    opt_view(request.username),
                    u.updated_at,
                ) && final(self).table() == old(self).table().update(i, u@),
    {
        let now = unix_now();
        self.update_user_at(id, request, now)
    }

    /// Removes the row with identifier `id`; true iff there was one.
    pub fn delete_user(&mut self, id: u128) -> (r: bool)
        requires
            old(self).wf(),
        ensures
            final(self).wf(),
            r == has_id(old(self).table(), id),
            !r ==> final(self).table() == old(self).table(),
            r ==> exists|i: int|
                0 <= i < old(self).table().len() && #[trigger] old(self).table()[i].id == id
                    && final(self).table() == old(self).table().remove(i),
    {
        let i = match self.position_of(id) {
            Some(i) => i,
            None => return false,
        };
        let ghost t = self.table();
        proof {
            lemma_views_remove(self.rows@, i as int);
        }
        self.rows.remove(i);
        proof {
            let t2 = self.table();
            assert(t2 == t.remove(i as int));
            assert forall|a: int, b: int| 0 <= a < b < t2.len() implies #[trigger] t2[a].id
                != #[trigger] t2[b].id by {
                let a0 = if a < i { a } else { a + 1 };
                let b0 = if b < i { b } else { b + 1 };
                assert(t2[a] == t[a0] && t2[b] == t[b0]);
            }
            assert forall|a: int, b: int|
                0 <= a <= b < t2.len() implies #[trigger] t2[a].created_at
                <= #[trigger] t2[b].created_at by {
                let a0 = if a < i { a } else { a + 1 };
                let b0 = if b < i { b } else { b + 1 };
                assert(t2[a] == t[a0] && t2[b] == t[b0]);
            }
        }
        true
    }

    /// The user with this email, only if `password` matches its stored hash.
    /// An unknown email and a wrong password give the same `Ok(None)`; `Crypto`
    /// only where the stored hash is malformed.
    pub fn verify_password(&self, email: &str, password: &str) -> (r: Result<Option<User>, AppError>)
        requires
            self.wf(),
        ensures
            !has_email(self.table(), email@) ==> r == Ok::<Option<User>, AppError>(None),
            forall|i: int|
                #[trigger] first_with_email(self.table(), email@, i) ==> match bcrypt_verdict(
                    password@,
                    self.table()[i].password_hash,
                ) {
                    Some(true) => r matches Ok(Some(u)) && u@ == self.table()[i],
                    Some(false) => r == Ok::<Option<User>, AppError>(None),
                    None => r == Err::<Option<User>, AppError>(AppError::Crypto),
                },
    {
        match self.get_user_by_email(email) {
            Some(user) => {
                let ok = verify_password_hash(password, user.password_hash.as_str())?;
                proof {
                    let i = choose|i: int|
                        first_with_email(self.table(), email@, i) && #[trigger] self.table()[i] == user@;
                    assert forall|k: int| #[trigger] first_with_email(self.table(), email@, k) implies k == i by {
                        if k < i {
                            assert(self.table()[k].email != email@);
                        } else if k > i {
                            assert(self.table()[i].email != email@);
                        }
                    }
                }
                if ok {
                    Ok(Some(user))
                } else {
                    Ok(None)
                }
            },
            None => Ok(None),
        }
    }
}

} // verus!
