//! The credential store and token issuer/validator: users, their
//! bearer tokens, and every operation that reads or writes them.
use crate::crypto::argon2_hash;
use crate::crypto::argon2_len_ok;
use crate::crypto::argon2_verify;
use crate::crypto::b64url_encode;
use crate::crypto::fill_random;
use crate::crypto::is_b64url_char;
use crate::crypto::phc_check;
use crate::crypto::phc_prefixed;
use crate::crypto::random_uuid;
use crate::db::Db;
use crate::db::DbView;
use crate::db::has_token;
use crate::db::has_user_with_email;
use crate::db::has_user_with_id;
use crate::db::has_user_with_username;
use crate::db::lemma_token_pins;
use crate::db::lemma_token_views_push;
use crate::db::lemma_user_views_index;
use crate::db::lemma_user_views_push;
use crate::db::lemma_token_views_index;
use crate::db::lemma_user_email_pins;
use crate::db::lemma_user_id_pins;
use crate::db::token_index;
use crate::db::user_with_email;
use crate::db::user_views;
use crate::db::token_views;
use crate::db::user_with_id;
use crate::db::wf;
use crate::error::AppError;
use crate::error::AppErrorKind;
use crate::text::spec_strip_bearer;
use crate::text::str_contains_char;
use crate::text::strip_bearer;
use vstd::prelude::*;
use vstd::string::StrSliceExecFns;

verus! {

/// A registered user. The `password` field holds only the salted,
/// irreversibly encoded hash, never the plaintext.
#[derive(Debug)]
pub struct User {
    pub id: u128,
    pub username: String,
    pub email: String,
    pub password: String,
    pub is_admin: bool,
}

/// The mathematical value of a `User`.
pub ghost struct UserView {
    pub id: u128,
    pub username: Seq<char>,
    pub email: Seq<char>,
    pub password: Seq<char>,
    pub is_admin: bool,
}

impl View for User {
    type V = UserView;

    open spec fn view(&self) -> UserView {
        UserView {
            id: self.id,
            username: self.username@,
            email: self.email@,
            password: self.password@,
            is_admin: self.is_admin,
        }
    }
}

impl User {
    /// An exact copy.
    pub fn duplicate(&self) -> (r: User)
        ensures
            r@ == self@,
    {
        User {
            id: self.id,
            username: self.username.clone(),
            email: self.email.clone(),
            password: self.password.clone(),
            is_admin: self.is_admin,
        }
    }
}

/// A bearer token row: the opaque token string, its owning user, and
/// when it was last accepted.
#[derive(Debug)]
pub struct Token {
    pub token: String,
    pub user_id: u128,
    pub last_used: i64,
}

/// The mathematical value of a `Token`.
pub ghost struct TokenView {
    pub token: Seq<char>,
    pub user_id: u128,
    pub last_used: i64,
}

impl View for Token {
    type V = TokenView;

    open spec fn view(&self) -> TokenView {
        TokenView { token: self.token@, user_id: self.user_id, last_used: self.last_used }
    }
}

// ---------------------------------------------------------------------------
// Registration validation.
// ---------------------------------------------------------------------------

/// A username of at least three characters.
pub open spec fn valid_username(u: Seq<char>) -> bool {
    u.len() >= 3
}

/// A password of at least eight characters.
pub open spec fn valid_password(p: Seq<char>) -> bool {
    p.len() >= 8
}

/// An email containing an `@`.
pub open spec fn valid_email(e: Seq<char>) -> bool {
    e.contains('@')
}

/// What registration accepts.
pub open spec fn valid_registration(u: Seq<char>, e: Seq<char>, p: Seq<char>) -> bool {
    valid_username(u) && valid_email(e) && valid_password(p)
}

// ---------------------------------------------------------------------------
// Specification mirrors of the lookups.
// ---------------------------------------------------------------------------

/// What logging in returns: the user stored under the email when the
/// password verifies; a uniform `NotFound` on a missing account or a
/// wrong password; `InternalServerError` where the stored hash cannot
/// be checked.
pub open spec fn spec_login(db: DbView, email: Seq<char>, password: Seq<char>) -> Result<
    UserView,
    AppErrorKind,
> {
    if !has_user_with_email(db.users, email) {
        Err(AppErrorKind::NotFound)
    } else {
        let u = user_with_email(db.users, email);
        match phc_check(u.password, password) {
            None => Err(AppErrorKind::InternalServerError),
            Some(accepted) => if accepted {
                Ok(u)
            } else {
                Err(AppErrorKind::NotFound)
            },
        }
    }
}

/// The owner a token resolves to, if the token is stored.
pub open spec fn spec_validate_token(db: DbView, token: Seq<char>) -> Option<UserView> {
    if has_token(db.tokens, token) {
        Some(user_with_id(db.users, db.tokens[token_index(db.tokens, token)].user_id))
    } else {
        None
    }
}

/// The state after a successful validation: the token's `last_used`
/// set to `now`, everything else untouched.
pub open spec fn token_bump(db: DbView, token: Seq<char>, now: i64) -> DbView {
    let ix = token_index(db.tokens, token);
    DbView {
        users: db.users,
        tokens: db.tokens.update(
            ix,
            TokenView { token: db.tokens[ix].token, user_id: db.tokens[ix].user_id, last_used: now },
        ),
        recipes: db.recipes,
        images: db.images,
    }
}

// ---------------------------------------------------------------------------
// Table scans.
// ---------------------------------------------------------------------------

fn find_user_by_id(users: &Vec<User>, id: u128) -> (r: Option<usize>)
    ensures
        match r {
            Some(i) => i < users@.len() && user_views(users@)[i as int].id == id
                && has_user_with_id(user_views(users@), id),
            None => !has_user_with_id(user_views(users@), id),
        },
{
    let n = users.len();
    let mut i: usize = 0;
    while i < n
        invariant
            0 <= i <= n,
            n == users@.len(),
            forall|k: int| 0 <= k < i ==> users@[k]@.id != id,
        decreases n - i,
    {
        if users[i].id == id {
            proof {
                broadcast use lemma_user_views_index;

                assert(user_views(users@)[i as int] == users@[i as int]@);
            }
            return Some(i);
        }
        i = i + 1;
    }
    proof {
        broadcast use lemma_user_views_index;

        let mapped = user_views(users@);
        assert forall|k: int| 0 <= k < mapped.len() implies (#[trigger] mapped[k]).id != id by {
            assert(mapped[k] == users@[k]@);
        }
    }
    None
}

fn find_user_by_email(users: &Vec<User>, email: &String) -> (r: Option<usize>)
    ensures
        match r {
            Some(i) => i < users@.len() && user_views(users@)[i as int].email == email@
                && has_user_with_email(user_views(users@), email@),
            None => !has_user_with_email(user_views(users@), email@),
        },
{
    let n = users.len();
    let mut i: usize = 0;
    while i < n
        invariant
            0 <= i <= n,
            n == users@.len(),
            forall|k: int| 0 <= k < i ==> users@[k]@.email != email@,
        decreases n - i,
    {
        if users[i].email.eq(email) {
            proof {
                broadcast use lemma_user_views_index;

                assert(user_views(users@)[i as int] == users@[i as int]@);
            }
            return Some(i);
        }
        i = i + 1;
    }
    proof {
        broadcast use lemma_user_views_index;

        let mapped = user_views(users@);
        assert forall|k: int| 0 <= k < mapped.len() implies (#[trigger] mapped[k]).email
            != email@ by {
            assert(mapped[k] == users@[k]@);
        }
    }
    None
}

fn find_user_by_username(users: &Vec<User>, username: &String) -> (r: Option<usize>)
    ensures
        match r {
            Some(i) => i < users@.len() && user_views(users@)[i as int].username == username@
                && has_user_with_username(user_views(users@), username@),
            None => !has_user_with_username(user_views(users@), username@),
        },
{
    let n = users.len();
    let mut i: usize = 0;
    while i < n
        invariant
            0 <= i <= n,
            n == users@.len(),
            forall|k: int| 0 <= k < i ==> users@[k]@.username != username@,
        decreases n - i,
    {
        if users[i].username.eq(username) {
            proof {
                broadcast use lemma_user_views_index;

                assert(user_views(users@)[i as int] == users@[i as int]@);
            }
            return Some(i);
        }
        i = i + 1;
    }
    proof {
        broadcast use lemma_user_views_index;

        let mapped = user_views(users@);
        assert forall|k: int| 0 <= k < mapped.len() implies (#[trigger] mapped[k]).username
            != username@ by {
            assert(mapped[k] == users@[k]@);
        }
    }
    None
}

fn find_token(tokens: &Vec<Token>, token: &String) -> (r: Option<usize>)
    ensures
        match r {
            Some(i) => i < tokens@.len() && token_views(tokens@)[i as int].token == token@
                && has_token(token_views(tokens@), token@),
            None => !has_token(token_views(tokens@), token@),
        },
{
    let n = tokens.len();
    let mut i: usize = 0;
    while i < n
        invariant
            0 <= i <= n,
            n == tokens@.len(),
            forall|k: int| 0 <= k < i ==> tokens@[k]@.token != token@,
        decreases n - i,
    {
        if tokens[i].token.eq(token) {
            proof {
                broadcast use lemma_token_views_index;

                assert(token_views(tokens@)[i as int] == tokens@[i as int]@);
            }
            return Some(i);
        }
        i = i + 1;
    }
    proof {
        broadcast use lemma_token_views_index;

        let mapped = token_views(tokens@);
        assert forall|k: int| 0 <= k < mapped.len() implies (#[trigger] mapped[k]).token
            != token@ by {
            assert(mapped[k] == tokens@[k]@);
        }
    }
    None
}

// ---------------------------------------------------------------------------
// The operations.
// ---------------------------------------------------------------------------

impl User {
    /// The bare insert, as the schema's unique constraints see it:
    /// succeeds exactly when the id, the username and the email are
    /// all free, and then appends the new row.
    pub fn insert_user(
        db: &mut Db,
        id: u128,
        username: &String,
        email: &String,
        password_hash: String,
        is_admin: bool,
    ) -> (r: Result<User, AppError>)
        requires
            wf(old(db)@),
        ensures
            wf(final(db)@),
            r is Ok <==> !has_user_with_id(old(db)@.users, id) && !has_user_with_username(
                old(db)@.users,
                username@,
            ) && !has_user_with_email(old(db)@.users, email@),
            r is Ok ==> r->Ok_0@ == (UserView {
                id,
                username: username@,
                email: email@,
                password: password_hash@,
                is_admin,
            }) && final(db)@.users == old(db)@.users.push(r->Ok_0@) && final(db)@.tokens == old(db)@.tokens && final(db)@.recipes == old(db)@.recipes && final(db)@.images == old(db)@.images,
            r is Err ==> final(db)@ == old(db)@ && r->Err_0.kind == AppErrorKind::BadRequest,
    {
        let id_taken = find_user_by_id(&db.users, id).is_some();
        let username_taken = find_user_by_username(&db.users, username).is_some();
        let email_taken = find_user_by_email(&db.users, email).is_some();
        if id_taken || username_taken || email_taken {
            return Err(AppError::bad_request("Failed to create user"));
        }
        let user = User {
            id,
            username: username.clone(),
            email: email.clone(),
            password: password_hash,
            is_admin,
        };
        let result = user.duplicate();
        proof {
            lemma_user_views_push(db.users@, user);
        }
        db.users.push(user);
        proof {
            let prev = old(db)@.users;
            let now_users = db@.users;
            assert(now_users == prev.push(result@));
            assert forall|x: u128| has_user_with_id(prev, x) implies has_user_with_id(
                now_users,
                x,
            ) by {
                let w = choose|i: int| 0 <= i < prev.len() && (#[trigger] prev[i]).id == x;
                assert(now_users[w].id == x);
            }
            assert(wf(db@));
        }
        Ok(result)
    }

    /// Registers a user: validates the input, hashes the password with
    /// a fresh random salt, and inserts the row. Every rejection — bad
    /// input, a taken username or email, an identifier collision — is
    /// a `BadRequest`, and then nothing is persisted.
    pub fn create(
        db: &mut Db,
        username: &String,
        email: &String,
        password: &String,
        is_admin: &bool,
    ) -> (r: Result<User, AppError>)
        requires
            wf(old(db)@),
            argon2_len_ok(password@.len()),
        ensures
            wf(final(db)@),
            r is Err ==> final(db)@ == old(db)@ && r->Err_0.kind == AppErrorKind::BadRequest,
            !valid_registration(username@, email@, password@) ==> r is Err,
            has_user_with_username(old(db)@.users, username@) || has_user_with_email(
                old(db)@.users,
                email@,
            ) ==> r is Err,
            r is Ok ==> valid_registration(username@, email@, password@)
                && !has_user_with_username(old(db)@.users, username@) && !has_user_with_email(
                old(db)@.users,
                email@,
            ) && !has_user_with_id(old(db)@.users, r->Ok_0@.id) && final(db)@.users == old(db)@.users.push(r->Ok_0@) && final(db)@.tokens == old(db)@.tokens && final(db)@.recipes
                == old(db)@.recipes && final(db)@.images == old(db)@.images && r->Ok_0@.username
                == username@ && r->Ok_0@.email == email@ && r->Ok_0@.is_admin == *is_admin
                && phc_check(r->Ok_0@.password, password@) == Some(true) && phc_prefixed(
                r->Ok_0@.password,
            ),
    {
        if username.unicode_len() < 3 {
            return Err(AppError::bad_request("Username must be at least 3 characters"));
        }
        if password.unicode_len() < 8 {
            return Err(AppError::bad_request("Password must be at least 8 characters"));
        }
        if !str_contains_char(email.as_str(), '@') {
            return Err(AppError::bad_request("Invalid email address"));
        }
        let salt = fill_random(16);
        let hash = argon2_hash(password.as_str(), &salt);
        let id = random_uuid();
        User::insert_user(db, id, username, email, hash, *is_admin)
    }

    /// Fetches a user by id; `NotFound` exactly when no such row is
    /// stored.
    pub fn from_uuid(db: &Db, id: &u128) -> (r: Result<User, AppError>)
        requires
            wf(db@),
        ensures
            has_user_with_id(db@.users, *id) ==> r is Ok && r->Ok_0@ == user_with_id(
                db@.users,
                *id,
            ),
            !has_user_with_id(db@.users, *id) ==> r is Err && r->Err_0.kind
                == AppErrorKind::NotFound,
    {
        match find_user_by_id(&db.users, *id) {
            Some(i) => {
                proof {
                    lemma_user_id_pins(db@.users, i as int);
                }
                Ok(db.users[i].duplicate())
            },
            None => Err(AppError::not_found("User not found")),
        }
    }

    /// Logs a user in by email and password. A missing account and a
    /// wrong password are the same uniform `NotFound`; a stored hash
    /// that cannot be checked is an `InternalServerError`.
    pub fn from_login(db: &Db, email: &String, password: &String) -> (r: Result<User, AppError>)
        requires
            wf(db@),
            argon2_len_ok(password@.len()),
        ensures
            match spec_login(db@, email@, password@) {
                Ok(u) => r is Ok && r->Ok_0@ == u,
                Err(k) => r is Err && r->Err_0.kind == k,
            },
    {
        match find_user_by_email(&db.users, email) {
            None => Err(AppError::not_found("User not found")),
            Some(i) => {
                proof {
                    lemma_user_email_pins(db@.users, i as int);
                }
                match argon2_verify(db.users[i].password.as_str(), password.as_str()) {
                    None => Err(AppError::internal("Failed to retrieve user")),
                    Some(accepted) => {
                        if accepted {
                            Ok(db.users[i].duplicate())
                        } else {
                            Err(AppError::not_found("User not found"))
                        }
                    },
                }
            },
        }
    }

    /// Issues a bearer token for this user: 48 random bytes, encoded
    /// URL-safe without padding — 64 characters, every one from the
    /// URL-safe alphabet. A collision with a stored token surfaces as
    /// `InternalServerError`, and then nothing is persisted.
    pub fn create_token(&self, db: &mut Db, now: i64) -> (r: Result<String, AppError>)
        requires
            wf(old(db)@),
            has_user_with_id(old(db)@.users, self.id),
        ensures
            wf(final(db)@),
            r is Err ==> final(db)@ == old(db)@ && r->Err_0.kind
                == AppErrorKind::InternalServerError,
            r is Ok ==> !has_token(old(db)@.tokens, r->Ok_0@) && final(db)@.tokens == old(db)@.tokens.push(
                TokenView { token: r->Ok_0@, user_id: self.id, last_used: now },
            ) && final(db)@.users == old(db)@.users && final(db)@.recipes == old(db)@.recipes
                && final(db)@.images == old(db)@.images && r->Ok_0@.len() == 64 && (forall|i: int|
                0 <= i < r->Ok_0@.len() ==> is_b64url_char(#[trigger] r->Ok_0@[i])),
    {
        let bytes = fill_random(48);
        let token = b64url_encode(&bytes);
        if find_token(&db.tokens, &token).is_some() {
            return Err(AppError::internal("Failed to issue token"));
        }
        let result = token.clone();
        let row = Token { token, user_id: self.id, last_used: now };
        proof {
            lemma_token_views_push(db.tokens@, row);
        }
        db.tokens.push(row);
        proof {
            let prev = old(db)@.tokens;
            assert(db@.tokens == prev.push(
                TokenView { token: result@, user_id: self.id, last_used: now },
            ));
            assert(wf(db@));
        }
        Ok(result)
    }

    /// Validates a bearer token: resolves it to its owning user and
    /// records the time of use; an unknown token is `Unauthorized` and
    /// changes nothing.
    pub fn from_token(db: &mut Db, token: &String, now: i64) -> (r: Result<User, AppError>)
        requires
            wf(old(db)@),
        ensures
            wf(final(db)@),
            match spec_validate_token(old(db)@, token@) {
                None => r is Err && r->Err_0.kind == AppErrorKind::Unauthorized && final(db)@
                    == old(db)@,
                Some(u) => r is Ok && r->Ok_0@ == u && final(db)@ == token_bump(
                    old(db)@,
                    token@,
                    now,
                ),
            },
    {
        let ti = match find_token(&db.tokens, token) {
            None => {
                return Err(AppError::unauthorized("Invalid user token"));
            },
            Some(ti) => ti,
        };
        proof {
            lemma_token_pins(old(db)@.tokens, ti as int);
        }
        let user_id = db.tokens[ti].user_id;
        let ui = match find_user_by_id(&db.users, user_id) {
            None => {
                proof {
                    assert(has_user_with_id(db@.users, db@.tokens[ti as int].user_id));
                    assert(false);
                }
                return Err(AppError::internal("Failed to update token"));
            },
            Some(ui) => ui,
        };
        proof {
            lemma_user_id_pins(db@.users, ui as int);
        }
        let user = db.users[ui].duplicate();
        let old_row = db.tokens.remove(ti);
        db.tokens.insert(ti, Token { token: old_row.token, user_id: old_row.user_id, last_used: now });
        proof {
            let prev = old(db)@;
            let bumped = token_bump(prev, token@, now);
            assert(db@.tokens =~= prev.tokens.update(
                ti as int,
                TokenView {
                    token: prev.tokens[ti as int].token,
                    user_id: prev.tokens[ti as int].user_id,
                    last_used: now,
                },
            ));
            assert(db@.users =~= prev.users);
            assert(db@.recipes =~= prev.recipes);
            assert(db@.images =~= prev.images);
            assert(db@ == bumped);
            assert(wf(db@));
        }
        Ok(user)
    }

    /// Every stored user, in storage order.
    pub fn get_all(db: &Db) -> (r: Vec<User>)
        ensures
            user_views(r@) == db@.users,
    {
        let n = db.users.len();
        let mut out: Vec<User> = Vec::new();
        let mut i: usize = 0;
        while i < n
            invariant
                0 <= i <= n,
                n == db.users@.len(),
                user_views(out@) == db@.users.take(i as int),
            decreases n - i,
        {
            let dup = db.users[i].duplicate();
            proof {
                broadcast use lemma_user_views_index;

                lemma_user_views_push(out@, dup);
            }
            out.push(dup);
            proof {
                assert(user_views(out@) =~= db@.users.take(i as int + 1));
            }
            i = i + 1;
        }
        proof {
            assert(db@.users.take(n as int) =~= db@.users);
        }
        out
    }

    /// Authorization extraction: reads the `Authorization` header,
    /// strips the `Bearer ` prefix, and validates the token. A missing
    /// header is `Unauthorized`.
    pub fn from_request_parts(db: &mut Db, header: Option<&String>, now: i64) -> (r: Result<
        User,
        AppError,
    >)
        requires
            wf(old(db)@),
        ensures
            wf(final(db)@),
            header is None ==> r is Err && r->Err_0.kind == AppErrorKind::Unauthorized && final(db)@ == old(db)@,
            header matches Some(h) ==> match spec_validate_token(old(db)@, spec_strip_bearer(h@)) {
                None => r is Err && r->Err_0.kind == AppErrorKind::Unauthorized && final(db)@
                    == old(db)@,
                Some(u) => r is Ok && r->Ok_0@ == u && final(db)@ == token_bump(
                    old(db)@,
                    spec_strip_bearer(h@),
                    now,
                ),
            },
    {
        match header {
            None => Err(AppError::unauthorized("Missing authorization header")),
            Some(h) => {
                let token = strip_bearer(h.as_str());
                User::from_token(db, &token, now)
            },
        }
    }
}

} // verus!
