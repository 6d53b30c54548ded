//! User routes: registration, login, and the authenticated self view.
use crate::crypto::argon2_len_ok;
use crate::crypto::phc_check;
use crate::crypto::phc_prefixed;
use crate::db::Db;
use crate::db::has_user_with_email;
use crate::db::has_user_with_username;
use crate::db::lemma_user_id_pins;
use crate::db::wf;
use crate::error::AppError;
use crate::error::AppErrorKind;
use crate::ids::spec_uuid_str;
use crate::ids::uuid_to_string;
use crate::models::user::User;
use crate::models::user::TokenView;
use crate::models::user::spec_login;
use crate::models::user::valid_registration;
use vstd::prelude::*;

verus! {

/// The body of a registration request. The CAPTCHA token, when the
/// deployment asks for one, is checked at the boundary before the
/// core is called.
#[derive(Debug)]
pub struct CreateUserRequest {
    pub username: String,
    pub email: String,
    pub password: String,
    pub hcaptcha_token: Option<String>,
}

/// The body of a login request.
#[derive(Debug)]
pub struct LoginUserRequest {
    pub email: String,
    pub password: String,
}

/// What a successful login returns: the user's public fields and a
/// fresh bearer token.
#[derive(Debug)]
pub struct LoginUserResponse {
    pub id: String,
    pub username: String,
    pub email: String,
    pub is_admin: bool,
    pub token: String,
}

/// The authenticated user's own view of their account. It has no
/// password field: the stored hash never leaves the store.
#[derive(Debug)]
pub struct UserSelfResponse {
    pub id: String,
    pub username: String,
    pub email: String,
    pub is_admin: bool,
}

/// Registers a user from the request body; every registered user
/// starts as a non-administrator.
pub fn create_user(db: &mut Db, req: &CreateUserRequest) -> (r: Result<&'static str, AppError>)
    requires
        wf(old(db)@),
        argon2_len_ok(req.password@.len()),
    ensures
        wf(final(db)@),
        r is Err ==> final(db)@ == old(db)@ && r->Err_0.kind == AppErrorKind::BadRequest,
        !valid_registration(req.username@, req.email@, req.password@) ==> r is Err,
        has_user_with_username(old(db)@.users, req.username@) || has_user_with_email(
            old(db)@.users,
            req.email@,
        ) ==> r is Err,
        r is Ok ==> r->Ok_0@ == "User created"@ && valid_registration(
            req.username@,
            req.email@,
            req.password@,
        ) && ({
            let u = final(db)@.users.last();
            final(db)@.users == old(db)@.users.push(u) && final(db)@.tokens == old(db)@.tokens
                && final(db)@.recipes == old(db)@.recipes && final(db)@.images == old(db)@.images
                && u.username == req.username@ && u.email == req.email@ && u.is_admin == false
                && phc_check(u.password, req.password@) == Some(true) && phc_prefixed(u.password)
        }),
{
    match User::create(db, &req.username, &req.email, &req.password, &false) {
        Ok(_) => Ok("User created"),
        Err(e) => Err(e),
    }
}

/// The CAPTCHA gate's decision, taken on plain values. The remote
/// verification call is boundary I/O; its outcome comes in as
/// `verification`: `None` where the transport failed, `Some(passed)`
/// where the service answered. A deployment that requires no CAPTCHA
/// admits every request here.
pub fn check_captcha(required: bool, token_supplied: bool, verification: Option<bool>) -> (r:
    Result<(), AppError>)
    ensures
        !required ==> r is Ok,
        required && !token_supplied ==> r is Err && r->Err_0.kind == AppErrorKind::BadRequest,
        required && token_supplied ==> match verification {
            None => r is Err && r->Err_0.kind == AppErrorKind::InternalServerError,
            Some(passed) => if passed {
                r is Ok
            } else {
                r is Err && r->Err_0.kind == AppErrorKind::BadRequest
            },
        },
{
    if !required {
        return Ok(());
    }
    if !token_supplied {
        return Err(AppError::bad_request("Missing hCaptcha token"));
    }
    match verification {
        None => Err(AppError::internal("Failed to verify hCaptcha")),
        Some(passed) => {
            if passed {
                Ok(())
            } else {
                Err(AppError::bad_request("Invalid hCaptcha token"))
            }
        },
    }
}

/// Logs a user in and issues a bearer token; the response carries the
/// user's public fields and the token.
pub fn login_user(db: &mut Db, req: &LoginUserRequest, now: i64) -> (r: Result<
    LoginUserResponse,
    AppError,
>)
    requires
        wf(old(db)@),
        argon2_len_ok(req.password@.len()),
    ensures
        wf(final(db)@),
        r is Err ==> final(db)@ == old(db)@,
        spec_login(old(db)@, req.email@, req.password@) matches Err(k) ==> r is Err
            && r->Err_0.kind == k,
        spec_login(old(db)@, req.email@, req.password@) matches Ok(u) ==> (r is Err
            ==> r->Err_0.kind == AppErrorKind::InternalServerError) && (r is Ok ==> ({
            let resp = r->Ok_0;
            resp.id@ == spec_uuid_str(u.id) && resp.username@ == u.username && resp.email@
                == u.email && resp.is_admin == u.is_admin && final(db)@.tokens == old(db)@.tokens.push(TokenView { token: resp.token@, user_id: u.id, last_used: now })
                && final(db)@.users == old(db)@.users && final(db)@.recipes == old(db)@.recipes
                && final(db)@.images == old(db)@.images
        })),
{
    let user = match User::from_login(db, &req.email, &req.password) {
        Ok(user) => user,
        Err(e) => {
            return Err(e);
        },
    };
    proof {
        let users = db@.users;
        let i = choose|i: int| 0 <= i < users.len() && (#[trigger] users[i]).email == req.email@;
        lemma_user_id_pins(users, i);
    }
    let token = match user.create_token(db, now) {
        Ok(token) => token,
        Err(e) => {
            return Err(e);
        },
    };
    Ok(LoginUserResponse {
        id: uuid_to_string(user.id),
        username: user.username,
        email: user.email,
        is_admin: user.is_admin,
        token,
    })
}

/// The authenticated user's own record, with the id rendered and the
/// password hash left behind.
pub fn get_self(user: &User) -> (r: UserSelfResponse)
    ensures
        r.id@ == spec_uuid_str(user@.id),
        r.username@ == user@.username,
        r.email@ == user@.email,
        r.is_admin == user@.is_admin,
{
    UserSelfResponse {
        id: uuid_to_string(user.id),
        username: user.username.clone(),
        email: user.email.clone(),
        is_admin: user.is_admin,
    }
}

} // verus!
