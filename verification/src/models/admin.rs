//! The administrator capability: a user whose admin flag was checked.
use crate::db::Db;
use crate::db::wf;
use crate::error::AppError;
use crate::error::AppErrorKind;
use crate::models::user::User;
use crate::models::user::UserView;
use crate::models::user::spec_validate_token;
use crate::models::user::token_bump;
use crate::text::spec_strip_bearer;
use vstd::prelude::*;

verus! {

/// Witness that the wrapped user passed the admin gate.
#[derive(Debug)]
pub struct Admin {
    pub user: User,
}

impl View for Admin {
    type V = UserView;

    open spec fn view(&self) -> UserView {
        self.user@
    }
}

impl Admin {
    /// The stricter of the two capability checks: an authenticated
    /// user is an administrator exactly when the admin flag is set;
    /// anyone else is turned away as unauthorized.
    pub fn from_user(user: User) -> (r: Result<Admin, AppError>)
        ensures
            user@.is_admin ==> r is Ok && r->Ok_0@ == user@,
            !user@.is_admin ==> r is Err && r->Err_0.kind
                == crate::error::AppErrorKind::Unauthorized,
    {
        if user.is_admin {
            Ok(Admin { user })
        } else {
            Err(AppError::unauthorized("user is not an admin"))
        }
    }

    /// Admin extraction: the same header-and-token extraction as for a
    /// user, narrowed by the admin flag. A valid token of a
    /// non-administrator is turned away as unauthorized — after its
    /// use was recorded, as any validation records it.
    pub fn from_request_parts(db: &mut Db, header: Option<&String>, now: i64) -> (r: Result<
        Admin,
        AppError,
    >)
        requires
            wf(old(db)@),
        ensures
            wf(final(db)@),
            header is None ==> r is Err && r->Err_0.kind == AppErrorKind::Unauthorized && final(db)@ == old(db)@,
            header matches Some(h) ==> match spec_validate_token(old(db)@, spec_strip_bearer(h@)) {
                None => r is Err && r->Err_0.kind == AppErrorKind::Unauthorized && final(db)@
                    == old(db)@,
                Some(u) => final(db)@ == token_bump(old(db)@, spec_strip_bearer(h@), now) && (if u.is_admin {
                    r is Ok && r->Ok_0@ == u
                } else {
                    r is Err && r->Err_0.kind == AppErrorKind::Unauthorized
                }),
            },
    {
        let user = match User::from_request_parts(db, header, now) {
            Ok(user) => user,
            Err(e) => {
                return Err(e);
            },
        };
        Admin::from_user(user)
    }
}

} // verus!
