//! Administrator routes: listing users and deleting recipes, both
//! behind the admin capability gate.
use crate::db::Db;
use crate::db::has_recipe;
use crate::db::recipe_index;
use crate::db::wf;
use crate::error::AppError;
use crate::error::AppErrorKind;
use crate::ids::spec_uuid_str;
use crate::ids::uuid_to_string;
use crate::models::admin::Admin;
use crate::models::recipe::Recipe;
use crate::models::user::User;
use vstd::prelude::*;

verus! {

/// One user as the admin listing shows it: public fields only, the
/// stored password hash left behind.
#[derive(Debug)]
pub struct UserViewResponseEntry {
    pub id: String,
    pub username: String,
    pub email: String,
    pub is_admin: bool,
}

/// Lists every stored user for an administrator, ids rendered and
/// passwords omitted.
pub fn get_users(db: &Db, admin: &Admin) -> (r: Vec<UserViewResponseEntry>)
    ensures
        r@.len() == db@.users.len(),
        forall|i: int|
            0 <= i < r@.len() ==> (#[trigger] r@[i]).id@ == spec_uuid_str(db@.users[i].id)
                && r@[i].username@ == db@.users[i].username && r@[i].email@ == db@.users[i].email
                && r@[i].is_admin == db@.users[i].is_admin,
{
    broadcast use crate::db::lemma_user_views_index;

    let users = User::get_all(db);
    let n = users.len();
    let mut out: Vec<UserViewResponseEntry> = Vec::new();
    let mut i: usize = 0;
    while i < n
        invariant
            0 <= i <= n,
            n == users@.len(),
            crate::db::user_views(users@) == db@.users,
            out@.len() == i,
            forall|k: int|
                0 <= k < i ==> (#[trigger] out@[k]).id@ == spec_uuid_str(db@.users[k].id)
                    && out@[k].username@ == db@.users[k].username && out@[k].email@
                    == db@.users[k].email && out@[k].is_admin == db@.users[k].is_admin,
        decreases n - i,
    {
        let entry = UserViewResponseEntry {
            id: uuid_to_string(users[i].id),
            username: users[i].username.clone(),
            email: users[i].email.clone(),
            is_admin: users[i].is_admin,
        };
        proof {
            assert(crate::db::user_views(users@)[i as int] == users@[i as int]@);
        }
        out.push(entry);
        i = i + 1;
    }
    out
}

/// Deletes a recipe on an administrator's behalf: `NotFound` when no
/// such recipe is stored, otherwise the aggregate is gone afterwards.
pub fn delete_recipe(db: &mut Db, admin: &Admin, id: &u128) -> (r: Result<(), AppError>)
    requires
        wf(old(db)@),
    ensures
        wf(final(db)@),
        !has_recipe(old(db)@.recipes, *id) ==> r is Err && r->Err_0.kind == AppErrorKind::NotFound
            && final(db)@ == old(db)@,
        has_recipe(old(db)@.recipes, *id) ==> r is Ok && !has_recipe(final(db)@.recipes, *id)
            && final(db)@.recipes == old(db)@.recipes.remove(
            recipe_index(old(db)@.recipes, *id),
        ) && final(db)@.users == old(db)@.users && final(db)@.tokens == old(db)@.tokens && final(db)@.images == old(db)@.images,
{
    let recipe = match Recipe::from_uuid(db, id) {
        Ok(recipe) => recipe,
        Err(e) => {
            return Err(e);
        },
    };
    proof {
        let ix = recipe_index(db@.recipes, *id);
        assert(recipe@ == db@.recipes[ix]);
        assert(recipe@.metadata.id == *id);
    }
    match recipe.delete(db) {
        Ok(()) => Ok(()),
        Err(e) => Err(e),
    }
}

} // verus!
