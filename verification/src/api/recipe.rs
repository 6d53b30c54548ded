//! Recipe routes: creation behind the authentication gate, public
//! fetching and listing.
use crate::db::Db;
use crate::db::has_recipe;
use crate::db::has_user_with_id;
use crate::db::recipe_index;
use crate::db::recipe_with_id;
use crate::db::user_with_id;
use crate::db::wf;
use crate::error::AppError;
use crate::error::AppErrorKind;
use crate::models::recipe::Recipe;
use crate::models::recipe::RecipeCreation;
use crate::models::recipe::RecipeListSort;
use crate::models::recipe::RecipeMetadata;
use crate::models::recipe::valid_creation;
use crate::models::user::User;
use crate::text::spec_parse_u64;
use crate::text::parse_u64;
use vstd::prelude::*;
use vstd::string::StringExecFns;

verus! {

/// Creates a recipe for the authenticated user and returns the fresh
/// aggregate's id. Validation failures are `BadRequest` and persist
/// nothing.
pub fn create_recipe(db: &mut Db, user: &User, data: &RecipeCreation, now: i64) -> (r: Result<
    u128,
    AppError,
>)
    requires
        wf(old(db)@),
        has_user_with_id(old(db)@.users, user@.id),
    ensures
        wf(final(db)@),
        r is Err ==> final(db)@ == old(db)@,
        !valid_creation(data@) ==> r is Err && r->Err_0.kind == AppErrorKind::BadRequest,
        valid_creation(data@) && r is Err ==> r->Err_0.kind == AppErrorKind::InternalServerError,
        r is Ok ==> valid_creation(data@) && ({
            let created = final(db)@.recipes.last();
            final(db)@.recipes == old(db)@.recipes.push(created) && !has_recipe(
                old(db)@.recipes,
                r->Ok_0,
            ) && created.metadata.id == r->Ok_0 && created.metadata.title == data@.title
                && created.metadata.author == user@.id && created.metadata.created_at == now
                && created.ingredients == data@.ingredients && created.steps == data@.steps
                && final(db)@.users == old(db)@.users && final(db)@.tokens == old(db)@.tokens
                && final(db)@.images == old(db)@.images
        }),
{
    match Recipe::create(db, &user.id, data, now) {
        Ok(created) => Ok(created.metadata.id),
        Err(e) => Err(e),
    }
}

/// A fetched recipe together with its author's username.
#[derive(Debug)]
pub struct GetRecipeResponse {
    pub recipe: Recipe,
    pub author: String,
}

/// Fetches a recipe and resolves its author's name; `NotFound` exactly
/// when no such recipe is stored.
pub fn get_recipe(db: &Db, id: &u128) -> (r: Result<GetRecipeResponse, AppError>)
    requires
        wf(db@),
    ensures
        !has_recipe(db@.recipes, *id) ==> r is Err && r->Err_0.kind == AppErrorKind::NotFound,
        has_recipe(db@.recipes, *id) ==> r is Ok && ({
            let stored = recipe_with_id(db@.recipes, *id);
            r->Ok_0.recipe@ == stored && r->Ok_0.author@ == user_with_id(
                db@.users,
                stored.metadata.author,
            ).username
        }),
{
    let recipe = match Recipe::from_uuid(db, id) {
        Ok(recipe) => recipe,
        Err(e) => {
            return Err(e);
        },
    };
    proof {
        let ix = recipe_index(db@.recipes, *id);
        assert(db@.recipes[ix] == recipe@);
        assert(has_user_with_id(db@.users, recipe@.metadata.author));
    }
    let author = match User::from_uuid(db, &recipe.metadata.author) {
        Ok(author) => author,
        Err(_) => {
            proof {
                assert(false);
            }
            return Err(AppError::not_found("Recipe not found"));
        },
    };
    Ok(GetRecipeResponse { recipe, author: author.username })
}

/// The limit a listing request asks for: a parseable number, or ten.
pub open spec fn spec_limit_of(p: Option<&String>) -> u64 {
    match p {
        None => 10,
        Some(s) => match spec_parse_u64(s@) {
            Some(v) => v,
            None => 10,
        },
    }
}

/// The order a listing request asks for; anything unrecognized is
/// creation-time ascending.
pub open spec fn spec_order_of(p: Option<&String>) -> RecipeListSort {
    match p {
        None => RecipeListSort::DateAscending,
        Some(s) => if s@ == "a-z"@ {
            RecipeListSort::NameAscending
        } else if s@ == "z-a"@ {
            RecipeListSort::NameDescending
        } else if s@ == "newest"@ {
            RecipeListSort::DateDescending
        } else {
            RecipeListSort::DateAscending
        },
    }
}

/// Reads the `limit` query parameter; a missing or unparseable value
/// falls back to ten.
pub fn parse_limit(p: Option<&String>) -> (r: u64)
    ensures
        r == spec_limit_of(p),
{
    match p {
        None => 10,
        Some(s) => match parse_u64(s.as_str()) {
            Some(v) => v,
            None => 10,
        },
    }
}

/// Reads the `order` query parameter into the closed enumeration of
/// orders; anything unrecognized is creation-time ascending.
pub fn parse_sort_order(p: Option<&String>) -> (r: RecipeListSort)
    ensures
        r == spec_order_of(p),
{
    match p {
        None => RecipeListSort::DateAscending,
        Some(s) => {
            let a_z = String::from_str("a-z");
            let z_a = String::from_str("z-a");
            let newest = String::from_str("newest");
            if s.eq(&a_z) {
                RecipeListSort::NameAscending
            } else if s.eq(&z_a) {
                RecipeListSort::NameDescending
            } else if s.eq(&newest) {
                RecipeListSort::DateDescending
            } else {
                RecipeListSort::DateAscending
            }
        },
    }
}

/// Lists recipe metadata as the route does: both query parameters
/// optional, with their defaults, then the verified listing.
pub fn list_recipes(db: &Db, limit_param: Option<&String>, order_param: Option<&String>) -> (r:
    Result<Vec<RecipeMetadata>, AppError>)
    ensures
        r is Ok,
        ({
            let all = crate::models::recipe::all_metadata(db@.recipes);
            let out = crate::models::recipe::metadata_views(r->Ok_0@);
            let lim = spec_limit_of(limit_param);
            let ord = spec_order_of(order_param);
            &&& out.len() == if lim as int <= all.len() {
                lim as int
            } else {
                all.len() as int
            }
            &&& crate::models::recipe::sorted_by_ord(out, ord)
            &&& exists|s: Seq<crate::models::recipe::MetadataView>|
                s.to_multiset() == all.to_multiset() && crate::models::recipe::sorted_by_ord(
                    s,
                    ord,
                ) && out == s.take(out.len() as int)
        }),
{
    let limit = parse_limit(limit_param);
    let ordering = parse_sort_order(order_param);
    Recipe::list_brief(db, limit, ordering)
}

} // verus!
