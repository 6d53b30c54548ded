//! The model of the persistent state: four tables and the invariant
//! that holds between them. Every store operation is specified against
//! this model.
use crate::models::image::Image;
use crate::models::recipe::Recipe;
use crate::models::recipe::RecipeView;
use crate::models::recipe::valid_recipe;
use crate::models::user::Token;
use crate::models::user::TokenView;
use crate::models::user::User;
use crate::models::user::UserView;
use vstd::prelude::*;

verus! {

/// The whole persistent state: users, their bearer tokens, recipe
/// aggregates and the image ledger.
#[derive(Debug)]
pub struct Db {
    pub users: Vec<User>,
    pub tokens: Vec<Token>,
    pub recipes: Vec<Recipe>,
    pub images: Vec<Image>,
}

/// The mathematical value of the persistent state.
pub ghost struct DbView {
    pub users: Seq<UserView>,
    pub tokens: Seq<TokenView>,
    pub recipes: Seq<RecipeView>,
    pub images: Seq<Image>,
}

/// The values of a user table.
pub open spec fn user_views(s: Seq<User>) -> Seq<UserView> {
    s.map_values(|u: User| u@)
}

/// The values of a token table.
pub open spec fn token_views(s: Seq<Token>) -> Seq<TokenView> {
    s.map_values(|t: Token| t@)
}

/// The values of a recipe table.
pub open spec fn recipe_views(s: Seq<Recipe>) -> Seq<RecipeView> {
    s.map_values(|r: Recipe| r@)
}

impl View for Db {
    type V = DbView;

    open spec fn view(&self) -> DbView {
        DbView {
            users: user_views(self.users@),
            tokens: token_views(self.tokens@),
            recipes: recipe_views(self.recipes@),
            images: self.images@,
        }
    }
}

pub broadcast proof fn lemma_user_views_index(s: Seq<User>, k: int)
    requires
        0 <= k < s.len(),
    ensures
        #[trigger] user_views(s)[k] == s[k]@,
{
}

pub broadcast proof fn lemma_token_views_index(s: Seq<Token>, k: int)
    requires
        0 <= k < s.len(),
    ensures
        #[trigger] token_views(s)[k] == s[k]@,
{
}

pub broadcast proof fn lemma_recipe_views_index(s: Seq<Recipe>, k: int)
    requires
        0 <= k < s.len(),
    ensures
        #[trigger] recipe_views(s)[k] == s[k]@,
{
}

/// Mapping to values commutes with appending a row.
pub proof fn lemma_user_views_push(s: Seq<User>, x: User)
    ensures
        user_views(s.push(x)) =~= user_views(s).push(x@),
{
}

/// Mapping to values commutes with appending a row.
pub proof fn lemma_token_views_push(s: Seq<Token>, x: Token)
    ensures
        token_views(s.push(x)) =~= token_views(s).push(x@),
{
}

/// Mapping to values commutes with appending a row.
pub proof fn lemma_recipe_views_push(s: Seq<Recipe>, x: Recipe)
    ensures
        recipe_views(s.push(x)) =~= recipe_views(s).push(x@),
{
}

/// Mapping to values commutes with removing a row.
pub proof fn lemma_recipe_views_remove(s: Seq<Recipe>, i: int)
    requires
        0 <= i < s.len(),
    ensures
        recipe_views(s.remove(i)) =~= recipe_views(s).remove(i),
{
    assert forall|k: int| 0 <= k < s.remove(i).len() implies recipe_views(s.remove(i))[k]
        == recipe_views(s).remove(i)[k] by {
        if k < i {
            assert(s.remove(i)[k] == s[k]);
        } else {
            assert(s.remove(i)[k] == s[k + 1]);
        }
    }
}

// ---------------------------------------------------------------------------
// Lookups, as the specifications speak of them.
// ---------------------------------------------------------------------------

pub open spec fn has_user_with_id(users: Seq<UserView>, id: u128) -> bool {
    exists|i: int| 0 <= i < users.len() && (#[trigger] users[i]).id == id
}

/// The user with the given id; meaningful under `users_distinct`.
pub open spec fn user_with_id(users: Seq<UserView>, id: u128) -> UserView {
    users[choose|i: int| 0 <= i < users.len() && (#[trigger] users[i]).id == id]
}

pub open spec fn has_user_with_username(users: Seq<UserView>, username: Seq<char>) -> bool {
    exists|i: int| 0 <= i < users.len() && (#[trigger] users[i]).username == username
}

pub open spec fn has_user_with_email(users: Seq<UserView>, email: Seq<char>) -> bool {
    exists|i: int| 0 <= i < users.len() && (#[trigger] users[i]).email == email
}

/// The user with the given email; meaningful under `users_distinct`.
pub open spec fn user_with_email(users: Seq<UserView>, email: Seq<char>) -> UserView {
    users[choose|i: int| 0 <= i < users.len() && (#[trigger] users[i]).email == email]
}

pub open spec fn has_token(tokens: Seq<TokenView>, token: Seq<char>) -> bool {
    exists|i: int| 0 <= i < tokens.len() && (#[trigger] tokens[i]).token == token
}

/// The index of the token row; meaningful under `tokens_distinct`.
pub open spec fn token_index(tokens: Seq<TokenView>, token: Seq<char>) -> int {
    choose|i: int| 0 <= i < tokens.len() && (#[trigger] tokens[i]).token == token
}

pub open spec fn has_recipe(recipes: Seq<RecipeView>, id: u128) -> bool {
    exists|i: int| 0 <= i < recipes.len() && (#[trigger] recipes[i]).metadata.id == id
}

/// The index of the recipe; meaningful under `recipes_distinct`.
pub open spec fn recipe_index(recipes: Seq<RecipeView>, id: u128) -> int {
    choose|i: int| 0 <= i < recipes.len() && (#[trigger] recipes[i]).metadata.id == id
}

/// The recipe with the given id; meaningful under `recipes_distinct`.
pub open spec fn recipe_with_id(recipes: Seq<RecipeView>, id: u128) -> RecipeView {
    recipes[recipe_index(recipes, id)]
}

pub open spec fn has_image(images: Seq<Image>, id: u128) -> bool {
    exists|i: int| 0 <= i < images.len() && (#[trigger] images[i]).id == id
}

// ---------------------------------------------------------------------------
// The invariant.
// ---------------------------------------------------------------------------

/// No two users share an id, a username or an email.
pub open spec fn users_distinct(users: Seq<UserView>) -> bool {
    forall|i: int, j: int|
        #![trigger users[i], users[j]]
        0 <= i < j < users.len() ==> users[i].id != users[j].id && users[i].username
            != users[j].username && users[i].email != users[j].email
}

/// Token strings are globally unique.
pub open spec fn tokens_distinct(tokens: Seq<TokenView>) -> bool {
    forall|i: int, j: int|
        #![trigger tokens[i], tokens[j]]
        0 <= i < j < tokens.len() ==> tokens[i].token != tokens[j].token
}

/// Every token belongs to a stored user.
pub open spec fn tokens_reference_users(db: DbView) -> bool {
    forall|i: int|
        0 <= i < db.tokens.len() ==> has_user_with_id(db.users, (#[trigger] db.tokens[i]).user_id)
}

/// No two recipes share an id.
pub open spec fn recipes_distinct(recipes: Seq<RecipeView>) -> bool {
    forall|i: int, j: int|
        #![trigger recipes[i], recipes[j]]
        0 <= i < j < recipes.len() ==> recipes[i].metadata.id != recipes[j].metadata.id
}

/// Every stored recipe was accepted at creation and names a stored
/// author.
pub open spec fn recipes_ok(db: DbView) -> bool {
    forall|i: int|
        0 <= i < db.recipes.len() ==> valid_recipe(#[trigger] db.recipes[i]) && has_user_with_id(
            db.users,
            db.recipes[i].metadata.author,
        )
}

/// No two ledger entries share an image id.
pub open spec fn images_distinct(images: Seq<Image>) -> bool {
    forall|i: int, j: int|
        #![trigger images[i], images[j]]
        0 <= i < j < images.len() ==> images[i].id != images[j].id
}

/// Well-formedness of the whole state: what the schema's constraints
/// guarantee, carried as the store's invariant.
pub open spec fn wf(db: DbView) -> bool {
    users_distinct(db.users) && tokens_distinct(db.tokens) && tokens_reference_users(db)
        && recipes_distinct(db.recipes) && recipes_ok(db) && images_distinct(db.images)
}

impl Db {
    /// A fresh, empty state.
    pub fn new() -> (db: Db)
        ensures
            db@.users == Seq::<UserView>::empty(),
            db@.tokens == Seq::<TokenView>::empty(),
            db@.recipes == Seq::<RecipeView>::empty(),
            db@.images == Seq::<Image>::empty(),
            wf(db@),
    {
        let db = Db { users: Vec::new(), tokens: Vec::new(), recipes: Vec::new(), images: Vec::new() };
        proof {
            assert(db@.users =~= Seq::<UserView>::empty());
            assert(db@.tokens =~= Seq::<TokenView>::empty());
            assert(db@.recipes =~= Seq::<RecipeView>::empty());
            assert(db@.images =~= Seq::<Image>::empty());
        }
        db
    }
}

// ---------------------------------------------------------------------------
// Uniqueness pins the chosen witnesses down.
// ---------------------------------------------------------------------------

/// Under distinctness, any stored user is the one its id selects.
pub proof fn lemma_user_id_pins(users: Seq<UserView>, i: int)
    requires
        users_distinct(users),
        0 <= i < users.len(),
    ensures
        has_user_with_id(users, users[i].id),
        user_with_id(users, users[i].id) == users[i],
{
    let id = users[i].id;
    assert(has_user_with_id(users, id));
    let j = choose|j: int| 0 <= j < users.len() && (#[trigger] users[j]).id == id;
    if i != j {
        if i < j {
            assert(users[i].id != users[j].id);
        } else {
            assert(users[j].id != users[i].id);
        }
    }
}

/// Under distinctness, any stored user is the one its email selects.
pub proof fn lemma_user_email_pins(users: Seq<UserView>, i: int)
    requires
        users_distinct(users),
        0 <= i < users.len(),
    ensures
        has_user_with_email(users, users[i].email),
        user_with_email(users, users[i].email) == users[i],
{
    let email = users[i].email;
    assert(has_user_with_email(users, email));
    let j = choose|j: int| 0 <= j < users.len() && (#[trigger] users[j]).email == email;
    if i != j {
        if i < j {
            assert(users[i].email != users[j].email);
        } else {
            assert(users[j].email != users[i].email);
        }
    }
}

/// Under distinctness, any stored token row is the one its string
/// selects.
pub proof fn lemma_token_pins(tokens: Seq<TokenView>, i: int)
    requires
        tokens_distinct(tokens),
        0 <= i < tokens.len(),
    ensures
        has_token(tokens, tokens[i].token),
        token_index(tokens, tokens[i].token) == i,
{
    let token = tokens[i].token;
    assert(has_token(tokens, token));
    let j = token_index(tokens, token);
    if i != j {
        if i < j {
            assert(tokens[i].token != tokens[j].token);
        } else {
            assert(tokens[j].token != tokens[i].token);
        }
    }
}

/// Under distinctness, any stored recipe is the one its id selects.
pub proof fn lemma_recipe_pins(recipes: Seq<RecipeView>, i: int)
    requires
        recipes_distinct(recipes),
        0 <= i < recipes.len(),
    ensures
        has_recipe(recipes, recipes[i].metadata.id),
        recipe_index(recipes, recipes[i].metadata.id) == i,
{
    let id = recipes[i].metadata.id;
    assert(has_recipe(recipes, id));
    let j = recipe_index(recipes, id);
    if i != j {
        if i < j {
            assert(recipes[i].metadata.id != recipes[j].metadata.id);
        } else {
            assert(recipes[j].metadata.id != recipes[i].metadata.id);
        }
    }
}

} // verus!
