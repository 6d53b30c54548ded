//! The library-wide laws: what holds across operations, proved over
//! the model the operations' own contracts speak of.
use crate::crypto::phc_check;
use crate::crypto::phc_prefixed;
use crate::db::DbView;
use crate::db::has_recipe;
use crate::db::has_token;
use crate::db::lemma_recipe_pins;
use crate::db::lemma_token_pins;
use crate::db::lemma_user_email_pins;
use crate::db::recipe_index;
use crate::db::recipes_distinct;
use crate::db::user_with_id;
use crate::db::wf;
use crate::models::user::spec_login;
use crate::models::user::spec_validate_token;
use vstd::prelude::*;

verus! {

/// Registration round trip: a stored user whose hash verifies against
/// a password — which `User::create` guarantees for the password it
/// was given — is exactly who logging in with that email and password
/// returns.
pub proof fn lemma_create_then_verify(db: DbView, i: int, password: Seq<char>)
    requires
        wf(db),
        0 <= i < db.users.len(),
        phc_check(db.users[i].password, password) == Some(true),
    ensures
        spec_login(db, db.users[i].email, password) == Ok::<_, crate::error::AppErrorKind>(
            db.users[i],
        ),
{
    lemma_user_email_pins(db.users, i);
}

/// A stored hash never equals the plaintext it came from, for any
/// plaintext that does not itself open with `$argon2` — as every
/// encoded hash does.
pub proof fn lemma_stored_hash_not_plaintext(hash: Seq<char>, password: Seq<char>)
    requires
        phc_prefixed(hash),
        !phc_prefixed(password),
    ensures
        hash != password,
{
}

/// Token round trip: a stored token — which `create_token` guarantees
/// for the token it returns — validates to the user it was issued to.
pub proof fn lemma_issue_then_validate(db: DbView, i: int)
    requires
        wf(db),
        0 <= i < db.tokens.len(),
    ensures
        spec_validate_token(db, db.tokens[i].token) == Some(
            user_with_id(db.users, db.tokens[i].user_id),
        ),
{
    lemma_token_pins(db.tokens, i);
}

/// A token that is not stored validates to nobody; `from_token` then
/// answers unauthorized.
pub proof fn lemma_unknown_token_rejected(db: DbView, token: Seq<char>)
    requires
        !has_token(db.tokens, token),
    ensures
        spec_validate_token(db, token) is None,
{
}

/// Deletion is complete: removing the row a recipe id selects leaves
/// no row with that id, so a fetch after a delete answers not-found.
pub proof fn lemma_delete_then_fetch(db: DbView, id: u128)
    requires
        recipes_distinct(db.recipes),
        has_recipe(db.recipes, id),
    ensures
        !has_recipe(db.recipes.remove(recipe_index(db.recipes, id)), id),
{
    let ix = recipe_index(db.recipes, id);
    assert(0 <= ix < db.recipes.len() && db.recipes[ix].metadata.id == id);
    let removed = db.recipes.remove(ix);
    assert forall|k: int| 0 <= k < removed.len() implies (#[trigger] removed[k]).metadata.id
        != id by {
        if k < ix {
            assert(removed[k] == db.recipes[k]);
            lemma_recipe_pins(db.recipes, k);
        } else {
            assert(removed[k] == db.recipes[k + 1]);
            lemma_recipe_pins(db.recipes, k + 1);
        }
    }
}

} // verus!
