//! The recipe aggregate: metadata plus ordered ingredients and steps,
//! created, fetched, listed and deleted as one unit.
use crate::crypto::random_uuid;
use crate::db::Db;
use crate::db::has_recipe;
use crate::db::has_user_with_id;
use crate::db::lemma_recipe_pins;
use crate::db::lemma_recipe_views_push;
use crate::db::lemma_recipe_views_remove;
use crate::db::recipe_index;
use crate::db::recipe_views;
use crate::db::recipe_with_id;
use crate::db::wf;
use crate::error::AppError;
use crate::error::AppErrorKind;
use crate::text::lemma_lex_le_total;
use crate::text::lemma_lex_le_trans;
use crate::text::lex_le;
use crate::text::str_lex_le;
use vstd::prelude::*;

verus! {

/// An exact decimal quantity: `mantissa` scaled down by ten to the
/// `scale`. Negative exactly when the mantissa is negative.
#[derive(Clone, Copy, Debug, PartialEq, Eq, Structural)]
pub struct Decimal {
    pub mantissa: i64,
    pub scale: u32,
}

impl Decimal {
    pub open spec fn spec_is_negative(&self) -> bool {
        self.mantissa < 0
    }

    /// Whether the quantity is below zero.
    pub fn is_negative(&self) -> (r: bool)
        ensures
            r == self.spec_is_negative(),
    {
        self.mantissa < 0
    }
}

/// One ingredient of a recipe, in order.
#[derive(Debug)]
pub struct RecipeIngredient {
    pub quantity: Decimal,
    pub unit: String,
    pub name: String,
}

/// The mathematical value of a `RecipeIngredient`.
pub ghost struct IngredientView {
    pub quantity: Decimal,
    pub unit: Seq<char>,
    pub name: Seq<char>,
}

impl View for RecipeIngredient {
    type V = IngredientView;

    open spec fn view(&self) -> IngredientView {
        IngredientView { quantity: self.quantity, unit: self.unit@, name: self.name@ }
    }
}

impl RecipeIngredient {
    /// An exact copy.
    pub fn duplicate(&self) -> (r: RecipeIngredient)
        ensures
            r@ == self@,
    {
        RecipeIngredient {
            quantity: self.quantity,
            unit: self.unit.clone(),
            name: self.name.clone(),
        }
    }
}

/// One step of a recipe, in order.
#[derive(Debug)]
pub struct RecipeStep {
    pub description: String,
    pub image_id: Option<u128>,
}

/// The mathematical value of a `RecipeStep`.
pub ghost struct StepView {
    pub description: Seq<char>,
    pub image_id: Option<u128>,
}

impl View for RecipeStep {
    type V = StepView;

    open spec fn view(&self) -> StepView {
        StepView { description: self.description@, image_id: self.image_id }
    }
}

impl RecipeStep {
    /// An exact copy.
    pub fn duplicate(&self) -> (r: RecipeStep)
        ensures
            r@ == self@,
    {
        RecipeStep { description: self.description.clone(), image_id: self.image_id }
    }
}

/// The values of an ingredient list.
pub open spec fn ingredient_views(s: Seq<RecipeIngredient>) -> Seq<IngredientView> {
    s.map_values(|x: RecipeIngredient| x@)
}

/// The values of a step list.
pub open spec fn step_views(s: Seq<RecipeStep>) -> Seq<StepView> {
    s.map_values(|x: RecipeStep| x@)
}

pub broadcast proof fn lemma_ingredient_views_index(s: Seq<RecipeIngredient>, k: int)
    requires
        0 <= k < s.len(),
    ensures
        #[trigger] ingredient_views(s)[k] == s[k]@,
{
}

pub broadcast proof fn lemma_step_views_index(s: Seq<RecipeStep>, k: int)
    requires
        0 <= k < s.len(),
    ensures
        #[trigger] step_views(s)[k] == s[k]@,
{
}

/// Mapping to values commutes with appending an ingredient.
pub proof fn lemma_ingredient_views_push(s: Seq<RecipeIngredient>, x: RecipeIngredient)
    ensures
        ingredient_views(s.push(x)) =~= ingredient_views(s).push(x@),
{
}

/// Mapping to values commutes with appending a step.
pub proof fn lemma_step_views_push(s: Seq<RecipeStep>, x: RecipeStep)
    ensures
        step_views(s.push(x)) =~= step_views(s).push(x@),
{
}

/// An exact copy of an ingredient list.
fn duplicate_ingredients(v: &Vec<RecipeIngredient>) -> (r: Vec<RecipeIngredient>)
    ensures
        ingredient_views(r@) == ingredient_views(v@),
{
    broadcast use lemma_ingredient_views_index;

    let n = v.len();
    let mut out: Vec<RecipeIngredient> = Vec::new();
    let mut i: usize = 0;
    while i < n
        invariant
            0 <= i <= n,
            n == v@.len(),
            ingredient_views(out@) == ingredient_views(v@).take(i as int),
        decreases n - i,
    {
        let dup = v[i].duplicate();
        proof {
            lemma_ingredient_views_push(out@, dup);
        }
        out.push(dup);
        proof {
            assert(ingredient_views(out@) =~= ingredient_views(v@).take(i as int + 1));
        }
        i = i + 1;
    }
    proof {
        assert(ingredient_views(v@).take(n as int) =~= ingredient_views(v@));
    }
    out
}

/// An exact copy of a step list.
fn duplicate_steps(v: &Vec<RecipeStep>) -> (r: Vec<RecipeStep>)
    ensures
        step_views(r@) == step_views(v@),
{
    broadcast use lemma_step_views_index;

    let n = v.len();
    let mut out: Vec<RecipeStep> = Vec::new();
    let mut i: usize = 0;
    while i < n
        invariant
            0 <= i <= n,
            n == v@.len(),
            step_views(out@) == step_views(v@).take(i as int),
        decreases n - i,
    {
        let dup = v[i].duplicate();
        proof {
            lemma_step_views_push(out@, dup);
        }
        out.push(dup);
        proof {
            assert(step_views(out@) =~= step_views(v@).take(i as int + 1));
        }
        i = i + 1;
    }
    proof {
        assert(step_views(v@).take(n as int) =~= step_views(v@));
    }
    out
}

/// The root row of a recipe aggregate.
#[derive(Debug)]
pub struct RecipeMetadata {
    pub id: u128,
    pub title: String,
    pub description: String,
    pub author: u128,
    pub image_id: Option<u128>,
    pub created_at: i64,
    pub edited_at: i64,
}

/// The mathematical value of a `RecipeMetadata`.
pub ghost struct MetadataView {
    pub id: u128,
    pub title: Seq<char>,
    pub description: Seq<char>,
    pub author: u128,
    pub image_id: Option<u128>,
    pub created_at: i64,
    pub edited_at: i64,
}

impl View for RecipeMetadata {
    type V = MetadataView;

    open spec fn view(&self) -> MetadataView {
        MetadataView {
            id: self.id,
            title: self.title@,
            description: self.description@,
            author: self.author,
            image_id: self.image_id,
            created_at: self.created_at,
            edited_at: self.edited_at,
        }
    }
}

impl RecipeMetadata {
    /// An exact copy.
    pub fn duplicate(&self) -> (r: RecipeMetadata)
        ensures
            r@ == self@,
    {
        RecipeMetadata {
            id: self.id,
            title: self.title.clone(),
            description: self.description.clone(),
            author: self.author,
            image_id: self.image_id,
            created_at: self.created_at,
            edited_at: self.edited_at,
        }
    }
}

/// A whole recipe aggregate: the metadata row plus the ordered
/// ingredient and step rows it owns.
#[derive(Debug)]
pub struct Recipe {
    pub metadata: RecipeMetadata,
    pub ingredients: Vec<RecipeIngredient>,
    pub steps: Vec<RecipeStep>,
}

/// The mathematical value of a `Recipe`.
pub ghost struct RecipeView {
    pub metadata: MetadataView,
    pub ingredients: Seq<IngredientView>,
    pub steps: Seq<StepView>,
}

impl View for Recipe {
    type V = RecipeView;

    open spec fn view(&self) -> RecipeView {
        RecipeView {
            metadata: self.metadata@,
            ingredients: ingredient_views(self.ingredients@),
            steps: step_views(self.steps@),
        }
    }
}

/// What a caller hands in to create a recipe; the id, author and
/// timestamps are assigned by the store.
#[derive(Debug)]
pub struct RecipeCreation {
    pub title: String,
    pub description: String,
    pub image_id: Option<u128>,
    pub ingredients: Vec<RecipeIngredient>,
    pub steps: Vec<RecipeStep>,
}

/// The mathematical value of a `RecipeCreation`.
pub ghost struct CreationView {
    pub title: Seq<char>,
    pub description: Seq<char>,
    pub image_id: Option<u128>,
    pub ingredients: Seq<IngredientView>,
    pub steps: Seq<StepView>,
}

impl View for RecipeCreation {
    type V = CreationView;

    open spec fn view(&self) -> CreationView {
        CreationView {
            title: self.title@,
            description: self.description@,
            image_id: self.image_id,
            ingredients: ingredient_views(self.ingredients@),
            steps: step_views(self.steps@),
        }
    }
}

/// The four orders a listing can be asked for.
#[derive(Clone, Copy, Debug, PartialEq, Eq, Structural)]
pub enum RecipeListSort {
    DateAscending,
    DateDescending,
    NameAscending,
    NameDescending,
}

/// A well-formed ingredient: named, with a unit, quantity not below
/// zero.
pub open spec fn valid_ingredient(i: IngredientView) -> bool {
    i.name.len() > 0 && i.unit.len() > 0 && !i.quantity.spec_is_negative()
}

/// A well-formed step: a non-empty description.
pub open spec fn valid_step(s: StepView) -> bool {
    s.description.len() > 0
}

/// What the store accepts at creation: a non-empty title, at least one
/// ingredient and one step, every ingredient and step well-formed.
pub open spec fn valid_creation(c: CreationView) -> bool {
    c.title.len() > 0 && c.ingredients.len() > 0 && c.steps.len() > 0 && (forall|i: int|
        0 <= i < c.ingredients.len() ==> valid_ingredient(#[trigger] c.ingredients[i])) && (forall|
        i: int,
    |
        0 <= i < c.steps.len() ==> valid_step(#[trigger] c.steps[i]))
}

/// The invariant every stored aggregate keeps: it was accepted at
/// creation.
pub open spec fn valid_recipe(r: RecipeView) -> bool {
    r.metadata.title.len() > 0 && r.ingredients.len() > 0 && r.steps.len() > 0 && (forall|i: int|
        0 <= i < r.ingredients.len() ==> valid_ingredient(#[trigger] r.ingredients[i])) && (forall|
        i: int,
    |
        0 <= i < r.steps.len() ==> valid_step(#[trigger] r.steps[i]))
}

impl Recipe {
    /// An exact copy of the whole aggregate.
    pub fn duplicate(&self) -> (r: Recipe)
        ensures
            r@ == self@,
    {
        Recipe {
            metadata: self.metadata.duplicate(),
            ingredients: duplicate_ingredients(&self.ingredients),
            steps: duplicate_steps(&self.steps),
        }
    }
}

/// All the creation checks, made before anything is written: an empty
/// title, an empty ingredient or step list, an ingredient without a
/// name or a unit or with a negative quantity, or a step without a
/// description each reject the request.
pub fn validate_creation(data: &RecipeCreation) -> (r: Result<(), AppError>)
    ensures
        r is Ok <==> valid_creation(data@),
        r is Err ==> r->Err_0.kind == AppErrorKind::BadRequest,
{
    broadcast use lemma_ingredient_views_index;
    broadcast use lemma_step_views_index;

    if data.title.as_str().is_empty() {
        return Err(AppError::bad_request("Title cannot be empty"));
    }
    let ing_n = data.ingredients.len();
    if ing_n == 0 {
        return Err(AppError::bad_request("Recipe must have at least one ingredient"));
    }
    let step_n = data.steps.len();
    if step_n == 0 {
        return Err(AppError::bad_request("Recipe must have at least one step"));
    }
    let mut i: usize = 0;
    while i < step_n
        invariant
            0 <= i <= step_n,
            step_n == data.steps@.len(),
            forall|k: int| 0 <= k < i ==> valid_step(#[trigger] step_views(data.steps@)[k]),
        decreases step_n - i,
    {
        if data.steps[i].description.as_str().is_empty() {
            assert(!valid_step(step_views(data.steps@)[i as int]));
            return Err(AppError::bad_request("Steps cannot be empty"));
        }
        i = i + 1;
    }
    let mut i: usize = 0;
    while i < ing_n
        invariant
            0 <= i <= ing_n,
            ing_n == data.ingredients@.len(),
            forall|k: int|
                0 <= k < i ==> valid_ingredient(#[trigger] ingredient_views(data.ingredients@)[k]),
        decreases ing_n - i,
    {
        if data.ingredients[i].name.as_str().is_empty() {
            assert(!valid_ingredient(ingredient_views(data.ingredients@)[i as int]));
            return Err(AppError::bad_request("Ingredient name cannot be empty"));
        }
        if data.ingredients[i].unit.as_str().is_empty() {
            assert(!valid_ingredient(ingredient_views(data.ingredients@)[i as int]));
            return Err(AppError::bad_request("Ingredient unit cannot be empty"));
        }
        if data.ingredients[i].quantity.is_negative() {
            assert(!valid_ingredient(ingredient_views(data.ingredients@)[i as int]));
            return Err(AppError::bad_request("Ingredient quantity cannot be negative"));
        }
        i = i + 1;
    }
    Ok(())
}

fn find_recipe(recipes: &Vec<Recipe>, id: u128) -> (r: Option<usize>)
    ensures
        match r {
            Some(i) => i < recipes@.len() && recipe_views(recipes@)[i as int].metadata.id == id
                && has_recipe(recipe_views(recipes@), id),
            None => !has_recipe(recipe_views(recipes@), id),
        },
{
    broadcast use crate::db::lemma_recipe_views_index;

    let n = recipes.len();
    let mut i: usize = 0;
    while i < n
        invariant
            0 <= i <= n,
            n == recipes@.len(),
            forall|k: int| 0 <= k < i ==> recipes@[k]@.metadata.id != id,
        decreases n - i,
    {
        if recipes[i].metadata.id == id {
            proof {
                assert(recipe_views(recipes@)[i as int] == recipes@[i as int]@);
            }
            return Some(i);
        }
        i = i + 1;
    }
    proof {
        let mapped = recipe_views(recipes@);
        assert forall|k: int| 0 <= k < mapped.len() implies (#[trigger] mapped[k]).metadata.id
            != id by {
            assert(mapped[k] == recipes@[k]@);
        }
    }
    None
}

impl Recipe {
    /// Creates the aggregate atomically: all the validation runs
    /// first, then either every row — metadata, each ingredient, each
    /// step — is persisted as one unit, or nothing is. The returned
    /// aggregate is re-fetched from the store, so it is exactly what
    /// was persisted.
    pub fn create(db: &mut Db, author: &u128, data: &RecipeCreation, now: i64) -> (r: Result<
        Recipe,
        AppError,
    >)
        requires
            wf(old(db)@),
            has_user_with_id(old(db)@.users, *author),
        ensures
            wf(final(db)@),
            r is Err ==> final(db)@ == old(db)@,
            !valid_creation(data@) ==> r is Err && r->Err_0.kind == AppErrorKind::BadRequest,
            valid_creation(data@) && r is Err ==> r->Err_0.kind
                == AppErrorKind::InternalServerError,
            r is Ok ==> valid_creation(data@) && !has_recipe(
                old(db)@.recipes,
                r->Ok_0@.metadata.id,
            ) && final(db)@.recipes == old(db)@.recipes.push(r->Ok_0@) && final(db)@.users == old(db)@.users && final(db)@.tokens == old(db)@.tokens && final(db)@.images == old(db)@.images
                && r->Ok_0@.metadata.title == data@.title && r->Ok_0@.metadata.description
                == data@.description && r->Ok_0@.metadata.author == *author
                && r->Ok_0@.metadata.image_id == data@.image_id && r->Ok_0@.metadata.created_at
                == now && r->Ok_0@.metadata.edited_at == now && r->Ok_0@.ingredients
                == data@.ingredients && r->Ok_0@.steps == data@.steps,
    {
        match validate_creation(data) {
            Err(e) => {
                return Err(e);
            },
            Ok(()) => {},
        }
        let id = random_uuid();
        if find_recipe(&db.recipes, id).is_some() {
            return Err(AppError::internal("Error creating recipe"));
        }
        let recipe = Recipe {
            metadata: RecipeMetadata {
                id,
                title: data.title.clone(),
                description: data.description.clone(),
                author: *author,
                image_id: data.image_id,
                created_at: now,
                edited_at: now,
            },
            ingredients: duplicate_ingredients(&data.ingredients),
            steps: duplicate_steps(&data.steps),
        };
        proof {
            lemma_recipe_views_push(db.recipes@, recipe);
            assert(valid_recipe(recipe@));
        }
        db.recipes.push(recipe);
        proof {
            assert(wf(db@));
            assert(db@.recipes[db@.recipes.len() - 1].metadata.id == id);
        }
        let result = match Recipe::from_uuid(db, &id) {
            Ok(result) => result,
            Err(_) => {
                proof {
                    assert(has_recipe(db@.recipes, id));
                    assert(false);
                }
                return Err(AppError::internal("Error creating recipe"));
            },
        };
        proof {
            lemma_recipe_pins(db@.recipes, db@.recipes.len() - 1);
        }
        Ok(result)
    }

    /// Fetches the whole aggregate, ingredients and steps in their
    /// stored order; `NotFound` exactly when no such recipe is stored.
    pub fn from_uuid(db: &Db, id: &u128) -> (r: Result<Recipe, AppError>)
        requires
            wf(db@),
        ensures
            has_recipe(db@.recipes, *id) ==> r is Ok && r->Ok_0@ == recipe_with_id(
                db@.recipes,
                *id,
            ),
            !has_recipe(db@.recipes, *id) ==> r is Err && r->Err_0.kind == AppErrorKind::NotFound,
    {
        match find_recipe(&db.recipes, *id) {
            Some(i) => {
                proof {
                    lemma_recipe_pins(db@.recipes, i as int);
                }
                Ok(db.recipes[i].duplicate())
            },
            None => Err(AppError::not_found("Recipe not found")),
        }
    }

    /// Hard-deletes the aggregate: afterwards no recipe with this id
    /// is stored; a missing row deletes nothing and still succeeds.
    pub fn delete(&self, db: &mut Db) -> (r: Result<(), AppError>)
        requires
            wf(old(db)@),
        ensures
            wf(final(db)@),
            r is Ok,
            !has_recipe(final(db)@.recipes, self.metadata.id),
            has_recipe(old(db)@.recipes, self.metadata.id) ==> final(db)@.recipes == old(db)@.recipes.remove(recipe_index(old(db)@.recipes, self.metadata.id)),
            !has_recipe(old(db)@.recipes, self.metadata.id) ==> final(db)@ == old(db)@,
            final(db)@.users == old(db)@.users && final(db)@.tokens == old(db)@.tokens && final(db)@.images == old(db)@.images,
    {
        let ix = match find_recipe(&db.recipes, self.metadata.id) {
            None => {
                return Ok(());
            },
            Some(ix) => ix,
        };
        proof {
            lemma_recipe_pins(old(db)@.recipes, ix as int);
            lemma_recipe_views_remove(db.recipes@, ix as int);
        }
        db.recipes.remove(ix);
        proof {
            let prev = old(db)@.recipes;
            let now_recipes = db@.recipes;
            assert(now_recipes == prev.remove(ix as int));
            assert forall|k: int|
                0 <= k < now_recipes.len() implies (#[trigger] now_recipes[k]).metadata.id
                != self.metadata.id by {
                if k < ix as int {
                    assert(now_recipes[k] == prev[k]);
                } else {
                    assert(now_recipes[k] == prev[k + 1]);
                }
            }
            assert forall|i: int, j: int|
                #![trigger now_recipes[i], now_recipes[j]]
                0 <= i < j < now_recipes.len() implies now_recipes[i].metadata.id
                != now_recipes[j].metadata.id by {
                let pi: int = if i < ix as int {
                    i
                } else {
                    i + 1
                };
                let pj: int = if j < ix as int {
                    j
                } else {
                    j + 1
                };
                assert(now_recipes[i] == prev[pi]);
                assert(now_recipes[j] == prev[pj]);
            }
            assert forall|i: int|
                0 <= i < now_recipes.len() implies valid_recipe(#[trigger] now_recipes[i])
                && has_user_with_id(db@.users, now_recipes[i].metadata.author) by {
                if i < ix as int {
                    assert(now_recipes[i] == prev[i]);
                } else {
                    assert(now_recipes[i] == prev[i + 1]);
                }
            }
            assert(wf(db@));
        }
        Ok(())
    }
}

// ---------------------------------------------------------------------------
// Listing: up to `max_count` metadata rows under one of four orders.
// ---------------------------------------------------------------------------

/// The values of a metadata list.
pub open spec fn metadata_views(s: Seq<RecipeMetadata>) -> Seq<MetadataView> {
    s.map_values(|x: RecipeMetadata| x@)
}

pub broadcast proof fn lemma_metadata_views_index(s: Seq<RecipeMetadata>, k: int)
    requires
        0 <= k < s.len(),
    ensures
        #[trigger] metadata_views(s)[k] == s[k]@,
{
}

/// Mapping to values commutes with inserting a row.
pub proof fn lemma_metadata_views_insert(s: Seq<RecipeMetadata>, j: int, x: RecipeMetadata)
    requires
        0 <= j <= s.len(),
    ensures
        metadata_views(s.insert(j, x)) =~= metadata_views(s).insert(j, x@),
{
    assert forall|k: int| 0 <= k < s.len() + 1 implies metadata_views(s.insert(j, x))[k]
        == metadata_views(s).insert(j, x@)[k] by {
        if k < j {
            assert(s.insert(j, x)[k] == s[k]);
        } else if k == j {
            assert(s.insert(j, x)[k] == x);
        } else {
            assert(s.insert(j, x)[k] == s[k - 1]);
        }
    }
}

/// The metadata rows of all stored recipes.
pub open spec fn all_metadata(recipes: Seq<RecipeView>) -> Seq<MetadataView> {
    recipes.map_values(|r: RecipeView| r.metadata)
}

/// The comparator each listing order stands for.
pub open spec fn meta_le(ord: RecipeListSort, a: MetadataView, b: MetadataView) -> bool {
    match ord {
        RecipeListSort::DateAscending => a.created_at <= b.created_at,
        RecipeListSort::DateDescending => b.created_at <= a.created_at,
        RecipeListSort::NameAscending => lex_le(a.title, b.title),
        RecipeListSort::NameDescending => lex_le(b.title, a.title),
    }
}

/// Sorted under the chosen order.
pub open spec fn sorted_by_ord(s: Seq<MetadataView>, ord: RecipeListSort) -> bool {
    forall|i: int, j: int|
        #![trigger s[i], s[j]]
        0 <= i < j < s.len() ==> meta_le(ord, s[i], s[j])
}

/// Each listing order is total.
pub proof fn lemma_meta_le_total(ord: RecipeListSort, a: MetadataView, b: MetadataView)
    ensures
        meta_le(ord, a, b) || meta_le(ord, b, a),
{
    match ord {
        RecipeListSort::NameAscending => lemma_lex_le_total(a.title, b.title),
        RecipeListSort::NameDescending => lemma_lex_le_total(a.title, b.title),
        _ => {},
    }
}

/// Each listing order is transitive.
pub proof fn lemma_meta_le_trans(
    ord: RecipeListSort,
    a: MetadataView,
    b: MetadataView,
    c: MetadataView,
)
    requires
        meta_le(ord, a, b),
        meta_le(ord, b, c),
    ensures
        meta_le(ord, a, c),
{
    match ord {
        RecipeListSort::NameAscending => lemma_lex_le_trans(a.title, b.title, c.title),
        RecipeListSort::NameDescending => lemma_lex_le_trans(c.title, b.title, a.title),
        _ => {},
    }
}

/// Decides the chosen order on two rows.
fn meta_le_exec(ord: &RecipeListSort, a: &RecipeMetadata, b: &RecipeMetadata) -> (r: bool)
    ensures
        r == meta_le(*ord, a@, b@),
{
    match ord {
        RecipeListSort::DateAscending => a.created_at <= b.created_at,
        RecipeListSort::DateDescending => b.created_at <= a.created_at,
        RecipeListSort::NameAscending => str_lex_le(a.title.as_str(), b.title.as_str()),
        RecipeListSort::NameDescending => str_lex_le(b.title.as_str(), a.title.as_str()),
    }
}

/// Insertion sort on metadata rows: the result is a sorted permutation
/// of the input.
fn sort_metadata(v: &Vec<RecipeMetadata>, ord: &RecipeListSort) -> (r: Vec<RecipeMetadata>)
    ensures
        metadata_views(r@).to_multiset() == metadata_views(v@).to_multiset(),
        sorted_by_ord(metadata_views(r@), *ord),
        r@.len() == v@.len(),
{
    broadcast use lemma_metadata_views_index;
    broadcast use vstd::seq_lib::to_multiset_build;
    broadcast use vstd::seq_lib::to_multiset_insert;
    broadcast use vstd::seq_lib::to_multiset_len;

    let n = v.len();
    let mut out: Vec<RecipeMetadata> = Vec::new();
    let mut i: usize = 0;
    proof {
        assert(metadata_views(out@) =~= Seq::<MetadataView>::empty());
        assert(metadata_views(v@).take(0) =~= Seq::<MetadataView>::empty());
    }
    while i < n
        invariant
            0 <= i <= n,
            n == v@.len(),
            out@.len() == i,
            metadata_views(out@).to_multiset() == metadata_views(v@).take(i as int).to_multiset(),
            sorted_by_ord(metadata_views(out@), *ord),
        decreases n - i,
    {
        let x = v[i].duplicate();
        let out_len = out.len();
        let mut j: usize = 0;
        while j < out_len && meta_le_exec(ord, &out[j], &x)
            invariant
                0 <= j <= out_len,
                out_len == out@.len(),
                n == v@.len(),
                i < n,
                x@ == v@[i as int]@,
                forall|k: int|
                    0 <= k < j ==> meta_le(*ord, #[trigger] metadata_views(out@)[k], x@),
            decreases out_len - j,
        {
            j = j + 1;
        }
        proof {
            if j < out_len {
                lemma_meta_le_total(*ord, metadata_views(out@)[j as int], x@);
            }
            lemma_metadata_views_insert(out@, j as int, x);
        }
        let ghost prev = metadata_views(out@);
        out.insert(j, x);
        proof {
            let cur = metadata_views(out@);
            assert(cur == prev.insert(j as int, x@));
            // The inserted row sits between what is at most it and what
            // it is at most.
            assert forall|a: int, b: int|
                #![trigger cur[a], cur[b]]
                0 <= a < b < cur.len() implies meta_le(*ord, cur[a], cur[b]) by {
                let pa: int = if a < j as int {
                    a
                } else {
                    a - 1
                };
                let pb: int = if b < j as int {
                    b
                } else {
                    b - 1
                };
                if a == j as int {
                    // cur[a] is the new row; b > j, so cur[b] is prev[b-1]
                    // with j <= b-1.
                    if j < out_len {
                        if pb == j as int {
                            assert(meta_le(*ord, x@, prev[pb]));
                        } else {
                            assert(meta_le(*ord, x@, prev[j as int]));
                            assert(meta_le(*ord, prev[j as int], prev[pb]));
                            lemma_meta_le_trans(*ord, x@, prev[j as int], prev[pb]);
                        }
                    }
                } else if b == j as int {
                    assert(cur[a] == prev[pa]);
                    assert(meta_le(*ord, prev[pa], x@));
                } else {
                    assert(cur[a] == prev[pa]);
                    assert(cur[b] == prev[pb]);
                }
            }
            assert(metadata_views(v@).take(i as int + 1) =~= metadata_views(v@).take(
                i as int,
            ).push(x@));
            assert(cur.to_multiset() == prev.insert(j as int, x@).to_multiset());
            vstd::seq_lib::to_multiset_insert(prev, j as int, x@);
            vstd::seq_lib::to_multiset_build(metadata_views(v@).take(i as int), x@);
            assert(metadata_views(v@).take(i as int + 1).to_multiset() == metadata_views(v@).take(
                i as int,
            ).push(x@).to_multiset());
        }
        i = i + 1;
    }
    proof {
        assert(metadata_views(v@).take(n as int) =~= metadata_views(v@));
    }
    out
}

impl Recipe {
    /// Lists up to `max_count` metadata rows under the chosen order:
    /// the result is a prefix of some sorted permutation of everything
    /// stored.
    pub fn list_brief(db: &Db, max_count: u64, ordering: RecipeListSort) -> (r: Result<
        Vec<RecipeMetadata>,
        AppError,
    >)
        ensures
            r is Ok,
            ({
                let all = all_metadata(db@.recipes);
                let out = metadata_views(r->Ok_0@);
                &&& out.len() == if max_count as int <= all.len() {
                    max_count as int
                } else {
                    all.len() as int
                }
                &&& sorted_by_ord(out, ordering)
                &&& exists|s: Seq<MetadataView>|
                    s.to_multiset() == all.to_multiset() && sorted_by_ord(s, ordering) && out
                        == s.take(out.len() as int)
            }),
    {
        broadcast use lemma_metadata_views_index;
        broadcast use crate::db::lemma_recipe_views_index;
        broadcast use vstd::seq_lib::to_multiset_len;

        let n = db.recipes.len();
        let mut rows: Vec<RecipeMetadata> = Vec::new();
        let mut i: usize = 0;
        while i < n
            invariant
                0 <= i <= n,
                n == db.recipes@.len(),
                metadata_views(rows@) == all_metadata(db@.recipes).take(i as int),
            decreases n - i,
        {
            let dup = db.recipes[i].metadata.duplicate();
            proof {
                lemma_metadata_views_insert(rows@, rows@.len() as int, dup);
                assert(rows@.push(dup) =~= rows@.insert(rows@.len() as int, dup));
            }
            rows.push(dup);
            proof {
                assert(metadata_views(rows@) =~= all_metadata(db@.recipes).take(i as int + 1));
            }
            i = i + 1;
        }
        proof {
            assert(all_metadata(db@.recipes).take(n as int) =~= all_metadata(db@.recipes));
        }
        let sorted = sort_metadata(&rows, &ordering);
        let ghost full = metadata_views(sorted@);
        let mut out = sorted;
        let m: usize = if max_count <= out.len() as u64 {
            max_count as usize
        } else {
            out.len()
        };
        out.truncate(m);
        proof {
            assert(metadata_views(out@) =~= full.take(m as int));
            assert(full.to_multiset() == all_metadata(db@.recipes).to_multiset());
            assert(full.len() == all_metadata(db@.recipes).len());
            assert(sorted_by_ord(full.take(m as int), ordering));
        }
        Ok(out)
    }
}

} // verus!
