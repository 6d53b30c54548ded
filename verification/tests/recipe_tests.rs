use cromptch::db::Db;
use cromptch::error::AppErrorKind;
use cromptch::models::recipe::Decimal;
use cromptch::models::recipe::Recipe;
use cromptch::models::recipe::RecipeCreation;
use cromptch::models::recipe::RecipeIngredient;
use cromptch::models::recipe::RecipeListSort;
use cromptch::models::recipe::RecipeStep;
use cromptch::models::user::User;

fn s(x: &str) -> String {
    x.to_string()
}

fn setup_author(db: &mut Db) -> u128 {
    let user = User::create(db, &s("author"), &s("author@example.com"), &s("password123"), &false)
        .unwrap();
    user.id
}

fn sample_creation(title: &str) -> RecipeCreation {
    RecipeCreation {
        title: s(title),
        description: s("a description"),
        image_id: None,
        ingredients: vec![RecipeIngredient {
            quantity: Decimal { mantissa: 250, scale: 1 },
            unit: s("g"),
            name: s("flour"),
        }],
        steps: vec![RecipeStep { description: s("mix everything"), image_id: None }],
    }
}

#[test]
fn create_and_fetch_round_trip() {
    let mut db = Db::new();
    let author = setup_author(&mut db);
    let created = Recipe::create(&mut db, &author, &sample_creation("Bread"), 1000).unwrap();
    assert_eq!(created.metadata.title, "Bread");
    assert_eq!(created.metadata.author, author);
    assert_eq!(created.metadata.created_at, 1000);
    assert_eq!(created.metadata.edited_at, 1000);
    assert_eq!(created.ingredients.len(), 1);
    assert_eq!(created.ingredients[0].name, "flour");
    assert_eq!(created.steps.len(), 1);

    let fetched = Recipe::from_uuid(&db, &created.metadata.id).unwrap();
    assert_eq!(fetched.metadata.id, created.metadata.id);
    assert_eq!(fetched.metadata.title, "Bread");
    assert_eq!(fetched.ingredients[0].unit, "g");
    assert_eq!(fetched.steps[0].description, "mix everything");
}

#[test]
fn empty_title_is_rejected_with_no_partial_write() {
    let mut db = Db::new();
    let author = setup_author(&mut db);
    let e = Recipe::create(&mut db, &author, &sample_creation(""), 1000).unwrap_err();
    assert_eq!(e.kind, AppErrorKind::BadRequest);
    assert_eq!(db.recipes.len(), 0);
}

#[test]
fn empty_ingredients_are_rejected_with_no_partial_write() {
    let mut db = Db::new();
    let author = setup_author(&mut db);
    let mut data = sample_creation("Bread");
    data.ingredients.clear();
    let e = Recipe::create(&mut db, &author, &data, 1000).unwrap_err();
    assert_eq!(e.kind, AppErrorKind::BadRequest);
    assert_eq!(db.recipes.len(), 0);
}

#[test]
fn empty_steps_are_rejected_with_no_partial_write() {
    let mut db = Db::new();
    let author = setup_author(&mut db);
    let mut data = sample_creation("Bread");
    data.steps.clear();
    let e = Recipe::create(&mut db, &author, &data, 1000).unwrap_err();
    assert_eq!(e.kind, AppErrorKind::BadRequest);
    assert_eq!(db.recipes.len(), 0);
}

#[test]
fn empty_ingredient_name_is_rejected() {
    let mut db = Db::new();
    let author = setup_author(&mut db);
    let mut data = sample_creation("Bread");
    data.ingredients[0].name = s("");
    let e = Recipe::create(&mut db, &author, &data, 1000).unwrap_err();
    assert_eq!(e.kind, AppErrorKind::BadRequest);
    assert_eq!(db.recipes.len(), 0);
}

#[test]
fn empty_ingredient_unit_is_rejected() {
    let mut db = Db::new();
    let author = setup_author(&mut db);
    let mut data = sample_creation("Bread");
    data.ingredients[0].unit = s("");
    let e = Recipe::create(&mut db, &author, &data, 1000).unwrap_err();
    assert_eq!(e.kind, AppErrorKind::BadRequest);
    assert_eq!(db.recipes.len(), 0);
}

#[test]
fn negative_quantity_is_rejected() {
    let mut db = Db::new();
    let author = setup_author(&mut db);
    let mut data = sample_creation("Bread");
    data.ingredients[0].quantity = Decimal { mantissa: -5, scale: 1 };
    let e = Recipe::create(&mut db, &author, &data, 1000).unwrap_err();
    assert_eq!(e.kind, AppErrorKind::BadRequest);
    assert_eq!(db.recipes.len(), 0);
}

#[test]
fn zero_quantity_is_accepted() {
    let mut db = Db::new();
    let author = setup_author(&mut db);
    let mut data = sample_creation("Bread");
    data.ingredients[0].quantity = Decimal { mantissa: 0, scale: 0 };
    assert!(Recipe::create(&mut db, &author, &data, 1000).is_ok());
}

#[test]
fn empty_step_description_is_rejected() {
    let mut db = Db::new();
    let author = setup_author(&mut db);
    let mut data = sample_creation("Bread");
    data.steps[0].description = s("");
    let e = Recipe::create(&mut db, &author, &data, 1000).unwrap_err();
    assert_eq!(e.kind, AppErrorKind::BadRequest);
    assert_eq!(db.recipes.len(), 0);
}

#[test]
fn delete_then_fetch_is_not_found() {
    let mut db = Db::new();
    let author = setup_author(&mut db);
    let created = Recipe::create(&mut db, &author, &sample_creation("Bread"), 1000).unwrap();
    let id = created.metadata.id;
    created.delete(&mut db).unwrap();
    let e = Recipe::from_uuid(&db, &id).unwrap_err();
    assert_eq!(e.kind, AppErrorKind::NotFound);
    assert_eq!(db.recipes.len(), 0);
}

#[test]
fn fetch_unknown_recipe_is_not_found() {
    let db = Db::new();
    let e = Recipe::from_uuid(&db, &42u128).unwrap_err();
    assert_eq!(e.kind, AppErrorKind::NotFound);
}

#[test]
fn list_two_titles_ascending() {
    let mut db = Db::new();
    let author = setup_author(&mut db);
    Recipe::create(&mut db, &author, &sample_creation("Banana Bread"), 1).unwrap();
    Recipe::create(&mut db, &author, &sample_creation("Apple Pie"), 2).unwrap();
    Recipe::create(&mut db, &author, &sample_creation("Carrot Cake"), 3).unwrap();
    let listed = Recipe::list_brief(&db, 2, RecipeListSort::NameAscending).unwrap();
    assert_eq!(listed.len(), 2);
    assert_eq!(listed[0].title, "Apple Pie");
    assert_eq!(listed[1].title, "Banana Bread");
}

#[test]
fn list_by_date_descending() {
    let mut db = Db::new();
    let author = setup_author(&mut db);
    Recipe::create(&mut db, &author, &sample_creation("Oldest"), 1).unwrap();
    Recipe::create(&mut db, &author, &sample_creation("Newest"), 9).unwrap();
    Recipe::create(&mut db, &author, &sample_creation("Middle"), 5).unwrap();
    let listed = Recipe::list_brief(&db, 10, RecipeListSort::DateDescending).unwrap();
    assert_eq!(listed.len(), 3);
    assert_eq!(listed[0].title, "Newest");
    assert_eq!(listed[1].title, "Middle");
    assert_eq!(listed[2].title, "Oldest");
}

#[test]
fn list_limit_larger_than_store_returns_all() {
    let mut db = Db::new();
    let author = setup_author(&mut db);
    Recipe::create(&mut db, &author, &sample_creation("Only"), 1).unwrap();
    let listed = Recipe::list_brief(&db, 10, RecipeListSort::DateAscending).unwrap();
    assert_eq!(listed.len(), 1);
    assert_eq!(listed[0].title, "Only");
}
