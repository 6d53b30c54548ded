use cromptch::api::admin::delete_recipe;
use cromptch::api::admin::get_users;
use cromptch::api::recipe::create_recipe;
use cromptch::api::recipe::get_recipe;
use cromptch::api::recipe::list_recipes;
use cromptch::api::recipe::parse_limit;
use cromptch::api::recipe::parse_sort_order;
use cromptch::api::user::check_captcha;
use cromptch::api::user::create_user;
use cromptch::api::user::get_self;
use cromptch::api::user::login_user;
use cromptch::api::user::CreateUserRequest;
use cromptch::api::user::LoginUserRequest;
use cromptch::db::Db;
use cromptch::error::AppErrorKind;
use cromptch::ids::uuid_to_string;
use cromptch::models::admin::Admin;
use cromptch::models::recipe::Decimal;
use cromptch::models::recipe::RecipeCreation;
use cromptch::models::recipe::RecipeIngredient;
use cromptch::models::recipe::RecipeListSort;
use cromptch::models::recipe::RecipeStep;
use cromptch::models::user::User;

fn s(x: &str) -> String {
    x.to_string()
}

fn sample_creation(title: &str) -> RecipeCreation {
    RecipeCreation {
        title: s(title),
        description: s("a description"),
        image_id: None,
        ingredients: vec![RecipeIngredient {
            quantity: Decimal { mantissa: 1, scale: 0 },
            unit: s("cup"),
            name: s("sugar"),
        }],
        steps: vec![RecipeStep { description: s("stir"), image_id: None }],
    }
}

#[test]
fn create_user_route_registers_non_admin() {
    let mut db = Db::new();
    let req = CreateUserRequest {
        username: s("alice"),
        email: s("alice@example.com"),
        password: s("password123"),
        hcaptcha_token: None,
    };
    let msg = create_user(&mut db, &req).unwrap();
    assert_eq!(msg, "User created");
    assert_eq!(db.users.len(), 1);
    assert!(!db.users[0].is_admin);
}

#[test]
fn create_user_route_rejects_bad_input() {
    let mut db = Db::new();
    let req = CreateUserRequest {
        username: s("al"),
        email: s("alice@example.com"),
        password: s("password123"),
        hcaptcha_token: None,
    };
    let e = create_user(&mut db, &req).unwrap_err();
    assert_eq!(e.kind, AppErrorKind::BadRequest);
    assert_eq!(e.status_code(), 400);
    assert_eq!(db.users.len(), 0);
}

#[test]
fn login_route_returns_token_and_fields() {
    let mut db = Db::new();
    let req = CreateUserRequest {
        username: s("bob"),
        email: s("bob@example.com"),
        password: s("password123"),
        hcaptcha_token: None,
    };
    create_user(&mut db, &req).unwrap();
    let login = LoginUserRequest { email: s("bob@example.com"), password: s("password123") };
    let resp = login_user(&mut db, &login, 500).unwrap();
    assert_eq!(resp.username, "bob");
    assert_eq!(resp.email, "bob@example.com");
    assert!(!resp.is_admin);
    assert_eq!(resp.token.len(), 64);
    assert_eq!(resp.id, uuid_to_string(db.users[0].id));
    assert_eq!(db.tokens.len(), 1);
    assert_eq!(db.tokens[0].last_used, 500);
}

#[test]
fn self_view_has_public_fields_only() {
    let mut db = Db::new();
    let user = User::create(
        &mut db,
        &s("carol"),
        &s("carol@example.com"),
        &s("password123"),
        &false,
    )
    .unwrap();
    let view = get_self(&user);
    assert_eq!(view.id, uuid_to_string(user.id));
    assert_eq!(view.username, "carol");
    assert_eq!(view.email, "carol@example.com");
    assert!(!view.is_admin);
}

#[test]
fn admin_gate_rejects_non_admin_token() {
    let mut db = Db::new();
    let user =
        User::create(&mut db, &s("dave"), &s("dave@example.com"), &s("password123"), &false)
            .unwrap();
    let token = user.create_token(&mut db, 1).unwrap();
    let header = format!("Bearer {}", token);
    let e = Admin::from_request_parts(&mut db, Some(&header), 2).unwrap_err();
    assert_eq!(e.kind, AppErrorKind::Unauthorized);
    assert_eq!(e.status_code(), 401);
}

#[test]
fn admin_gate_accepts_admin_token() {
    let mut db = Db::new();
    let user =
        User::create(&mut db, &s("erin"), &s("erin@example.com"), &s("password123"), &true)
            .unwrap();
    let token = user.create_token(&mut db, 1).unwrap();
    let header = format!("Bearer {}", token);
    let admin = Admin::from_request_parts(&mut db, Some(&header), 2).unwrap();
    assert_eq!(admin.user.id, user.id);
    assert!(admin.user.is_admin);
}

#[test]
fn admin_listing_shows_users_without_passwords() {
    let mut db = Db::new();
    let admin_user =
        User::create(&mut db, &s("root"), &s("root@example.com"), &s("password123"), &true)
            .unwrap();
    User::create(&mut db, &s("user"), &s("user@example.com"), &s("password123"), &false).unwrap();
    let admin = Admin::from_user(admin_user).unwrap();
    let listed = get_users(&db, &admin);
    assert_eq!(listed.len(), 2);
    assert_eq!(listed[0].username, "root");
    assert_eq!(listed[1].username, "user");
    assert_eq!(listed[0].id, uuid_to_string(db.users[0].id));
}

#[test]
fn admin_delete_then_public_fetch_fails() {
    let mut db = Db::new();
    let admin_user =
        User::create(&mut db, &s("root"), &s("root@example.com"), &s("password123"), &true)
            .unwrap();
    let author_id = admin_user.id;
    let admin = Admin::from_user(admin_user).unwrap();
    let author = db.users[0].duplicate();
    let id = create_recipe(&mut db, &author, &sample_creation("Gone"), 7).unwrap();
    assert_eq!(db.users[0].id, author_id);
    delete_recipe(&mut db, &admin, &id).unwrap();
    let e = get_recipe(&db, &id).unwrap_err();
    assert_eq!(e.kind, AppErrorKind::NotFound);
}

#[test]
fn admin_delete_unknown_recipe_is_not_found() {
    let mut db = Db::new();
    let admin_user =
        User::create(&mut db, &s("root"), &s("root@example.com"), &s("password123"), &true)
            .unwrap();
    let admin = Admin::from_user(admin_user).unwrap();
    let e = delete_recipe(&mut db, &admin, &7u128).unwrap_err();
    assert_eq!(e.kind, AppErrorKind::NotFound);
}

#[test]
fn recipe_route_returns_author_name() {
    let mut db = Db::new();
    let user =
        User::create(&mut db, &s("finn"), &s("finn@example.com"), &s("password123"), &false)
            .unwrap();
    let id = create_recipe(&mut db, &user, &sample_creation("Stew"), 3).unwrap();
    let resp = get_recipe(&db, &id).unwrap();
    assert_eq!(resp.recipe.metadata.title, "Stew");
    assert_eq!(resp.author, "finn");
}

#[test]
fn list_route_parses_parameters() {
    let mut db = Db::new();
    let user =
        User::create(&mut db, &s("gina"), &s("gina@example.com"), &s("password123"), &false)
            .unwrap();
    create_recipe(&mut db, &user, &sample_creation("Banana Bread"), 1).unwrap();
    create_recipe(&mut db, &user, &sample_creation("Apple Pie"), 2).unwrap();
    create_recipe(&mut db, &user, &sample_creation("Carrot Cake"), 3).unwrap();
    let limit = s("2");
    let order = s("a-z");
    let listed = list_recipes(&db, Some(&limit), Some(&order)).unwrap();
    assert_eq!(listed.len(), 2);
    assert_eq!(listed[0].title, "Apple Pie");
    assert_eq!(listed[1].title, "Banana Bread");
}

#[test]
fn captcha_not_required_admits_everything() {
    assert!(check_captcha(false, false, None).is_ok());
    assert!(check_captcha(false, true, Some(false)).is_ok());
}

#[test]
fn captcha_required_without_token_is_bad_request() {
    let e = check_captcha(true, false, None).unwrap_err();
    assert_eq!(e.kind, AppErrorKind::BadRequest);
}

#[test]
fn captcha_verification_outcomes_decide() {
    assert!(check_captcha(true, true, Some(true)).is_ok());
    let e = check_captcha(true, true, Some(false)).unwrap_err();
    assert_eq!(e.kind, AppErrorKind::BadRequest);
    let e = check_captcha(true, true, None).unwrap_err();
    assert_eq!(e.kind, AppErrorKind::InternalServerError);
}

#[test]
fn limit_parameter_defaults() {
    assert_eq!(parse_limit(None), 10);
    let two = s("2");
    assert_eq!(parse_limit(Some(&two)), 2);
    let junk = s("many");
    assert_eq!(parse_limit(Some(&junk)), 10);
    let huge = s("99999999999999999999999999");
    assert_eq!(parse_limit(Some(&huge)), 10);
}

#[test]
fn order_parameter_maps_to_sorts() {
    assert_eq!(parse_sort_order(None), RecipeListSort::DateAscending);
    let a_z = s("a-z");
    assert_eq!(parse_sort_order(Some(&a_z)), RecipeListSort::NameAscending);
    let z_a = s("z-a");
    assert_eq!(parse_sort_order(Some(&z_a)), RecipeListSort::NameDescending);
    let newest = s("newest");
    assert_eq!(parse_sort_order(Some(&newest)), RecipeListSort::DateDescending);
    let oldest = s("oldest");
    assert_eq!(parse_sort_order(Some(&oldest)), RecipeListSort::DateAscending);
    let junk = s("sideways");
    assert_eq!(parse_sort_order(Some(&junk)), RecipeListSort::DateAscending);
}
