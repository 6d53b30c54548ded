use cromptch::db::Db;
use cromptch::error::AppErrorKind;
use cromptch::models::user::User;

fn s(x: &str) -> String {
    x.to_string()
}

#[test]
fn register_then_login_succeeds() {
    let mut db = Db::new();
    let user = User::create(
        &mut db,
        &s("alice"),
        &s("alice@example.com"),
        &s("password123"),
        &false,
    )
    .unwrap();
    assert_eq!(user.username, "alice");
    assert_eq!(user.email, "alice@example.com");
    assert!(!user.is_admin);
    // The stored password is a salted hash, never the plaintext.
    assert_ne!(user.password, "password123");
    assert!(user.password.starts_with("$argon2"));

    let back = User::from_login(&db, &s("alice@example.com"), &s("password123")).unwrap();
    assert_eq!(back.id, user.id);
    assert_eq!(back.username, "alice");

    // Fresh identifiers carry the random-version nibble.
    let rendered = cromptch::ids::uuid_to_string(user.id);
    assert_eq!(rendered.as_bytes()[14], b'4');
}

#[test]
fn login_with_wrong_password_is_not_found() {
    let mut db = Db::new();
    User::create(&mut db, &s("bob"), &s("bob@example.com"), &s("password123"), &false).unwrap();
    let e = User::from_login(&db, &s("bob@example.com"), &s("wrongpassword")).unwrap_err();
    assert_eq!(e.kind, AppErrorKind::NotFound);
}

#[test]
fn login_with_unknown_email_is_not_found() {
    let db = Db::new();
    let e = User::from_login(&db, &s("nobody@example.com"), &s("password123")).unwrap_err();
    assert_eq!(e.kind, AppErrorKind::NotFound);
}

#[test]
fn short_username_is_rejected_and_nothing_stored() {
    let mut db = Db::new();
    let e = User::create(&mut db, &s("ab"), &s("a@b.c"), &s("password123"), &false).unwrap_err();
    assert_eq!(e.kind, AppErrorKind::BadRequest);
    assert_eq!(db.users.len(), 0);
}

#[test]
fn short_password_is_rejected_and_nothing_stored() {
    let mut db = Db::new();
    let e = User::create(&mut db, &s("alice"), &s("a@b.c"), &s("short"), &false).unwrap_err();
    assert_eq!(e.kind, AppErrorKind::BadRequest);
    assert_eq!(db.users.len(), 0);
}

#[test]
fn email_without_at_is_rejected_and_nothing_stored() {
    let mut db = Db::new();
    let e =
        User::create(&mut db, &s("alice"), &s("not-an-email"), &s("password123"), &false)
            .unwrap_err();
    assert_eq!(e.kind, AppErrorKind::BadRequest);
    assert_eq!(db.users.len(), 0);
}

#[test]
fn duplicate_username_is_rejected() {
    let mut db = Db::new();
    User::create(&mut db, &s("carol"), &s("carol@example.com"), &s("password123"), &false)
        .unwrap();
    let e = User::create(&mut db, &s("carol"), &s("other@example.com"), &s("password123"), &false)
        .unwrap_err();
    assert_eq!(e.kind, AppErrorKind::BadRequest);
    assert_eq!(db.users.len(), 1);
}

#[test]
fn duplicate_email_is_rejected() {
    let mut db = Db::new();
    User::create(&mut db, &s("carol"), &s("carol@example.com"), &s("password123"), &false)
        .unwrap();
    let e = User::create(&mut db, &s("carla"), &s("carol@example.com"), &s("password123"), &false)
        .unwrap_err();
    assert_eq!(e.kind, AppErrorKind::BadRequest);
    assert_eq!(db.users.len(), 1);
}

#[test]
fn token_round_trip_returns_same_user() {
    let mut db = Db::new();
    let user =
        User::create(&mut db, &s("dave"), &s("dave@example.com"), &s("password123"), &false)
            .unwrap();
    let token = user.create_token(&mut db, 100).unwrap();
    assert_eq!(token.len(), 64);
    assert!(token
        .chars()
        .all(|c| c.is_ascii_alphanumeric() || c == '-' || c == '_'));
    let back = User::from_token(&mut db, &token, 200).unwrap();
    assert_eq!(back.id, user.id);
    assert_eq!(back.username, "dave");
}

#[test]
fn unknown_token_is_unauthorized() {
    let mut db = Db::new();
    let e = User::from_token(&mut db, &s("no-such-token"), 100).unwrap_err();
    assert_eq!(e.kind, AppErrorKind::Unauthorized);
}

#[test]
fn validation_updates_last_used() {
    let mut db = Db::new();
    let user =
        User::create(&mut db, &s("erin"), &s("erin@example.com"), &s("password123"), &false)
            .unwrap();
    let token = user.create_token(&mut db, 100).unwrap();
    assert_eq!(db.tokens[0].last_used, 100);
    User::from_token(&mut db, &token, 250).unwrap();
    assert_eq!(db.tokens[0].last_used, 250);
    assert_eq!(db.tokens.len(), 1);
}

#[test]
fn header_extraction_strips_bearer_prefix() {
    let mut db = Db::new();
    let user =
        User::create(&mut db, &s("finn"), &s("finn@example.com"), &s("password123"), &false)
            .unwrap();
    let token = user.create_token(&mut db, 100).unwrap();
    let header = format!("Bearer {}", token);
    let back = User::from_request_parts(&mut db, Some(&header), 200).unwrap();
    assert_eq!(back.id, user.id);
}

#[test]
fn missing_header_is_unauthorized() {
    let mut db = Db::new();
    let e = User::from_request_parts(&mut db, None, 100).unwrap_err();
    assert_eq!(e.kind, AppErrorKind::Unauthorized);
}

#[test]
fn get_all_returns_every_user() {
    let mut db = Db::new();
    User::create(&mut db, &s("gina"), &s("gina@example.com"), &s("password123"), &false).unwrap();
    User::create(&mut db, &s("hugo"), &s("hugo@example.com"), &s("password123"), &true).unwrap();
    let all = User::get_all(&db);
    assert_eq!(all.len(), 2);
    assert_eq!(all[0].username, "gina");
    assert_eq!(all[1].username, "hugo");
    assert!(all[1].is_admin);
}
