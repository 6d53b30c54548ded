use cromptch::api::image::process_upload_response;
use cromptch::api::image::upload_image;
use cromptch::api::image::ImageUploadDetails;
use cromptch::api::image::ImageUploadFile;
use cromptch::api::image::ImageUploadResponse;
use cromptch::db::Db;
use cromptch::error::AppErrorKind;
use cromptch::models::image::Image;

fn s(x: &str) -> String {
    x.to_string()
}

fn sample_file(file: &str, delete_token: &str) -> ImageUploadFile {
    ImageUploadFile {
        delete_token: s(delete_token),
        details: ImageUploadDetails {
            content_type: s("image/webp"),
            created_at: s("2024-01-01T00:00:00Z"),
            format: s("webp"),
            frames: None,
            height: 100,
            width: 100,
        },
        file: s(file),
    }
}

fn ok_response() -> ImageUploadResponse {
    ImageUploadResponse {
        files: vec![sample_file(
            "aaaaaaaa-bbbb-4ccc-8ddd-eeeeeeeeeeee.webp",
            "11111111-2222-4333-8444-555555555555",
        )],
        msg: s("ok"),
    }
}

#[test]
fn usable_reply_yields_both_identifiers() {
    let (id, token) = process_upload_response(&ok_response()).unwrap();
    assert_eq!(id, 0xaaaaaaaa_bbbb_4ccc_8ddd_eeeeeeeeeeeeu128);
    assert_eq!(token, 0x11111111_2222_4333_8444_555555555555u128);
}

#[test]
fn failure_message_is_bad_request() {
    let mut resp = ok_response();
    resp.msg = s("error");
    let e = process_upload_response(&resp).unwrap_err();
    assert_eq!(e.kind, AppErrorKind::BadRequest);
}

#[test]
fn wrong_file_count_is_internal() {
    let mut resp = ok_response();
    resp.files.push(sample_file(
        "aaaaaaaa-bbbb-4ccc-8ddd-eeeeeeeeeeee.webp",
        "11111111-2222-4333-8444-555555555555",
    ));
    let e = process_upload_response(&resp).unwrap_err();
    assert_eq!(e.kind, AppErrorKind::InternalServerError);
}

#[test]
fn file_name_without_extension_is_internal() {
    let mut resp = ok_response();
    resp.files[0].file = s("aaaaaaaa-bbbb-4ccc-8ddd-eeeeeeeeeeee");
    let e = process_upload_response(&resp).unwrap_err();
    assert_eq!(e.kind, AppErrorKind::InternalServerError);
}

#[test]
fn malformed_identifiers_are_internal() {
    let mut resp = ok_response();
    resp.files[0].file = s("not-an-identifier.webp");
    let e = process_upload_response(&resp).unwrap_err();
    assert_eq!(e.kind, AppErrorKind::InternalServerError);

    let mut resp = ok_response();
    resp.files[0].delete_token = s("nope");
    let e = process_upload_response(&resp).unwrap_err();
    assert_eq!(e.kind, AppErrorKind::InternalServerError);
}

#[test]
fn upload_records_ledger_entry() {
    let mut db = Db::new();
    let id = upload_image(&mut db, &ok_response()).unwrap();
    assert_eq!(id, 0xaaaaaaaa_bbbb_4ccc_8ddd_eeeeeeeeeeeeu128);
    assert_eq!(db.images.len(), 1);
    assert_eq!(db.images[0].id, id);
    assert_eq!(db.images[0].delete_token, 0x11111111_2222_4333_8444_555555555555u128);
}

#[test]
fn duplicate_upload_id_is_internal_and_unrecorded() {
    let mut db = Db::new();
    upload_image(&mut db, &ok_response()).unwrap();
    let e = upload_image(&mut db, &ok_response()).unwrap_err();
    assert_eq!(e.kind, AppErrorKind::InternalServerError);
    assert_eq!(db.images.len(), 1);
}

#[test]
fn ledger_insert_is_exactly_once_per_id() {
    let mut db = Db::new();
    let first = Image::create(&mut db, &7u128, &8u128).unwrap();
    assert_eq!(first.id, 7);
    assert_eq!(first.delete_token, 8);
    let e = Image::create(&mut db, &7u128, &9u128).unwrap_err();
    assert_eq!(e.kind, AppErrorKind::InternalServerError);
    assert_eq!(db.images.len(), 1);
}
