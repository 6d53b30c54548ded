//! The image upload route's verified part: reading the external media
//! service's reply and recording the upload in the ledger. The HTTP
//! transfer itself is boundary work.
use crate::db::Db;
use crate::db::has_image;
use crate::db::wf;
use crate::error::AppError;
use crate::error::AppErrorKind;
use crate::ids::parse_uuid;
use crate::ids::spec_parse_uuid;
use crate::models::image::Image;
use crate::text::find_char;
use vstd::prelude::*;
use vstd::string::StrSliceExecFns;
use vstd::string::StringExecFns;

verus! {

/// The details the media service reports for one stored file.
#[derive(Debug)]
pub struct ImageUploadDetails {
    pub content_type: String,
    pub created_at: String,
    pub format: String,
    pub frames: Option<u32>,
    pub height: u32,
    pub width: u32,
}

/// One stored file in the media service's reply: its name (the
/// assigned id plus an extension) and the deletion capability.
#[derive(Debug)]
pub struct ImageUploadFile {
    pub delete_token: String,
    pub details: ImageUploadDetails,
    pub file: String,
}

/// The media service's whole reply to an upload.
#[derive(Debug)]
pub struct ImageUploadResponse {
    pub files: Vec<ImageUploadFile>,
    pub msg: String,
}

/// `ix` is where the file name's extension begins: the first dot.
pub open spec fn is_first_dot(s: Seq<char>, ix: int) -> bool {
    0 <= ix < s.len() && s[ix] == '.' && forall|k: int| 0 <= k < ix ==> s[k] != '.'
}

/// A reply is usable when it reports success, holds exactly one file,
/// the file name up to its first dot is a rendered identifier, and so
/// is the deletion token.
pub open spec fn spec_usable_upload(resp: &ImageUploadResponse) -> bool {
    resp.msg@ == "ok"@ && resp.files@.len() == 1 && (exists|ix: int|
        is_first_dot(resp.files@[0].file@, ix) && spec_parse_uuid(resp.files@[0].file@.take(ix))
            is Some) && spec_parse_uuid(resp.files@[0].delete_token@) is Some
}

/// The position of the file name's first dot; meaningful when one
/// exists.
pub open spec fn first_dot_of(s: Seq<char>) -> int {
    choose|ix: int| is_first_dot(s, ix)
}

/// The id a usable reply names: the file name up to its first dot,
/// read as a rendered identifier.
pub open spec fn spec_upload_id(resp: &ImageUploadResponse) -> u128 {
    spec_parse_uuid(resp.files@[0].file@.take(first_dot_of(resp.files@[0].file@)))->Some_0
}

/// The deletion capability a usable reply names.
pub open spec fn spec_upload_token(resp: &ImageUploadResponse) -> u128 {
    spec_parse_uuid(resp.files@[0].delete_token@)->Some_0
}

/// Reads the media service's reply down to the pair the ledger
/// records: the assigned id and the deletion token. A reply that does
/// not report success is the caller's fault; a malformed success is
/// surfaced as internal.
pub fn process_upload_response(resp: &ImageUploadResponse) -> (r: Result<(u128, u128), AppError>)
    ensures
        r is Ok <==> spec_usable_upload(resp),
        r is Ok ==> r->Ok_0.0 == spec_upload_id(resp) && r->Ok_0.1 == spec_upload_token(resp),
        r is Err && resp.msg@ != "ok"@ ==> r->Err_0.kind == AppErrorKind::BadRequest,
        r is Err && resp.msg@ == "ok"@ ==> r->Err_0.kind == AppErrorKind::InternalServerError,
{
    let ok_msg = String::from_str("ok");
    if !resp.msg.eq(&ok_msg) {
        return Err(AppError::bad_request("Error uploading image"));
    }
    if resp.files.len() != 1 {
        return Err(AppError::internal("Image upload failed"));
    }
    let file = &resp.files[0];
    let dot = match find_char(file.file.as_str(), '.') {
        Some(dot) => dot,
        None => {
            proof {
                assert forall|ix: int| !is_first_dot(resp.files@[0].file@, ix) by {}
            }
            return Err(AppError::internal("Image upload failed"));
        },
    };
    let stem = file.file.as_str().substring_char(0, dot);
    proof {
        assert(stem@ =~= resp.files@[0].file@.take(dot as int));
        assert(is_first_dot(resp.files@[0].file@, dot as int));
        assert forall|ix: int|
            is_first_dot(resp.files@[0].file@, ix) implies ix == dot as int by {}
        assert(first_dot_of(resp.files@[0].file@) == dot as int);
    }
    let id = match parse_uuid(stem) {
        Some(id) => id,
        None => {
            return Err(AppError::internal("Image upload failed"));
        },
    };
    let delete_token = match parse_uuid(file.delete_token.as_str()) {
        Some(t) => t,
        None => {
            return Err(AppError::internal("Image upload failed"));
        },
    };
    Ok((id, delete_token))
}

/// The upload route's verified tail: reads the media service's reply
/// and records the upload, returning the assigned id. A usable reply
/// succeeds exactly when the id it names is not in the ledger yet.
pub fn upload_image(db: &mut Db, resp: &ImageUploadResponse) -> (r: Result<u128, AppError>)
    requires
        wf(old(db)@),
    ensures
        wf(final(db)@),
        r is Err ==> final(db)@ == old(db)@,
        !spec_usable_upload(resp) ==> r is Err && (if resp.msg@ != "ok"@ {
            r->Err_0.kind == AppErrorKind::BadRequest
        } else {
            r->Err_0.kind == AppErrorKind::InternalServerError
        }),
        spec_usable_upload(resp) ==> (r is Ok <==> !has_image(
            old(db)@.images,
            spec_upload_id(resp),
        )),
        r is Ok ==> r->Ok_0 == spec_upload_id(resp) && final(db)@.images == old(db)@.images.push(
            (Image { id: spec_upload_id(resp), delete_token: spec_upload_token(resp) }),
        ) && final(db)@.users == old(db)@.users && final(db)@.tokens == old(db)@.tokens && final(db)@.recipes == old(db)@.recipes,
        spec_usable_upload(resp) && r is Err ==> r->Err_0.kind
            == AppErrorKind::InternalServerError,
{
    let (id, delete_token) = match process_upload_response(resp) {
        Ok(pair) => pair,
        Err(e) => {
            return Err(e);
        },
    };
    match Image::create(db, &id, &delete_token) {
        Ok(inserted) => Ok(inserted.id),
        Err(e) => Err(e),
    }
}

} // verus!
