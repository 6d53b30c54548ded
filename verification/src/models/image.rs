//! The image reference ledger: a thin record of externally hosted
//! uploads and their deletion capabilities.
use crate::db::Db;
use crate::db::has_image;
use crate::db::wf;
use crate::error::AppError;
use crate::error::AppErrorKind;
use vstd::prelude::*;

verus! {

/// One uploaded image: the identifier the external media service
/// assigned and the capability it returned for deleting the asset.
#[derive(Clone, Copy, Debug, PartialEq, Eq, Structural)]
pub struct Image {
    pub id: u128,
    pub delete_token: u128,
}

impl Image {
    /// Records an external upload in the ledger: succeeds exactly when
    /// the id is new, and then appends the entry; a duplicate id is a
    /// storage failure and surfaces as internal.
    pub fn create(db: &mut Db, id: &u128, delete_token: &u128) -> (r: Result<Image, AppError>)
        requires
            wf(old(db)@),
        ensures
            wf(final(db)@),
            r is Ok <==> !has_image(old(db)@.images, *id),
            r is Ok ==> r->Ok_0 == (Image { id: *id, delete_token: *delete_token }) && final(db)@.images == old(db)@.images.push(r->Ok_0) && final(db)@.users == old(db)@.users
                && final(db)@.tokens == old(db)@.tokens && final(db)@.recipes == old(db)@.recipes,
            r is Err ==> final(db)@ == old(db)@ && r->Err_0.kind
                == AppErrorKind::InternalServerError,
    {
        let n = db.images.len();
        let mut i: usize = 0;
        while i < n
            invariant
                0 <= i <= n,
                n == db.images@.len(),
                db@ == old(db)@,
                wf(db@),
                forall|k: int| 0 <= k < i ==> db.images@[k].id != *id,
            decreases n - i,
        {
            if db.images[i].id == *id {
                return Err(AppError::internal("Failed to create image entry"));
            }
            i = i + 1;
        }
        let entry = Image { id: *id, delete_token: *delete_token };
        db.images.push(entry);
        proof {
            assert(db@.images == old(db)@.images.push(entry));
            assert(wf(db@));
        }
        Ok(entry)
    }
}

} // verus!
