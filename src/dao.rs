//! The business operations. They stand in for a real store: each returns a
//! fixed result whatever the body it is given.
use vstd::prelude::*;
use crate::entities::{AddResultModel, DeleteResultModel, VerificationResultModel};

verus! {

/// The user that every verification reports.
pub open spec fn verified_user() -> Seq<char> {
    "user_1"@
}

pub fn add_user_images(bytes: &String) -> (r: AddResultModel) {
    AddResultModel {}
}

pub fn verify_user(bytes: &String) -> (r: VerificationResultModel)
    ensures
        r.user_id_view() == Some(verified_user()),
{
    VerificationResultModel { user_id: Some(String::from_str("user_1")) }
}

pub fn delete_user(bytes: &String) -> (r: DeleteResultModel) {
    DeleteResultModel {}
}

} // verus!
