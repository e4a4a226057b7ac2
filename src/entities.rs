//! Results of the business operations, and how each turns into a reply.
use vstd::prelude::*;
use crate::json::{json_str_of, json_string};
use crate::prelude::{Reply, ReplyItem, Responder, Response};

verus! {

/// Result of adding a record: no payload.
#[derive(Debug, Clone)]
pub struct AddResultModel {}

/// Result of verifying a record: the user it belongs to, if any.
#[derive(Debug, Clone)]
pub struct VerificationResultModel {
    pub user_id: Option<String>,
}

/// Result of deleting a record: no payload.
#[derive(Debug, Clone)]
pub struct DeleteResultModel {}

/// An error message, as the wire would carry it.
#[derive(Debug, Clone)]
pub struct ErrorMessageModel {
    pub message: String,
}

/// The JSON text of a result with no fields.
pub open spec fn empty_object_text() -> Seq<char> {
    "{}"@
}

/// The JSON text of a verification result.
pub open spec fn verification_text(user_id: Option<Seq<char>>) -> Seq<char> {
    "{\"user_id\":"@ + match user_id {
        Some(u) => json_str_of(u),
        None => "null"@,
    } + "}"@
}

pub const ADD_STATUS: u16 = 200;
pub const DELETE_STATUS: u16 = 204;
pub const VERIFY_STATUS: u16 = 200;

fn reply(status: u16, body: String) -> (r: Reply)
    ensures
        r.0.response()@ == (status, body@),
{
    Reply(ReplyItem::Item(Response { status, body: Box::new(body) }))
}

impl VerificationResultModel {
    pub open spec fn user_id_view(&self) -> Option<Seq<char>> {
        match &self.user_id {
            Some(u) => Some(u@),
            None => None,
        }
    }

    /// The JSON text of this result: `{"user_id":<string or null>}`.
    pub fn to_json(&self) -> (r: String)
        ensures
            r@ == verification_text(self.user_id_view()),
    {
        let mut out = String::from_str("{\"user_id\":");
        match &self.user_id {
            Some(u) => {
                let t = json_string(u.as_str());
                out.append(t.as_str());
            },
            None => {
                out.append("null");
            },
        }
        out.append("}");
        out
    }
}

impl Responder for AddResultModel {
    open spec fn reply_spec(&self) -> (u16, Seq<char>) {
        (ADD_STATUS, empty_object_text())
    }

    fn transform(self) -> (r: Reply) {
        reply(ADD_STATUS, String::from_str("{}"))
    }
}

impl Responder for DeleteResultModel {
    open spec fn reply_spec(&self) -> (u16, Seq<char>) {
        (DELETE_STATUS, empty_object_text())
    }

    fn transform(self) -> (r: Reply) {
        reply(DELETE_STATUS, String::from_str("{}"))
    }
}

impl Responder for VerificationResultModel {
    open spec fn reply_spec(&self) -> (u16, Seq<char>) {
        (VERIFY_STATUS, verification_text(self.user_id_view()))
    }

    fn transform(self) -> (r: Reply) {
        let body = self.to_json();
        reply(VERIFY_STATUS, body)
    }
}

} // verus!
