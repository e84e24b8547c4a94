//! What the reply of a remote server to a posted action means.
use vstd::prelude::*;
use crate::text::push_str;

verus! {

broadcast use vstd::string::group_string_axioms;

/// The outcome of an action posted to a remote server.
#[derive(Clone, Debug, PartialEq, Eq)]
pub enum ActionReply {
    /// The server refused or failed the action, with its reason.
    Failed(String),
    /// The action returned nothing (the server answered `{"ok": ...}`).
    Done,
    /// The action returned the reply body as its result.
    Payload,
}

/// `Failed`'s reason, `Done` or `Payload` as plain values.
pub open spec fn reply_view(r: ActionReply) -> Option<Option<Seq<char>>> {
    match r {
        ActionReply::Failed(e) => Some(Some(e@)),
        ActionReply::Done => Some(None),
        ActionReply::Payload => None,
    }
}

/// The reason given when the server answers with a status other than
/// success: `Server returned <status>: <body>`.
pub fn status_failure(status: &str, body: &str) -> (r: String)
    ensures
        r@ == "Server returned "@ + status@ + ": "@ + body@,
{
    let mut r = "Server returned ".to_owned();
    push_str(&mut r, status);
    push_str(&mut r, ": ");
    push_str(&mut r, body);
    r
}

/// The meaning of a successful reply whose JSON body has the string field
/// `error` (when `error` is given) and an `ok` field (when `has_ok`): an
/// error wins, then `ok` means no result, else the body is the result.
pub fn reply_verdict(error: Option<&str>, has_ok: bool) -> (r: ActionReply)
    ensures
        reply_view(r) == (match error {
            Some(e) => Some(Some(e@)),
            None => if has_ok {
                Some(None)
            } else {
                None
            },
        }),
{
    match error {
        Some(e) => ActionReply::Failed(e.to_owned()),
        None => if has_ok {
            ActionReply::Done
        } else {
            ActionReply::Payload
        },
    }
}

} // verus!
