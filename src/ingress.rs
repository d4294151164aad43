//! Replies of the HTTP ingress and the mutation events it emits.
//!
//! `GET /query` reads a key, `POST /add` inserts a key and `DELETE /delete`
//! removes one. A mutation is applied to the local cache first and then
//! handed to the replication engine for broadcast.
use crate::engine::{op_of, CacheOp, OpView};
use crate::protocol::{Command, Message, MessageView};
use vstd::prelude::*;

verus! {

/// Status code of a request that lacks a parameter.
pub const BAD_REQUEST: u16 = 400;

/// Status code of a request that could not be served.
pub const INTERNAL_SERVER_ERROR: u16 = 500;

/// Status code of a request that was served.
pub const OK: u16 = 200;

/// The body of every ingress reply.
#[derive(Clone, Debug, PartialEq, Eq)]
pub struct Response {
    pub code: u16,
    /// The key and value concerned, when the reply carries them.
    pub data: Option<(String, String)>,
    pub message: String,
}

/// The reply to a query without a `key` parameter.
pub fn missing_key() -> (r: Response)
    ensures
        r.code == BAD_REQUEST,
        r.data is None,
        r.message@ == "Missing 'key' parameter"@,
{
    Response { code: BAD_REQUEST, data: None, message: "Missing 'key' parameter".to_owned() }
}

/// The reply to a query for `key`, given what the cache returned.
pub fn query_reply(key: String, found: Option<String>) -> (r: Response)
    ensures
        found is Some ==> r.code == OK && r.message@ == "ok"@,
        found is Some ==> (r.data matches Some((k, v)) && k@ == key@ && v@ == found->Some_0@),
        found is None ==> r.code == INTERNAL_SERVER_ERROR && r.data is None && r.message@
            == "Failed to retrieve value from cache"@,
{
    match found {
        Some(v) => Response { code: OK, data: Some((key, v)), message: "ok".to_owned() },
        None => Response {
            code: INTERNAL_SERVER_ERROR,
            data: None,
            message: "Failed to retrieve value from cache".to_owned(),
        },
    }
}

/// What an add request does: the insert to apply locally, and the message
/// that tells the peers of it.
pub fn add_request(key: String, value: String) -> (r: (CacheOp, Message))
    ensures
        r.0@ == OpView::Insert(key@, value@),
        r.1@ == (MessageView { cmd: Command::Insert, key: key@, value: value@ }),
{
    let op = CacheOp::Insert { key: key.clone(), value: value.clone() };
    (op, Message { cmd: Command::Insert, key, value })
}

/// What a delete request does: the removal to apply locally, and the
/// message that tells the peers of it.
pub fn remove_request(key: String) -> (r: (CacheOp, Message))
    ensures
        r.0@ == OpView::Remove(key@),
        r.1@ == (MessageView { cmd: Command::Remove, key: key@, value: Seq::empty() }),
{
    let op = CacheOp::Remove { key: key.clone() };
    (op, Message { cmd: Command::Remove, key, value: String::new() })
}

/// The reply to an add request, given whether its message reached the engine.
pub fn add_reply(key: String, value: String, forwarded: bool) -> (r: Response)
    ensures
        forwarded ==> r.code == OK && r.message@ == "ok"@,
        forwarded ==> (r.data matches Some((k, v)) && k@ == key@ && v@ == value@),
        !forwarded ==> r.code == INTERNAL_SERVER_ERROR && r.data is None && r.message@
            == "Failed to process add request"@,
{
    if forwarded {
        Response { code: OK, data: Some((key, value)), message: "ok".to_owned() }
    } else {
        Response {
            code: INTERNAL_SERVER_ERROR,
            data: None,
            message: "Failed to process add request".to_owned(),
        }
    }
}

/// The reply to a delete request, given whether its message reached the engine.
pub fn remove_reply(forwarded: bool) -> (r: Response)
    ensures
        r.data is None,
        forwarded ==> r.code == OK && r.message@ == "ok"@,
        !forwarded ==> r.code == INTERNAL_SERVER_ERROR && r.message@
            == "Failed to process remove request"@,
{
    if forwarded {
        Response { code: OK, data: None, message: "ok".to_owned() }
    } else {
        Response {
            code: INTERNAL_SERVER_ERROR,
            data: None,
            message: "Failed to process remove request".to_owned(),
        }
    }
}

/// The change an ingress request applies locally is the one its message
/// stands for, so that peers apply the same change.
pub proof fn lemma_local_matches_message(op: CacheOp, msg: Message)
    requires
        (op@ matches OpView::Insert(k, v) && msg@ == (MessageView {
            cmd: Command::Insert,
            key: k,
            value: v,
        })) || (op@ matches OpView::Remove(k) && msg@ == (MessageView {
            cmd: Command::Remove,
            key: k,
            value: Seq::empty(),
        })),
    ensures
        op_of(msg@) == Some(op@),
{
}

} // verus!
