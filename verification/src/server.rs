//! How a node's key-value port answers clients: reads are served from the
//! local store, writes go through the Raft log.
use vstd::prelude::*;
use crate::protocol::{Request, Response};
use crate::store::{KvStore, lookup, opt_view};

verus! {

/// What a node does with a request.
#[derive(Debug, PartialEq, Eq)]
pub enum Dispatch {
    /// Answer at once.
    Reply(Response),
    /// Propose this write to the cluster, then answer with `write_outcome`.
    Propose { key: String, value: String, is_delete: bool },
}

/// Decides what to do with `req`: a read is answered from `store`; a write
/// is proposed, a delete as an entry with an empty value.
pub fn dispatch(req: Request, store: &KvStore) -> (d: Dispatch)
    ensures
        match req {
            Request::Get { key } => d matches Dispatch::Reply(Response::Value(v))
                && opt_view(v) == lookup(store@, key@),
            Request::Put { key, value } => d == (Dispatch::Propose { key: key, value: value, is_delete: false }),
            Request::Delete { key } => d matches Dispatch::Propose { key: k, value: v, is_delete: true }
                && k == key && v@ == Seq::<char>::empty(),
        },
{
    match req {
        Request::Get { key } => Dispatch::Reply(Response::Value(store.get(key.as_str()))),
        Request::Put { key, value } => Dispatch::Propose { key, value, is_delete: false },
        Request::Delete { key } => Dispatch::Propose { key, value: String::new(), is_delete: true },
    }
}

/// The answer to a write: `Done` when the cluster committed it, and an
/// error that points the client elsewhere when this node is not the leader
/// or no majority confirmed.
pub fn write_outcome(committed: bool) -> (r: Response)
    ensures
        committed ==> r is Done,
        !committed ==> (r matches Response::Error(m) && m@ == "not the leader — try another port"@),
{
    if committed {
        Response::Done
    } else {
        Response::Error("not the leader — try another port".to_owned())
    }
}

/// The answer to a line that is not a request.
pub fn invalid_request() -> (r: Response)
    ensures
        r matches Response::Error(m) && m@ == "invalid request"@,
{
    Response::Error("invalid request".to_owned())
}

} // verus!
