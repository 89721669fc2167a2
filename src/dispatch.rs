use vstd::prelude::*;
use crate::shard::{shard_for, shard_index, ShardedDb};
use crate::store::Store;

verus! {

/// A decoded request of one connection.
pub enum Request {
    Get { key: Vec<u8> },
    Put { key: Vec<u8>, value: Vec<u8> },
    /// Any other command, by name; the handler does not implement it.
    Unsupported { name: String },
}

/// The reply to a request.
pub enum Response {
    /// The simple status `OK`.
    Okay,
    /// A value that was found.
    Bulk(Vec<u8>),
    /// No value was found.
    Null,
}

/// Why a connection handler stops.
#[derive(PartialEq, Eq, Structural, Debug)]
pub enum HandlerError {
    /// The request names a command that the handler does not implement.
    Unimplemented,
}

/// What `handle_request` answers and stores, given the contents before it.
pub open spec fn handled(
    before: Map<Seq<u8>, Seq<u8>>,
    req: Request,
    r: Result<Response, HandlerError>,
    after: Map<Seq<u8>, Seq<u8>>,
) -> bool {
    match req {
        Request::Get { key } => after == before && match r {
            Ok(Response::Bulk(v)) => before.contains_key(key@) && v@ == before[key@],
            Ok(Response::Null) => !before.contains_key(key@),
            _ => false,
        },
        Request::Put { key, value } => after == before.insert(key@, value@) && r
            == Ok::<Response, HandlerError>(Response::Okay),
        Request::Unsupported { .. } => after == before && r == Err::<Response, HandlerError>(
            HandlerError::Unimplemented,
        ),
    }
}

impl Request {
    /// The key that the request reads or writes, if any.
    pub open spec fn key_of(&self) -> Option<Seq<u8>> {
        match self {
            Request::Get { key } => Some(key@),
            Request::Put { key, .. } => Some(key@),
            Request::Unsupported { .. } => None,
        }
    }

    /// The shard among `shard_count` that the request touches: the key's shard,
    /// or the first where it has no key.
    pub fn shard(&self, shard_count: usize) -> (r: usize)
        requires
            shard_count > 0,
        ensures
            r < shard_count,
            match self.key_of() {
                Some(k) => r as nat == shard_index(k, shard_count as nat),
                None => r == 0,
            },
    {
        match self {
            Request::Get { key } => shard_for(key, shard_count),
            Request::Put { key, .. } => shard_for(key, shard_count),
            Request::Unsupported { .. } => 0,
        }
    }
}

/// Serves one request against a store: GET reads, SET writes and answers `OK`,
/// any other command is refused.
pub fn handle_request(db: &mut Store, req: Request) -> (r: Result<Response, HandlerError>)
    requires
        old(db).wf(),
    ensures
        final(db).wf(),
        handled(old(db)@, req, r, final(db)@),
{
    match req {
        Request::Get { key } => match db.get(&key) {
            Some(v) => Ok(Response::Bulk(v)),
            None => Ok(Response::Null),
        },
        Request::Put { key, value } => {
            db.set(key, value);
            Ok(Response::Okay)
        },
        Request::Unsupported { .. } => Err(HandlerError::Unimplemented),
    }
}

/// Serves one request against a sharded store, as `handle_request` does.
pub fn handle_request_sharded(db: &mut ShardedDb, req: Request) -> (r: Result<
    Response,
    HandlerError,
>)
    requires
        old(db).wf(),
    ensures
        final(db).wf(),
        final(db).shard_count() == old(db).shard_count(),
        handled(old(db)@, req, r, final(db)@),
{
    match req {
        Request::Get { key } => match db.get(&key) {
            Some(v) => Ok(Response::Bulk(v)),
            None => Ok(Response::Null),
        },
        Request::Put { key, value } => {
            db.set(key, value);
            Ok(Response::Okay)
        },
        Request::Unsupported { .. } => Err(HandlerError::Unimplemented),
    }
}

} // verus!
