use vstd::prelude::*;
use crate::errors::KvError;

verus! {

/// The remote store backend: one JSON-encoded value per key in a
/// redis-compatible store, which itself owns expiration through its native
/// expiring-key feature.
#[derive(Debug, Clone)]
pub struct KVRedis {
    /// The connection URL the store is reached at.
    pub url: String,
}

/// What a remote read of a key yielded, as the connection layer saw it.
#[derive(Debug, Clone)]
pub enum RemoteReadEvent {
    /// The store returned a value payload, already read back as text.
    Value(String),
    /// The store reported no value under the key.
    Missing,
    /// The store was unreachable or replied with a failure.
    Failed,
}

/// What a remote write or delete yielded.
#[derive(Debug, Clone)]
pub enum RemoteWriteEvent {
    /// The store acknowledged the command.
    Done,
    /// The store was unreachable or replied with a failure.
    Failed,
}

/// The store command a `set` with a given time to live must issue.
///
/// The store's expiring-set command rejects a zero time to live, so `0`
/// here means "no expiration" and is issued as a plain set: the entry then
/// never expires, matching the filesystem backend's reading of `0`.
#[derive(Debug, Clone)]
pub enum RemoteSetCmd {
    /// Set the key with the store's native per-key expiration, in seconds.
    SetWithExpiry(u64),
    /// Set the key with no expiration.
    SetPlain,
}

impl KVRedis {
    /// A backend reached at `url`.
    pub fn new(url: &str) -> (r: KVRedis)
        ensures
            r.url@ == url@,
    {
        KVRedis { url: url.to_owned() }
    }

    /// Decides a `get` from what the remote read yielded: a missing key is
    /// `NotFound`, a failure is `Connection`, and a payload is the value.
    pub fn get_from_read(&self, event: RemoteReadEvent) -> (r: Result<String, KvError>)
        ensures
            event matches RemoteReadEvent::Value(v) ==> r matches Ok(w) && w == v,
            event is Missing ==> r == Err::<String, KvError>(KvError::NotFound),
            event is Failed ==> r == Err::<String, KvError>(KvError::Connection),
    {
        match event {
            RemoteReadEvent::Value(v) => Ok(v),
            RemoteReadEvent::Missing => Err(KvError::NotFound),
            RemoteReadEvent::Failed => Err(KvError::Connection),
        }
    }

    /// Chooses the store command for a `set` with time to live `ttl`:
    /// expiring set for a positive `ttl`, plain set for `0`.
    pub fn set_command(&self, ttl: u64) -> (r: RemoteSetCmd)
        ensures
            ttl == 0 ==> r is SetPlain,
            ttl > 0 ==> r == RemoteSetCmd::SetWithExpiry(ttl),
    {
        if ttl == 0 {
            RemoteSetCmd::SetPlain
        } else {
            RemoteSetCmd::SetWithExpiry(ttl)
        }
    }

    /// Decides a `set` or `del` from the store's acknowledgement. Deleting
    /// an absent key is acknowledged by the store and so is no error here.
    pub fn write_from_event(&self, event: RemoteWriteEvent) -> (r: Result<(), KvError>)
        ensures
            event is Done ==> r == Ok::<(), KvError>(()),
            event is Failed ==> r == Err::<(), KvError>(KvError::Connection),
    {
        match event {
            RemoteWriteEvent::Done => Ok(()),
            RemoteWriteEvent::Failed => Err(KvError::Connection),
        }
    }
}

} // verus!
