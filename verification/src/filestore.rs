use vstd::prelude::*;
use vstd::string::StringExecFns;
use crate::codec::{decode_entry, encode_entry, entry_text, spec_decode};
use crate::errors::KvError;
use crate::keys::push_char;

verus! {

/// Whether an entry expiring at `expire` is logically expired at `now`.
/// `0` means "never expires", and an entry expiring exactly now is still
/// alive: only a strictly past timestamp is dead.
pub open spec fn is_expired(expire: nat, now: nat) -> bool {
    expire > 0 && expire < now
}

/// What reading a key's file yielded, as the surrounding I/O layer saw it.
#[derive(Debug, Clone)]
pub enum FsReadEvent {
    /// The whole file, read successfully.
    Found(String),
    /// The file does not exist.
    Absent,
    /// The read failed some other way (permissions, disk, path).
    Failed,
}

/// What removing a key's file yielded.
#[derive(Debug, Clone)]
pub enum FsDelEvent {
    /// The file was removed.
    Removed,
    /// There was no file to remove.
    Missing,
    /// The removal failed some other way.
    Failed,
}

/// The filesystem backend: one JSON document per key, stored at
/// `<path>/<key>.json`, holding the value and an absolute expiration epoch.
#[derive(Debug, Clone)]
pub struct KVFilesystem {
    pub path: String,
}

/// The path of the file a key is stored at under `root`.
pub open spec fn file_path_spec(root: Seq<char>, key: Seq<char>) -> Seq<char> {
    root + seq!['/'] + key + seq!['.', 'j', 's', 'o', 'n']
}

impl KVFilesystem {
    /// A backend rooted at `path`.
    pub fn new(path: &str) -> (r: KVFilesystem)
        ensures
            r.path@ == path@,
    {
        KVFilesystem { path: path.to_owned() }
    }

    /// Where the file for `key` stands: `<path>/<key>.json`.
    pub fn file_path(&self, key: &str) -> (r: String)
        ensures
            r@ == file_path_spec(self.path@, key@),
    {
        let mut p = self.path.clone();
        push_char(&mut p, '/');
        p.append(key);
        push_char(&mut p, '.');
        push_char(&mut p, 'j');
        push_char(&mut p, 's');
        push_char(&mut p, 'o');
        push_char(&mut p, 'n');
        proof {
            assert(p@ =~= file_path_spec(self.path@, key@));
        }
        p
    }

    /// Decides a `get` from what the read of the key's file yielded, at
    /// time `now`: an absent file is `NotFound`, an unreadable file is `Io`,
    /// an undecodable entry is `Decode`, and a decoded entry is `NotFound`
    /// when it is expired (lazily: nothing is deleted here) and its value
    /// otherwise.
    pub fn get_from_read(&self, event: FsReadEvent, now: u64) -> (r: Result<String, KvError>)
        ensures
            event is Absent ==> r == Err::<String, KvError>(KvError::NotFound),
            event is Failed ==> r == Err::<String, KvError>(KvError::Io),
            event matches FsReadEvent::Found(contents) ==> match spec_decode(contents@) {
                Option::None => r == Err::<String, KvError>(KvError::Decode),
                Option::Some(p) => if is_expired(p.1, now as nat) {
                    r == Err::<String, KvError>(KvError::NotFound)
                } else {
                    r matches Ok(v) && v@ == p.0
                },
            },
    {
        match event {
            FsReadEvent::Absent => Err(KvError::NotFound),
            FsReadEvent::Failed => Err(KvError::Io),
            FsReadEvent::Found(contents) => {
                match decode_entry(contents.as_str()) {
                    Err(_) => Err(KvError::Decode),
                    Ok(entry) => {
                        if entry.expire > 0 && entry.expire < now {
                            Err(KvError::NotFound)
                        } else {
                            Ok(entry.data)
                        }
                    },
                }
            },
        }
    }

    /// The file contents a `set` writes: the entry for `value` expiring at
    /// `ttl + now` (so a `ttl` of `0` writes `expire = now`, which
    /// [`is_expired`] treats as "never expires").
    pub fn set_contents(&self, value: &str, ttl: u64, now: u64) -> (r: String)
        requires
            ttl + now <= u64::MAX,
        ensures
            r@ == entry_text(value@, (ttl + now) as nat),
    {
        encode_entry(value, ttl + now)
    }

    /// Decides a raw `del` from what removing the file yielded. Absence is
    /// reported here; the facade layer is the one that tolerates it.
    pub fn del_from_event(&self, event: FsDelEvent) -> (r: Result<(), KvError>)
        ensures
            event is Removed ==> r == Ok::<(), KvError>(()),
            event is Missing ==> r == Err::<(), KvError>(KvError::NotFound),
            event is Failed ==> r == Err::<(), KvError>(KvError::Io),
    {
        match event {
            FsDelEvent::Removed => Ok(()),
            FsDelEvent::Missing => Err(KvError::NotFound),
            FsDelEvent::Failed => Err(KvError::Io),
        }
    }
}

/// A freshly stored entry is alive at the moment it was stored, whatever
/// the time to live: `expire = ttl + now` is never strictly before `now`.
/// With `ttl == 0` this is the boundary case `expire == now`, which must
/// not count as already expired.
pub proof fn lemma_fresh_entry_alive(ttl: nat, now: nat)
    ensures
        !is_expired(ttl + now, now),
{
}

/// An entry with a positive expiration timestamp is expired at every
/// strictly later time: after its time to live has elapsed, reading it
/// fails as "not found".
pub proof fn lemma_elapsed_entry_expired(expire: nat, now: nat)
    requires
        0 < expire < now,
    ensures
        is_expired(expire, now),
{
}

/// The store's round trip: the contents a `set` of `value` with time to
/// live `ttl` writes at time `now` decode back to exactly `value` with
/// expiration `ttl + now`, and that entry is still alive at `now` — so a
/// `get` through [`KVFilesystem::get_from_read`] at the same time returns
/// the value, for every value and every `ttl`, the boundary `ttl == 0`
/// included.
pub proof fn lemma_set_then_get(value: Seq<char>, ttl: u64, now: u64)
    requires
        ttl + now <= u64::MAX,
    ensures
        spec_decode(entry_text(value, (ttl + now) as nat)) == Some((value, (ttl + now) as nat)),
        !is_expired((ttl + now) as nat, now as nat),
{
    crate::codec::lemma_entry_round_trip(value, (ttl + now) as u64);
}

/// Racing writers leave no corrupt entry behind: when several callers miss
/// on the same key, each compute a value, and each write it whole, then
/// whichever writer's contents land last, a read finds a whole entry again
/// and gets back exactly that writer's value — one of the computed ones.
/// (Which writer wins is the store's affair; every outcome is covered.)
pub proof fn lemma_race_leaves_some_computed_value(
    values: Seq<Seq<char>>,
    winner: int,
    ttl: u64,
    now: u64,
)
    requires
        0 <= winner < values.len(),
        ttl + now <= u64::MAX,
    ensures
        spec_decode(entry_text(values[winner], (ttl + now) as nat)) == Some(
            (values[winner], (ttl + now) as nat),
        ),
        !is_expired((ttl + now) as nat, now as nat),
{
    lemma_set_then_get(values[winner], ttl, now);
}

} // verus!
