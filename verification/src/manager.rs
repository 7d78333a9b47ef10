use vstd::prelude::*;
use vstd::string::StrSliceExecFns;
use crate::errors::KvError;
use crate::filestore::KVFilesystem;
use crate::keys::{normailze_key, normalized};
use crate::remotestore::KVRedis;

verus! {

/// Whether `p` is a prefix of `s`.
pub open spec fn has_prefix(s: Seq<char>, p: Seq<char>) -> bool {
    p.len() <= s.len() && s.subrange(0, p.len() as int) == p
}

/// Exec counterpart of [`has_prefix`].
fn str_has_prefix(s: &str, p: &str) -> (r: bool)
    ensures
        r == has_prefix(s@, p@),
{
    let ns = s.unicode_len();
    let np = p.unicode_len();
    if np > ns {
        return false;
    }
    let mut i: usize = 0;
    while i < np
        invariant
            i <= np,
            np <= ns,
            ns == s@.len(),
            np == p@.len(),
            forall|k: int| 0 <= k < i ==> s@[k] == p@[k],
        decreases np - i,
    {
        if s.get_char(i) != p.get_char(i) {
            proof {
                if has_prefix(s@, p@) {
                    assert(s@.subrange(0, np as int)[i as int] == s@[i as int]);
                }
            }
            return false;
        }
        i = i + 1;
    }
    proof {
        assert(s@.subrange(0, np as int) =~= p@);
    }
    true
}

/// The one active backend a manager owns, chosen at construction time.
#[derive(Debug, Clone)]
pub enum KVBackend {
    KVFilesystem(KVFilesystem),
    KVRedis(KVRedis),
}

/// The cache facade: one backend, plus the namespace prefix every key is
/// normalized under before it reaches that backend.
#[derive(Debug, Clone)]
pub struct KVManager {
    pub backend: KVBackend,
    pub prefix: String,
}

/// What `get_or_init` returns: the value, and whether it was already
/// present (`hit`) rather than freshly computed and stored.
#[derive(Debug, Clone)]
pub struct KvGetOrInitResult {
    pub value: String,
    pub hit: bool,
}

impl KVManager {
    /// Selects the backend from a connection string: `file:<root>` for the
    /// filesystem, `redis:...` or `redis+unix:...` (passed through whole)
    /// for the remote store. Any other scheme is a recoverable
    /// `Configuration` error, and `prefix` becomes the key namespace.
    pub fn new(conn: &str, prefix: &str) -> (r: Result<KVManager, KvError>)
        ensures
            r is Ok <==> (has_prefix(conn@, "file:"@) || has_prefix(conn@, "redis:"@)
                || has_prefix(conn@, "redis+unix:"@)),
            r matches Ok(m) ==> m.prefix@ == prefix@ && (if has_prefix(conn@, "file:"@) {
                m.backend matches KVBackend::KVFilesystem(f) && f.path@ == conn@.subrange(
                    5,
                    conn@.len() as int,
                )
            } else {
                m.backend matches KVBackend::KVRedis(c) && c.url@ == conn@
            }),
            r matches Err(e) ==> e == KvError::Configuration,
    {
        if str_has_prefix(conn, "file:") {
            proof {
                reveal_strlit("file:");
            }
            let rest = conn.substring_char(5, conn.unicode_len()).to_owned();
            Ok(
                KVManager {
                    backend: KVBackend::KVFilesystem(KVFilesystem::new(rest.as_str())),
                    prefix: prefix.to_owned(),
                },
            )
        } else if str_has_prefix(conn, "redis:") || str_has_prefix(conn, "redis+unix:") {
            Ok(
                KVManager {
                    backend: KVBackend::KVRedis(KVRedis::new(conn)),
                    prefix: prefix.to_owned(),
                },
            )
        } else {
            Err(KvError::Configuration)
        }
    }

    /// The key the backend sees for a caller-supplied key: normalized, and
    /// namespaced under this manager's prefix. Applied once per operation.
    pub fn backend_key(&self, key: &str) -> (r: String)
        ensures
            r@ == normalized(self.prefix@, key@),
    {
        normailze_key(self.prefix.as_str(), key)
    }

    /// Derives `get_some` from a raw `get` outcome: absence becomes "no
    /// value present", every other failure passes through unchanged.
    pub fn get_some_complete(&self, looked: Result<String, KvError>) -> (r: Result<
        Option<String>,
        KvError,
    >)
        ensures
            looked matches Ok(v) ==> r == Ok::<Option<String>, KvError>(Some(v)),
            looked matches Err(e) ==> r == (if e == KvError::NotFound {
                Ok::<Option<String>, KvError>(None)
            } else {
                Err::<Option<String>, KvError>(e)
            }),
    {
        match looked {
            Ok(v) => Ok(Some(v)),
            Err(e) => if e == KvError::NotFound {
                Ok(None)
            } else {
                Err(e)
            },
        }
    }

    /// Derives `get_or` from a raw `get` outcome: absence becomes the
    /// caller's default, every other failure passes through unchanged.
    pub fn get_or_complete(&self, looked: Result<String, KvError>, default: String) -> (r: Result<
        String,
        KvError,
    >)
        ensures
            looked matches Ok(v) ==> r == Ok::<String, KvError>(v),
            looked matches Err(e) ==> r == (if e == KvError::NotFound {
                Ok::<String, KvError>(default)
            } else {
                Err::<String, KvError>(e)
            }),
    {
        match looked {
            Ok(v) => Ok(v),
            Err(e) => if e == KvError::NotFound {
                Ok(default)
            } else {
                Err(e)
            },
        }
    }

    /// Derives the facade's `del` from a raw backend `del` outcome: the
    /// facade's delete is idempotent, so a backend's "nothing to delete"
    /// is success here; every other failure passes through unchanged.
    pub fn del_complete(&self, deleted: Result<(), KvError>) -> (r: Result<(), KvError>)
        ensures
            deleted is Ok ==> r == Ok::<(), KvError>(()),
            deleted matches Err(e) ==> r == (if e == KvError::NotFound {
                Ok::<(), KvError>(())
            } else {
                Err::<(), KvError>(e)
            }),
    {
        match deleted {
            Ok(_) => Ok(()),
            Err(e) => if e == KvError::NotFound {
                Ok(())
            } else {
                Err(e)
            },
        }
    }

    /// The first half of `get_or_init`: decides from the `get_some`
    /// outcome. A present value is returned as a hit without invoking any
    /// initializer; `Ok(None)` means the caller must compute the value,
    /// store it, and finish with [`KVManager::get_or_init_computed`]; any
    /// failure passes through unchanged.
    pub fn get_or_init_lookup(&self, looked: Result<Option<String>, KvError>) -> (r: Result<
        Option<KvGetOrInitResult>,
        KvError,
    >)
        ensures
            looked matches Ok(Some(v)) ==> (r matches Ok(ro) && ro matches Some(g) && g.value == v
                && g.hit == true),
            looked matches Ok(None::<String>) ==> r is Ok && r->Ok_0 is None,
            looked matches Err(e) ==> r == Err::<Option<KvGetOrInitResult>, KvError>(e),
    {
        match looked {
            Ok(Some(v)) => Ok(Some(KvGetOrInitResult { value: v, hit: true })),
            Ok(None) => Ok(None),
            Err(e) => Err(e),
        }
    }

    /// The second half of `get_or_init`, after a miss: the freshly computed
    /// value is returned with `hit` false.
    pub fn get_or_init_computed(&self, value: String) -> (r: KvGetOrInitResult)
        ensures
            r.value == value,
            r.hit == false,
    {
        KvGetOrInitResult { value, hit: false }
    }
}

} // verus!
