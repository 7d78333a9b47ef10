use toki::filestore::FsReadEvent;
use toki::remotestore::{RemoteReadEvent, RemoteSetCmd, RemoteWriteEvent};
use toki::{KVBackend, KVManager, KvError};

#[test]
fn file_scheme_selects_filesystem() {
    let m = KVManager::new("file:/tmp/cache", "").unwrap();
    match &m.backend {
        KVBackend::KVFilesystem(f) => assert_eq!(f.path, "/tmp/cache"),
        KVBackend::KVRedis(_) => panic!("wrong backend"),
    }
}

#[test]
fn redis_schemes_select_remote_store() {
    let m = KVManager::new("redis://localhost:6379/0", "").unwrap();
    match &m.backend {
        KVBackend::KVRedis(r) => assert_eq!(r.url, "redis://localhost:6379/0"),
        KVBackend::KVFilesystem(_) => panic!("wrong backend"),
    }
    let m = KVManager::new("redis+unix:///run/redis.sock", "").unwrap();
    match &m.backend {
        KVBackend::KVRedis(r) => assert_eq!(r.url, "redis+unix:///run/redis.sock"),
        KVBackend::KVFilesystem(_) => panic!("wrong backend"),
    }
}

#[test]
fn unknown_scheme_is_a_configuration_error() {
    assert_eq!(KVManager::new("memcache://x", "").unwrap_err(), KvError::Configuration);
    assert_eq!(KVManager::new("", "").unwrap_err(), KvError::Configuration);
    // The prefix match is case-sensitive.
    assert_eq!(KVManager::new("FILE:/tmp", "").unwrap_err(), KvError::Configuration);
}

#[test]
fn manager_keeps_its_prefix_and_normalizes_keys() {
    let m = KVManager::new("file:/c", "app:").unwrap();
    assert_eq!(m.prefix, "app:");
    // The prefix is prepended as configured; the key part is substituted.
    assert_eq!(m.backend_key("a/b.c"), "app:a-b-c");
}

#[test]
fn get_some_turns_absence_into_none() {
    let m = KVManager::new("file:/c", "").unwrap();
    assert_eq!(m.get_some_complete(Err(KvError::NotFound)).unwrap(), None);
    assert_eq!(m.get_some_complete(Ok("v".to_string())).unwrap(), Some("v".to_string()));
    assert_eq!(m.get_some_complete(Err(KvError::Decode)).unwrap_err(), KvError::Decode);
    assert_eq!(m.get_some_complete(Err(KvError::Connection)).unwrap_err(), KvError::Connection);
}

#[test]
fn get_or_turns_absence_into_default() {
    let m = KVManager::new("file:/c", "").unwrap();
    assert_eq!(m.get_or_complete(Err(KvError::NotFound), "d".to_string()).unwrap(), "d");
    assert_eq!(m.get_or_complete(Ok("v".to_string()), "d".to_string()).unwrap(), "v");
    assert_eq!(
        m.get_or_complete(Err(KvError::Io), "d".to_string()).unwrap_err(),
        KvError::Io
    );
}

#[test]
fn facade_delete_is_idempotent() {
    let m = KVManager::new("file:/c", "").unwrap();
    assert!(m.del_complete(Ok(())).is_ok());
    assert!(m.del_complete(Err(KvError::NotFound)).is_ok());
    assert_eq!(m.del_complete(Err(KvError::Io)).unwrap_err(), KvError::Io);
}

#[test]
fn get_or_init_hit_and_miss() {
    let m = KVManager::new("file:/c", "").unwrap();

    // First call, key absent: the caller is told to compute.
    let step = m.get_or_init_lookup(Ok(None)).unwrap();
    assert!(step.is_none());
    let computed = m.get_or_init_computed("fresh".to_string());
    assert_eq!(computed.value, "fresh");
    assert!(!computed.hit);

    // Second call, value present: a hit, no initializer involved.
    let step = m.get_or_init_lookup(Ok(Some("fresh".to_string()))).unwrap();
    let hit = step.unwrap();
    assert_eq!(hit.value, "fresh");
    assert!(hit.hit);

    // Failures pass through.
    assert_eq!(m.get_or_init_lookup(Err(KvError::Connection)).unwrap_err(), KvError::Connection);
}

#[test]
fn get_or_init_full_cycle_over_the_filesystem_logic() {
    // The read-through, compute-on-miss workflow, with the file contents
    // simulated as plain strings.
    let m = KVManager::new("file:/c", "").unwrap();
    let fs = match &m.backend {
        KVBackend::KVFilesystem(f) => f,
        KVBackend::KVRedis(_) => panic!("wrong backend"),
    };
    let now = 1000u64;

    // Miss: nothing on disk.
    let raw = fs.get_from_read(FsReadEvent::Absent, now);
    let looked = m.get_some_complete(raw).unwrap();
    assert_eq!(looked, None);
    let step = m.get_or_init_lookup(Ok(looked)).unwrap();
    assert!(step.is_none());
    let computed = m.get_or_init_computed("\"value\"".to_string());
    assert!(!computed.hit);
    let written = fs.set_contents(&computed.value, 60, now);

    // Hit: the write is now the file's contents.
    let raw = fs.get_from_read(FsReadEvent::Found(written), now + 30);
    let looked = m.get_some_complete(raw).unwrap();
    let step = m.get_or_init_lookup(Ok(looked)).unwrap();
    let hit = step.unwrap();
    assert!(hit.hit);
    assert_eq!(hit.value, "\"value\"");
}

#[test]
fn concurrent_misses_last_write_wins() {
    // Two callers race get_or_init on the same absent key: both may miss,
    // both compute, both write. Each returns its own computed value and the
    // store ends up holding one of them, whole.
    let m = KVManager::new("file:/c", "").unwrap();
    let fs = match &m.backend {
        KVBackend::KVFilesystem(f) => f,
        KVBackend::KVRedis(_) => panic!("wrong backend"),
    };
    let now = 1000u64;

    let looked_a = m.get_some_complete(fs.get_from_read(FsReadEvent::Absent, now)).unwrap();
    let looked_b = m.get_some_complete(fs.get_from_read(FsReadEvent::Absent, now)).unwrap();
    assert_eq!(looked_a, None);
    assert_eq!(looked_b, None);

    let ra = m.get_or_init_computed("\"a\"".to_string());
    let rb = m.get_or_init_computed("\"b\"".to_string());
    let write_a = fs.set_contents(&ra.value, 60, now);
    let write_b = fs.set_contents(&rb.value, 60, now);

    // Whole-file overwrites: whichever lands last is what a later get sees.
    for final_contents in [write_a, write_b] {
        let got = fs.get_from_read(FsReadEvent::Found(final_contents), now).unwrap();
        assert!(got == "\"a\"" || got == "\"b\"");
    }
}

#[test]
fn remote_store_decisions() {
    let m = KVManager::new("redis://h", "").unwrap();
    let r = match &m.backend {
        KVBackend::KVRedis(r) => r,
        KVBackend::KVFilesystem(_) => panic!("wrong backend"),
    };
    assert_eq!(r.get_from_read(RemoteReadEvent::Value("\"x\"".to_string())).unwrap(), "\"x\"");
    assert_eq!(r.get_from_read(RemoteReadEvent::Missing).unwrap_err(), KvError::NotFound);
    assert_eq!(r.get_from_read(RemoteReadEvent::Failed).unwrap_err(), KvError::Connection);

    assert!(matches!(r.set_command(0), RemoteSetCmd::SetPlain));
    assert!(matches!(r.set_command(30), RemoteSetCmd::SetWithExpiry(30)));

    assert!(r.write_from_event(RemoteWriteEvent::Done).is_ok());
    assert_eq!(r.write_from_event(RemoteWriteEvent::Failed).unwrap_err(), KvError::Connection);
}
