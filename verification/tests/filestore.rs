use toki::codec::encode_entry;
use toki::filestore::{FsDelEvent, FsReadEvent};
use toki::{KVFilesystem, KvError};

#[test]
fn file_path_layout() {
    let fs = KVFilesystem::new("/var/cache/app");
    assert_eq!(fs.file_path("some-key"), "/var/cache/app/some-key.json");
}

#[test]
fn get_absent_is_not_found() {
    let fs = KVFilesystem::new("/r");
    assert_eq!(fs.get_from_read(FsReadEvent::Absent, 1000).unwrap_err(), KvError::NotFound);
}

#[test]
fn get_failed_read_is_io() {
    let fs = KVFilesystem::new("/r");
    assert_eq!(fs.get_from_read(FsReadEvent::Failed, 1000).unwrap_err(), KvError::Io);
}

#[test]
fn get_garbage_is_decode() {
    let fs = KVFilesystem::new("/r");
    let ev = FsReadEvent::Found("not an entry".to_string());
    assert_eq!(fs.get_from_read(ev, 1000).unwrap_err(), KvError::Decode);
}

#[test]
fn set_then_get_round_trips() {
    // A positive ttl: written at 1000, read back at 1000.
    let fs = KVFilesystem::new("/r");
    let contents = fs.set_contents("\"hello\"", 60, 1000);
    assert_eq!(contents, "{\"data\":\"hello\",\"expire\":1060}");
    let got = fs.get_from_read(FsReadEvent::Found(contents), 1000).unwrap();
    assert_eq!(got, "\"hello\"");
}

#[test]
fn elapsed_ttl_is_not_found() {
    // Written at 1000 with a ttl of 1, read after the ttl has elapsed.
    let fs = KVFilesystem::new("/r");
    let contents = fs.set_contents("\"v\"", 1, 1000);
    let got = fs.get_from_read(FsReadEvent::Found(contents), 1002);
    assert_eq!(got.unwrap_err(), KvError::NotFound);
}

#[test]
fn expire_exactly_now_is_still_alive() {
    // The boundary: an entry expiring at the very second of the read.
    let fs = KVFilesystem::new("/r");
    let ev = FsReadEvent::Found(encode_entry("7", 1000));
    assert_eq!(fs.get_from_read(ev, 1000).unwrap(), "7");
}

#[test]
fn zero_ttl_set_then_immediate_get_succeeds() {
    // ttl 0 writes expire = now; read at the same second must succeed.
    let fs = KVFilesystem::new("/r");
    let contents = fs.set_contents("\"keep\"", 0, 5000);
    assert_eq!(contents, "{\"data\":\"keep\",\"expire\":5000}");
    let got = fs.get_from_read(FsReadEvent::Found(contents), 5000).unwrap();
    assert_eq!(got, "\"keep\"");
}

#[test]
fn zero_expire_field_never_expires() {
    // An entry whose stored timestamp is 0 is alive at any later time.
    let fs = KVFilesystem::new("/r");
    let ev = FsReadEvent::Found(encode_entry("1", 0));
    assert_eq!(fs.get_from_read(ev, u64::MAX).unwrap(), "1");
}

#[test]
fn del_events() {
    let fs = KVFilesystem::new("/r");
    assert!(fs.del_from_event(FsDelEvent::Removed).is_ok());
    assert_eq!(fs.del_from_event(FsDelEvent::Missing).unwrap_err(), KvError::NotFound);
    assert_eq!(fs.del_from_event(FsDelEvent::Failed).unwrap_err(), KvError::Io);
}
