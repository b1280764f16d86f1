use std::collections::HashMap;
use tsm_client::client::PortError;
use tsm_client::client::StoragePort;
use tsm_client::rtmr::extend_digest;
use tsm_client::rtmr::search_rtmr_interface;
use tsm_client::rtmr::ExtendError;

/// A scripted storage port for the RTMR workflow: a controllable
/// directory listing, a queue of names for created directories, and a
/// plain file store.
#[derive(Debug, Default)]
struct FakePort {
    files: HashMap<String, Vec<u8>>,
    writes: Vec<(String, Vec<u8>)>,
    listing: Vec<String>,
    mkdirs: Vec<(String, String)>,
    next_dirs: Vec<String>,
}

impl StoragePort for FakePort {
    fn read_file(&mut self, path: &str) -> Result<Vec<u8>, PortError> {
        self.files.get(path).cloned().ok_or(PortError)
    }

    fn write_file(&mut self, path: &str, data: &[u8]) -> Result<(), PortError> {
        self.writes.push((path.to_string(), data.to_vec()));
        self.files.insert(path.to_string(), data.to_vec());
        Ok(())
    }

    fn mkdir_temp(&mut self, dir: &str, prefix: &str) -> Result<String, PortError> {
        if self.next_dirs.is_empty() {
            return Err(PortError);
        }
        self.mkdirs.push((dir.to_string(), prefix.to_string()));
        let name = self.next_dirs.remove(0);
        Ok(format!("{}/{}", dir, name))
    }

    fn read_dir(&mut self, _dir: &str) -> Result<Vec<String>, PortError> {
        Ok(self.listing.clone())
    }

    fn remove_all(&mut self, _path: &str) -> Result<(), PortError> {
        Ok(())
    }
}

fn rtmr_file(entry: &str, attr: &str) -> String {
    format!("/sys/kernel/config/tsm/rtmr/{}/{}", entry, attr)
}

#[test]
fn short_digest_is_rejected_with_both_lengths() {
    let mut port = FakePort::default();
    let err = extend_digest(&mut port, 0, &[0u8; 47]).unwrap_err();
    match err {
        ExtendError::InvalidDigestLength { expected, actual } => {
            assert_eq!(expected, 48);
            assert_eq!(actual, 47);
        },
        other => panic!("expected a digest length failure, got {:?}", other),
    }
    assert!(port.writes.is_empty());
}

#[test]
fn negative_index_is_rejected_after_length_check() {
    let mut port = FakePort::default();
    let err = extend_digest(&mut port, -1, &[0u8; 48]).unwrap_err();
    assert!(matches!(err, ExtendError::InvalidIndex(-1)));
    // The length check wins when both preconditions fail.
    let err = extend_digest(&mut port, -1, &[0u8; 47]).unwrap_err();
    assert!(matches!(err, ExtendError::InvalidDigestLength { expected: 48, actual: 47 }));
}

#[test]
fn extend_reuses_the_entry_it_created() {
    let mut port = FakePort::default();
    port.next_dirs = vec![String::from("rtmr0-fresh")];

    // First call: nothing listed, so a directory is created, its index
    // attribute written, and the digest routed to it.
    extend_digest(&mut port, 0, &[7u8; 48]).unwrap();
    assert_eq!(
        port.mkdirs,
        vec![(String::from("/sys/kernel/config/tsm/rtmr"), String::from("rtmr0-"))]
    );
    assert_eq!(port.files.get(&rtmr_file("rtmr0-fresh", "index")).unwrap(), b"0");
    let first_digest_write = port.writes.last().unwrap().clone();
    assert_eq!(first_digest_write.0, rtmr_file("rtmr0-fresh", "digest"));
    assert_eq!(first_digest_write.1, [7u8; 48]);

    // Second call: the created entry is now listed, so the scan finds
    // it and the digest goes to the same path, with no new directory.
    port.listing = vec![String::from("rtmr0-fresh")];
    extend_digest(&mut port, 0, &[9u8; 48]).unwrap();
    assert_eq!(port.mkdirs.len(), 1);
    let second_digest_write = port.writes.last().unwrap().clone();
    assert_eq!(second_digest_write.0, first_digest_write.0);
    assert_eq!(second_digest_write.1, [9u8; 48]);
}

#[test]
fn scan_matches_on_stored_index_not_name() {
    let mut port = FakePort::default();
    port.listing = vec![String::from("rtmr9-old"), String::from("weird-name")];
    port.files.insert(rtmr_file("rtmr9-old", "index"), b"9\n".to_vec());
    port.files.insert(rtmr_file("weird-name", "index"), b"2\n".to_vec());

    extend_digest(&mut port, 2, &[1u8; 48]).unwrap();
    let last = port.writes.last().unwrap();
    assert_eq!(last.0, rtmr_file("weird-name", "digest"));
    assert!(port.mkdirs.is_empty());
}

#[test]
fn scan_takes_the_first_matching_entry() {
    let mut port = FakePort::default();
    port.listing = vec![String::from("a"), String::from("b")];
    port.files.insert(rtmr_file("a", "index"), b"4".to_vec());
    port.files.insert(rtmr_file("b", "index"), b"4".to_vec());

    let entry = search_rtmr_interface(&mut port, 4).unwrap().unwrap();
    assert_eq!(entry.index, 4);
    assert_eq!(entry.path.entry, "a");
    assert_eq!(entry.path.subsystem, "rtmr");
}

#[test]
fn malformed_stored_index_is_a_parse_error() {
    let mut port = FakePort::default();
    port.listing = vec![String::from("bad")];
    port.files.insert(rtmr_file("bad", "index"), b"not a number".to_vec());

    let err = extend_digest(&mut port, 1, &[0u8; 48]).unwrap_err();
    assert!(matches!(err, ExtendError::Parse { .. }));
}

/// A port on which every operation fails.
#[derive(Debug)]
struct NoListPort;

impl StoragePort for NoListPort {
    fn read_file(&mut self, _path: &str) -> Result<Vec<u8>, PortError> {
        Err(PortError)
    }
    fn write_file(&mut self, _path: &str, _data: &[u8]) -> Result<(), PortError> {
        Err(PortError)
    }
    fn mkdir_temp(&mut self, _dir: &str, _prefix: &str) -> Result<String, PortError> {
        Err(PortError)
    }
    fn read_dir(&mut self, _dir: &str) -> Result<Vec<String>, PortError> {
        Err(PortError)
    }
    fn remove_all(&mut self, _path: &str) -> Result<(), PortError> {
        Err(PortError)
    }
}

#[test]
fn listing_failure_is_an_io_error() {
    let mut port = NoListPort;
    let err = extend_digest(&mut port, 0, &[0u8; 48]).unwrap_err();
    assert!(matches!(err, ExtendError::Io { .. }));
}
