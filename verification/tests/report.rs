use std::collections::HashMap;
use tsm_client::client::PortError;
use tsm_client::client::StoragePort;
use tsm_client::report::check_generation;
use tsm_client::report::create;
use tsm_client::report::decode_provider;
use tsm_client::report::unsafe_wrap;
use tsm_client::report::OpenReport;
use tsm_client::report::Privilege;
use tsm_client::report::ReportError;
use tsm_client::report::Request;
use tsm_client::tsm::read_uint64_file;
use tsm_client::tsm::TsmError;
use tsm_client::tsm::TsmPath;

/// A scripted storage port acting as the kernel would: every write
/// advances the generation counter, and the generation attribute of any
/// entry reads back as that counter's decimal text.
#[derive(Debug, Default)]
struct FakePort {
    files: HashMap<String, Vec<u8>>,
    writes: Vec<(String, Vec<u8>)>,
    generation: u64,
    fail_writes: bool,
    next_dirs: Vec<String>,
}

impl StoragePort for FakePort {
    fn read_file(&mut self, path: &str) -> Result<Vec<u8>, PortError> {
        if path.ends_with("/generation") {
            return Ok(self.generation.to_string().into_bytes());
        }
        self.files.get(path).cloned().ok_or(PortError)
    }

    fn write_file(&mut self, path: &str, data: &[u8]) -> Result<(), PortError> {
        if self.fail_writes {
            return Err(PortError);
        }
        self.writes.push((path.to_string(), data.to_vec()));
        self.files.insert(path.to_string(), data.to_vec());
        self.generation += 1;
        Ok(())
    }

    fn mkdir_temp(&mut self, dir: &str, prefix: &str) -> Result<String, PortError> {
        if self.next_dirs.is_empty() {
            return Err(PortError);
        }
        let name = self.next_dirs.remove(0);
        Ok(format!("{}/{}{}", dir, prefix, name))
    }

    fn read_dir(&mut self, _dir: &str) -> Result<Vec<String>, PortError> {
        Ok(vec![])
    }

    fn remove_all(&mut self, _path: &str) -> Result<(), PortError> {
        Ok(())
    }
}

fn entry_file(attr: &str) -> String {
    format!("/sys/kernel/config/tsm/report/entry1/{}", attr)
}

const ENTRY1: &str = "/sys/kernel/config/tsm/report/entry1";

#[test]
fn wrap_reads_initial_generation() {
    let mut port = FakePort::default();
    port.generation = 7;
    let report = unsafe_wrap(port, ENTRY1).unwrap();
    assert_eq!(report.expected_generation, 7);
    assert_eq!(report.entry.subsystem, "report");
    assert_eq!(report.entry.entry, "entry1");
    assert!(report.entry.attribute.is_none());
    assert!(report.in_blob.is_empty());
    assert!(report.privilege.is_none());
    assert!(!report.get_aux_blob);
    assert_eq!(report.service_provider, "");
}

#[test]
fn wrap_rejects_foreign_path() {
    let port = FakePort::default();
    let err = unsafe_wrap(port, "/invalid/tsm/path").unwrap_err();
    assert!(matches!(err, ReportError::InvalidPath { input } if input == "/invalid/tsm/path"));
}

#[test]
fn full_protocol_performs_all_conditional_steps() {
    let mut port = FakePort::default();
    port.generation = 5;
    port.files.insert(entry_file("auxblob"), b"aux".to_vec());
    port.files.insert(entry_file("outblob"), b"out".to_vec());
    port.files.insert(entry_file("provider"), b"prov".to_vec());
    port.files.insert(entry_file("manifestblob"), b"mani".to_vec());
    let mut report = unsafe_wrap(port, ENTRY1).unwrap();
    report.in_blob = b"hello".to_vec();
    report.privilege = Some(Privilege { level: 2 });
    report.get_aux_blob = true;
    report.service_provider = String::from("sp");
    report.service_guid = String::from("guid");
    report.service_manifest_version = String::from("3");

    let resp = report.get().unwrap();

    // Five writes, in protocol order, with the configured bytes.
    let written: Vec<(&str, &[u8])> = report
        .client
        .writes
        .iter()
        .map(|(p, d)| (p.as_str(), d.as_slice()))
        .collect();
    let inblob = entry_file("inblob");
    let privlevel = entry_file("privlevel");
    let provider = entry_file("service_provider");
    let guid = entry_file("service_guid");
    let manifest_version = entry_file("service_manifest_version");
    let expected: Vec<(&str, &[u8])> = vec![
        (inblob.as_str(), b"hello"),
        (privlevel.as_str(), b"2"),
        (provider.as_str(), b"sp"),
        (guid.as_str(), b"guid"),
        (manifest_version.as_str(), b"3"),
    ];
    assert_eq!(written, expected);

    // One generation step per successful write.
    assert_eq!(report.expected_generation, 10);

    assert_eq!(resp.aux_blob.as_deref(), Some(b"aux".as_slice()));
    assert_eq!(resp.out_blob, b"out");
    assert_eq!(resp.provider, "prov");
    assert_eq!(resp.manifest_blob.as_deref(), Some(b"mani".as_slice()));
}

#[test]
fn minimal_request_skips_conditional_steps() {
    let mut port = FakePort::default();
    // Only outblob and provider exist: reading auxblob or manifestblob
    // would fail, so their absence from the response shows they were
    // never read.
    port.files.insert(entry_file("outblob"), b"out".to_vec());
    port.files.insert(entry_file("provider"), b"p".to_vec());
    let mut report = unsafe_wrap(port, ENTRY1).unwrap();
    report.in_blob = Vec::new();

    let resp = report.get().unwrap();

    let written: Vec<&str> = report.client.writes.iter().map(|(p, _)| p.as_str()).collect();
    assert_eq!(written, vec![entry_file("inblob").as_str()]);
    assert_eq!(report.client.writes[0].1, b"");
    assert_eq!(report.expected_generation, 1);
    assert!(resp.aux_blob.is_none());
    assert!(resp.manifest_blob.is_none());
    assert_eq!(resp.out_blob, b"out");
}

#[test]
fn generation_mismatch_carries_got_want_and_attribute() {
    let mut port = FakePort::default();
    port.generation = 3;
    port.files.insert(entry_file("outblob"), b"out".to_vec());
    let mut report = unsafe_wrap(port, ENTRY1).unwrap();
    report.in_blob = b"x".to_vec();
    // Another actor writes to the entry after the session was bound.
    report.client.generation += 1;

    let err = report.get().unwrap_err();
    match err {
        ReportError::GenerationErr { got, want, attribute } => {
            assert_eq!(got, 5);
            assert_eq!(want, 4);
            assert_eq!(attribute, "outblob");
        },
        other => panic!("expected a generation mismatch, got {:?}", other),
    }
}

#[test]
fn generation_mismatch_names_first_read_attribute() {
    let mut port = FakePort::default();
    port.files.insert(entry_file("auxblob"), b"aux".to_vec());
    let mut report = unsafe_wrap(port, ENTRY1).unwrap();
    report.get_aux_blob = true;
    report.client.generation += 2;

    let err = report.get().unwrap_err();
    match err {
        ReportError::GenerationErr { got, want, attribute } => {
            assert_eq!(got, 3);
            assert_eq!(want, 1);
            assert_eq!(attribute, "auxblob");
        },
        other => panic!("expected a generation mismatch, got {:?}", other),
    }
}

#[test]
fn malformed_provider_degrades_to_empty_string() {
    let mut port = FakePort::default();
    port.files.insert(entry_file("outblob"), b"out".to_vec());
    port.files.insert(entry_file("provider"), vec![0xff, 0xfe, 0x00]);
    let mut report = unsafe_wrap(port, ENTRY1).unwrap();

    let resp = report.get().unwrap();
    assert_eq!(resp.provider, "");
}

#[test]
fn decode_provider_is_lenient_only_for_malformed_utf8() {
    assert_eq!(decode_provider(b"vendor".to_vec()), "vendor");
    assert_eq!(decode_provider(Vec::new()), "");
    assert_eq!(decode_provider(vec![0xc3, 0x28]), "");
}

#[test]
fn missing_output_is_an_io_error() {
    let port = FakePort::default();
    let mut report = unsafe_wrap(port, ENTRY1).unwrap();
    let err = report.get().unwrap_err();
    assert!(matches!(err, ReportError::Io { attribute } if attribute == "outblob"));
}

#[test]
fn failed_write_is_reported_and_generation_unchanged() {
    let mut port = FakePort::default();
    port.generation = 9;
    let mut report = unsafe_wrap(port, ENTRY1).unwrap();
    report.client.fail_writes = true;
    let err = report.get().unwrap_err();
    assert!(matches!(err, ReportError::Io { attribute } if attribute == "inblob"));
    assert_eq!(report.expected_generation, 9);
}

#[test]
fn write_plan_lists_exactly_the_configured_writes() {
    let report = OpenReport {
        in_blob: b"in".to_vec(),
        privilege: Some(Privilege { level: 42 }),
        get_aux_blob: false,
        service_provider: String::from("sp"),
        service_guid: String::new(),
        service_manifest_version: String::from("9.1"),
        entry: TsmPath {
            subsystem: String::from("report"),
            entry: String::from("e"),
            attribute: None,
        },
        expected_generation: 0,
        client: FakePort::default(),
    };
    let plan = report.write_plan();
    let steps: Vec<(&str, &[u8])> = plan
        .iter()
        .map(|s| (s.attribute.as_str(), s.data.as_slice()))
        .collect();
    let expected: Vec<(&str, &[u8])> = vec![
        ("inblob", b"in"),
        ("privlevel", b"42"),
        ("service_provider", b"sp"),
        ("service_manifest_version", b"9.1"),
    ];
    assert_eq!(steps, expected);
}

#[test]
fn create_allocates_and_configures_a_fresh_entry() {
    let mut port = FakePort::default();
    port.next_dirs = vec![String::from("0001")];
    let request = Request {
        in_blob: b"quote me".to_vec(),
        privilege: None,
        get_aux_blob: true,
    };
    let report = create(port, request).unwrap();
    assert_eq!(report.entry.subsystem, "report");
    assert_eq!(report.entry.entry, "entry0001");
    assert_eq!(report.in_blob, b"quote me");
    assert!(report.privilege.is_none());
    assert!(report.get_aux_blob);
    assert_eq!(report.expected_generation, 0);
}

#[test]
fn create_without_allocation_fails() {
    let port = FakePort::default();
    let request = Request { in_blob: Vec::new(), privilege: None, get_aux_blob: false };
    assert!(create(port, request).is_err());
}

#[test]
fn check_generation_compares_exactly() {
    assert!(check_generation(5, 5, "outblob").is_ok());
    let err = check_generation(6, 5, "outblob").unwrap_err();
    match err {
        ReportError::GenerationErr { got, want, attribute } => {
            assert_eq!(got, 6);
            assert_eq!(want, 5);
            assert_eq!(attribute, "outblob");
        },
        other => panic!("expected a generation mismatch, got {:?}", other),
    }
}

#[test]
fn read_uint64_file_reports_parse_and_io_failures() {
    let mut port = FakePort::default();
    port.files.insert(String::from("/tmp/x"), b"abc".to_vec());
    let err = read_uint64_file(&mut port, "/tmp/x").unwrap_err();
    assert!(matches!(err, TsmError::Parse { path } if path == "/tmp/x"));
    let err = read_uint64_file(&mut port, "/tmp/absent").unwrap_err();
    assert!(matches!(err, TsmError::Io { path } if path == "/tmp/absent"));
    port.files.insert(String::from("/tmp/y"), b"37\n".to_vec());
    assert_eq!(read_uint64_file(&mut port, "/tmp/y").unwrap(), 37);
}
