use raincloud::archive::{pack, FileEntry};
use raincloud::clock::LocalFile;
use raincloud::descriptor::encode_descriptor;
use raincloud::errors::{SyncError, SyncErrorKind};
use raincloud::reconcile::{decide_action, Command, Event, Outcome, Reconciler, SyncAction};

const SEC: u64 = 1_000_000_000;

fn file(path: &str, data: &[u8], modified: u64) -> LocalFile {
    LocalFile { path: path.as_bytes().to_vec(), data: data.to_vec(), modified }
}

fn machine() -> Reconciler {
    Reconciler::new(b"save".to_vec(), b"2024-05-06".to_vec())
}

#[test]
fn decision_follows_the_clocks() {
    assert_eq!(decide_action(1000, None), SyncAction::Upload);
    assert_eq!(decide_action(1000, Some(2000)), SyncAction::Download);
    assert_eq!(decide_action(1000, Some(1000)), SyncAction::NoOp);
    assert_eq!(decide_action(1000, Some(999)), SyncAction::Upload);
    assert_eq!(decide_action(0, Some(0)), SyncAction::NoOp);
}

#[test]
fn missing_local_directory_finishes_silently() {
    // Scenario: the save's directory does not exist.  The job is done at
    // once and no remote command was ever issued.
    let mut m = machine();
    let cmd = m.step(Event::Begin);
    assert!(matches!(cmd, Command::ScanLocal));
    // The machine finishes directly: no OpenRemote was ever issued.
    match m.step(Event::LocalMissing) {
        Command::Finish(Outcome::Done) => {}
        _ => panic!("expected a silent completion"),
    }
}

#[test]
fn empty_remote_namespace_uploads_local_state() {
    // Scenario: no descriptor on the remote side; the local files' newest
    // modification time is 1000 seconds.  The job publishes one archive
    // and one descriptor carrying that clock.
    let files =
        vec![file("a.txt", b"alpha", 900 * SEC), file("b/c.txt", b"beta", 1000 * SEC)];
    let mut m = machine();
    assert!(matches!(m.step(Event::Begin), Command::ScanLocal));
    assert!(matches!(m.step(Event::LocalTree(files)), Command::OpenRemote));
    let cmd = m.step(Event::RemoteListing(Vec::new()));
    let mut namespace: Vec<Vec<u8>> = Vec::new();
    match cmd {
        Command::Publish { delete, descriptor_name, descriptor, archive_name, archive } => {
            assert!(delete.is_empty());
            assert_eq!(descriptor_name, b"save-2024-05-06.json".to_vec());
            assert_eq!(archive_name, b"save-2024-05-06.zip".to_vec());
            assert_eq!(descriptor, encode_descriptor(1000 * SEC));
            let entries = raincloud::archive::unpack(&archive).unwrap();
            assert_eq!(entries.len(), 2);
            assert_eq!(entries[0].path, b"a.txt".to_vec());
            assert_eq!(entries[1].data, b"beta".to_vec());
            namespace.push(descriptor_name);
            namespace.push(archive_name);
        }
        _ => panic!("expected a publish command"),
    }
    // The remote namespace now holds exactly one descriptor and one
    // archive.
    assert_eq!(namespace.len(), 2);
    match m.step(Event::Stored) {
        Command::Finish(Outcome::Done) => {}
        _ => panic!("expected completion after storing"),
    }
}

#[test]
fn upload_clears_foreign_entries_first() {
    // No descriptor, but stray entries sit in the namespace: publishing
    // removes them all before the new pair is written.
    let listing = vec![b"stray.zip".to_vec(), b"notes.txt".to_vec()];
    let mut m = machine();
    assert!(matches!(m.step(Event::Begin), Command::ScanLocal));
    let local = vec![file("a", b"data", 10 * SEC)];
    assert!(matches!(m.step(Event::LocalTree(local)), Command::OpenRemote));
    match m.step(Event::RemoteListing(listing)) {
        Command::Publish { delete, .. } => {
            assert_eq!(delete, vec![b"stray.zip".to_vec(), b"notes.txt".to_vec()]);
        }
        _ => panic!("expected a publish command"),
    }
}

#[test]
fn newer_remote_copy_is_downloaded() {
    // Scenario: the remote descriptor reads 2000 seconds, the local clock
    // 1000.  The job fetches and unpacks the remote archive.
    let remote_files = vec![
        FileEntry { path: b"saved/world.dat".to_vec(), data: b"newer state".to_vec() },
    ];
    let remote_archive = pack(&remote_files).unwrap();
    let listing =
        vec![b"save-2024-01-01.json".to_vec(), b"save-2024-01-01.zip".to_vec()];

    let mut m = machine();
    assert!(matches!(m.step(Event::Begin), Command::ScanLocal));
    let local = vec![file("saved/world.dat", b"old state", 1000 * SEC)];
    assert!(matches!(m.step(Event::LocalTree(local)), Command::OpenRemote));
    match m.step(Event::RemoteListing(listing)) {
        Command::FetchDescriptor(name) => {
            assert_eq!(name, b"save-2024-01-01.json".to_vec());
        }
        _ => panic!("expected a descriptor fetch"),
    }
    match m.step(Event::DescriptorBytes(encode_descriptor(2000 * SEC))) {
        Command::FetchArchive(name) => {
            assert_eq!(name, b"save-2024-01-01.zip".to_vec());
        }
        _ => panic!("expected an archive fetch"),
    }
    match m.step(Event::ArchiveBytes(remote_archive)) {
        Command::WriteLocal(entries) => {
            assert_eq!(entries.len(), 1);
            assert_eq!(entries[0].path, b"saved/world.dat".to_vec());
            assert_eq!(entries[0].data, b"newer state".to_vec());
        }
        _ => panic!("expected the unpacked remote files"),
    }
    match m.step(Event::Written) {
        Command::Finish(Outcome::Done) => {}
        _ => panic!("expected completion after writing"),
    }
}

#[test]
fn equal_clocks_do_nothing() {
    // A second run over unchanged state: the descriptor carries exactly
    // the local clock, and the job completes without further transfers.
    let listing = vec![b"save-x.json".to_vec(), b"save-x.zip".to_vec()];
    let mut m = machine();
    assert!(matches!(m.step(Event::Begin), Command::ScanLocal));
    let local = vec![file("a", b"data", 1234 * SEC)];
    assert!(matches!(m.step(Event::LocalTree(local)), Command::OpenRemote));
    assert!(matches!(m.step(Event::RemoteListing(listing)), Command::FetchDescriptor(_)));
    match m.step(Event::DescriptorBytes(encode_descriptor(1234 * SEC))) {
        Command::Finish(Outcome::Done) => {}
        _ => panic!("expected a no-op completion"),
    }
}

#[test]
fn stale_remote_copy_is_replaced() {
    // The remote descriptor is older: the old pair is deleted and a new
    // pair published.
    let listing = vec![b"save-old.json".to_vec(), b"save-old.zip".to_vec()];
    let mut m = machine();
    assert!(matches!(m.step(Event::Begin), Command::ScanLocal));
    let local = vec![file("a", b"data", 5000 * SEC)];
    assert!(matches!(m.step(Event::LocalTree(local)), Command::OpenRemote));
    assert!(matches!(
        m.step(Event::RemoteListing(listing)),
        Command::FetchDescriptor(_)
    ));
    match m.step(Event::DescriptorBytes(encode_descriptor(4000 * SEC))) {
        Command::Publish { delete, descriptor, .. } => {
            assert_eq!(
                delete,
                vec![b"save-old.json".to_vec(), b"save-old.zip".to_vec()]
            );
            assert_eq!(descriptor, encode_descriptor(5000 * SEC));
        }
        _ => panic!("expected a publish replacing the old pair"),
    }
}

#[test]
fn malformed_descriptor_is_a_protocol_error() {
    let listing = vec![b"save-x.json".to_vec()];
    let mut m = machine();
    m.step(Event::Begin);
    m.step(Event::LocalTree(vec![file("a", b"d", SEC)]));
    m.step(Event::RemoteListing(listing));
    match m.step(Event::DescriptorBytes(b"not a descriptor".to_vec())) {
        Command::Finish(Outcome::Failed(e)) => {
            assert_eq!(e.kind, SyncErrorKind::Protocol);
        }
        _ => panic!("expected a protocol failure"),
    }
}

#[test]
fn missing_archive_entry_is_a_protocol_error() {
    // A descriptor but no archive beside it, and the remote side is newer.
    let listing = vec![b"save-x.json".to_vec()];
    let mut m = machine();
    m.step(Event::Begin);
    m.step(Event::LocalTree(vec![file("a", b"d", SEC)]));
    m.step(Event::RemoteListing(listing));
    match m.step(Event::DescriptorBytes(encode_descriptor(9999 * SEC))) {
        Command::Finish(Outcome::Failed(e)) => {
            assert_eq!(e.kind, SyncErrorKind::Protocol);
        }
        _ => panic!("expected a protocol failure"),
    }
}

#[test]
fn reported_failure_aborts_the_job() {
    let mut m = machine();
    m.step(Event::Begin);
    let failure = SyncError::transport("connection refused".to_string());
    match m.step(Event::Failed(failure)) {
        Command::Finish(Outcome::Failed(e)) => {
            assert_eq!(e.kind, SyncErrorKind::Transport);
            assert_eq!(e.reason, "connection refused".to_string());
        }
        _ => panic!("expected the failure to be reported"),
    }
}

#[test]
fn corrupt_downloaded_archive_fails_the_job() {
    let listing = vec![b"s.json".to_vec(), b"s.zip".to_vec()];
    let mut m = machine();
    m.step(Event::Begin);
    m.step(Event::LocalTree(vec![file("a", b"d", SEC)]));
    m.step(Event::RemoteListing(listing));
    m.step(Event::DescriptorBytes(encode_descriptor(2 * SEC)));
    match m.step(Event::ArchiveBytes(b"garbage".to_vec())) {
        Command::Finish(Outcome::Failed(e)) => {
            assert_eq!(e.kind, SyncErrorKind::Archive);
        }
        _ => panic!("expected an archive failure"),
    }
}

#[test]
fn unexpected_event_is_a_protocol_error() {
    let mut m = machine();
    m.step(Event::Begin);
    match m.step(Event::Stored) {
        Command::Finish(Outcome::Failed(e)) => {
            assert_eq!(e.kind, SyncErrorKind::Protocol);
        }
        _ => panic!("expected a protocol failure"),
    }
}

#[test]
fn error_kinds_carry_their_labels() {
    assert_eq!(SyncError::io(String::new()).kind_label(), "IOError");
    assert_eq!(SyncError::archive(String::new()).kind_label(), "ArchiveError");
    assert_eq!(SyncError::transport(String::new()).kind_label(), "TransportError");
    assert_eq!(SyncError::protocol(String::new()).kind_label(), "ProtocolError");
}
