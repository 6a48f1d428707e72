use dirwatch::args::parse_args;
use dirwatch::args::ArgError;
use dirwatch::command::build_put_command;
use dirwatch::snapshot::EntryKind;
use dirwatch::snapshot::FileMeta;
use dirwatch::snapshot::ScanEntry;
use dirwatch::snapshot::Store;
use dirwatch::watch::poll_cycle;
use dirwatch::watch::POLL_INTERVAL_MS;

fn file_entry(name: &[u8], modified: u64, size: u64) -> ScanEntry {
    ScanEntry { name: name.to_vec(), kind: EntryKind::File, modified, size }
}

fn dir_entry(name: &[u8]) -> ScanEntry {
    ScanEntry { name: name.to_vec(), kind: EntryKind::Directory, modified: 0, size: 0 }
}

#[test]
fn startup_scan_seeds_store() {
    let scan = vec![
        file_entry(b"alpha.txt", 100, 10),
        dir_entry(b"subdir"),
        file_entry(b"beta.txt", 200, 20),
        ScanEntry { name: b"pipe".to_vec(), kind: EntryKind::Other, modified: 7, size: 7 },
    ];
    let store = Store::initialize(&scan);
    assert_eq!(store.len(), 2);
    assert_eq!(store.name_at(0).as_slice(), b"alpha.txt");
    assert_eq!(store.modified_at(0), 100);
    assert_eq!(store.size_at(0), 10);
    assert_eq!(store.name_at(1).as_slice(), b"beta.txt");
    assert_eq!(store.modified_at(1), 200);
    assert_eq!(store.size_at(1), 20);
}

#[test]
fn empty_scan_makes_empty_store() {
    let store = Store::initialize(&Vec::new());
    assert_eq!(store.len(), 0);
}

#[test]
fn quiet_cycle_emits_nothing() {
    let scan = vec![file_entry(b"a", 100, 10), file_entry(b"b", 200, 20)];
    let mut store = Store::initialize(&scan);
    let obs = vec![
        Some(FileMeta { modified: 100, size: 10 }),
        Some(FileMeta { modified: 200, size: 20 }),
    ];
    let cmds = poll_cycle(&mut store, &obs, &b"/r/".to_vec());
    assert!(cmds.is_empty());
    assert_eq!(store.modified_at(0), 100);
    assert_eq!(store.size_at(0), 10);
    assert_eq!(store.modified_at(1), 200);
    assert_eq!(store.size_at(1), 20);
}

#[test]
fn single_change_emits_one_command_and_updates() {
    let scan = vec![file_entry(b"a.txt", 100, 10), file_entry(b"b.txt", 200, 20)];
    let mut store = Store::initialize(&scan);
    let obs = vec![
        Some(FileMeta { modified: 100, size: 10 }),
        Some(FileMeta { modified: 250, size: 25 }),
    ];
    let cmds = poll_cycle(&mut store, &obs, &b"/srv/".to_vec());
    assert_eq!(cmds.len(), 1);
    assert_eq!(cmds[0].as_slice(), b"put \"b.txt\" /srv/b.txt\n".as_slice());
    // the changed entry is updated, the other untouched
    assert_eq!(store.modified_at(0), 100);
    assert_eq!(store.size_at(0), 10);
    assert_eq!(store.modified_at(1), 250);
    assert_eq!(store.size_at(1), 25);
    // a second cycle with the same observations is quiet
    let cmds2 = poll_cycle(&mut store, &obs, &b"/srv/".to_vec());
    assert!(cmds2.is_empty());
}

#[test]
fn command_text_is_exact() {
    let cmd = build_put_command(&b"notes.txt".to_vec(), &b"/srv/files/".to_vec());
    assert_eq!(cmd.as_slice(), b"put \"notes.txt\" /srv/files/notes.txt\n".as_slice());
}

#[test]
fn command_text_empty_remote_path() {
    let cmd = build_put_command(&b"x".to_vec(), &b"".to_vec());
    assert_eq!(cmd.as_slice(), b"put \"x\" x\n".as_slice());
}

#[test]
fn two_changes_two_commands_in_order() {
    let scan = vec![
        file_entry(b"one", 1, 1),
        file_entry(b"two", 2, 2),
        file_entry(b"three", 3, 3),
    ];
    let mut store = Store::initialize(&scan);
    let obs = vec![
        Some(FileMeta { modified: 9, size: 1 }),
        Some(FileMeta { modified: 2, size: 2 }),
        Some(FileMeta { modified: 9, size: 3 }),
    ];
    let cmds = poll_cycle(&mut store, &obs, &b"up/".to_vec());
    assert_eq!(cmds.len(), 2);
    assert_eq!(cmds[0].as_slice(), b"put \"one\" up/one\n".as_slice());
    assert_eq!(cmds[1].as_slice(), b"put \"three\" up/three\n".as_slice());
}

#[test]
fn earlier_modification_time_counts_as_change() {
    let scan = vec![file_entry(b"f", 500, 5)];
    let mut store = Store::initialize(&scan);
    let obs = vec![Some(FileMeta { modified: 400, size: 5 })];
    let cmds = poll_cycle(&mut store, &obs, &b"p/".to_vec());
    assert_eq!(cmds.len(), 1);
    assert_eq!(store.modified_at(0), 400);
}

#[test]
fn size_only_difference_is_not_a_change() {
    let scan = vec![file_entry(b"f", 500, 5)];
    let mut store = Store::initialize(&scan);
    let obs = vec![Some(FileMeta { modified: 500, size: 999 })];
    let cmds = poll_cycle(&mut store, &obs, &b"p/".to_vec());
    assert!(cmds.is_empty());
    // the snapshot is updated only upon a confirmed change
    assert_eq!(store.size_at(0), 5);
}

#[test]
fn unreadable_file_is_skipped() {
    let scan = vec![file_entry(b"gone", 1, 1), file_entry(b"kept", 2, 2)];
    let mut store = Store::initialize(&scan);
    let obs = vec![None, Some(FileMeta { modified: 8, size: 4 })];
    let cmds = poll_cycle(&mut store, &obs, &b"d/".to_vec());
    assert_eq!(cmds.len(), 1);
    assert_eq!(cmds[0].as_slice(), b"put \"kept\" d/kept\n".as_slice());
    assert_eq!(store.modified_at(0), 1);
    assert_eq!(store.len(), 2);
}

#[test]
fn update_overwrites_named_entry_only() {
    let scan = vec![file_entry(b"a", 1, 1), file_entry(b"b", 2, 2)];
    let mut store = Store::initialize(&scan);
    store.update(&b"a".to_vec(), 77, 88);
    assert_eq!(store.modified_at(0), 77);
    assert_eq!(store.size_at(0), 88);
    assert_eq!(store.modified_at(1), 2);
    assert_eq!(store.size_at(1), 2);
}

#[test]
fn missing_arguments_are_rejected() {
    let no_args: Vec<Vec<u8>> = Vec::new();
    assert!(matches!(parse_args(&no_args), Err(ArgError::MissingArguments)));
    let one = vec![b"watcher".to_vec()];
    assert!(matches!(parse_args(&one), Err(ArgError::MissingArguments)));
    let two = vec![b"watcher".to_vec(), b"host".to_vec()];
    assert!(matches!(parse_args(&two), Err(ArgError::MissingArguments)));
}

#[test]
fn full_arguments_are_accepted() {
    let args = vec![b"watcher".to_vec(), b"example.org".to_vec(), b"/srv/mirror/".to_vec()];
    let config = parse_args(&args).unwrap();
    assert_eq!(config.host.as_slice(), b"example.org");
    assert_eq!(config.remote_path.as_slice(), b"/srv/mirror/");
}

#[test]
fn poll_interval_is_300_milliseconds() {
    assert_eq!(POLL_INTERVAL_MS, 300);
}
