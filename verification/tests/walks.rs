use sha1dir::{dir, entry, Checksum, Phase, Walk};

#[test]
fn new_walk_is_idle_with_no_checksum() {
    let walk = Walk::new();
    assert_eq!(walk.phase(), Phase::Idle);
    assert_eq!(walk.pending(), 0);
    assert!(walk.checksum().is_none());
}

#[test]
fn start_puts_the_root_task_out() {
    let mut walk = Walk::new();
    assert!(walk.start());
    assert_eq!(walk.phase(), Phase::Walking);
    assert_eq!(walk.pending(), 1);
    assert!(walk.checksum().is_none());
    assert!(!walk.start());
    assert_eq!(walk.pending(), 1);
}

#[test]
fn walk_of_an_empty_directory() {
    let mut walk = Walk::new();
    walk.start();
    walk.put(dir(b".", 0o40755));
    assert!(walk.checksum().is_none());
    walk.complete();
    assert_eq!(walk.phase(), Phase::Completed);
    assert_eq!(walk.pending(), 0);
    assert_eq!(walk.checksum().unwrap().to_string(), "47c954d690618281c893560b4eb50835e8ecb185");
}

#[test]
fn walk_waits_for_every_task() {
    let mut walk = Walk::new();
    walk.start();
    walk.put(entry(b".", 0o40755, b"", false).unwrap().unwrap());
    assert!(walk.spawn());
    assert!(walk.spawn());
    assert_eq!(walk.pending(), 3);
    walk.complete();
    assert_eq!(walk.pending(), 2);
    assert_eq!(walk.phase(), Phase::Walking);
    assert!(walk.checksum().is_none());

    walk.put(entry(b"./hello.txt", 0o100644, b"hello world\n", false).unwrap().unwrap());
    walk.complete();
    assert_eq!(walk.phase(), Phase::Walking);
    assert!(walk.checksum().is_none());

    walk.put(entry(b"./a", 0o100644, b"", false).unwrap().unwrap());
    walk.complete();
    assert_eq!(walk.phase(), Phase::Completed);

    let mut expected = Checksum::new();
    expected.put(entry(b"./a", 0o100644, b"", false).unwrap().unwrap());
    expected.put(entry(b"./hello.txt", 0o100644, b"hello world\n", false).unwrap().unwrap());
    expected.put(entry(b".", 0o40755, b"", false).unwrap().unwrap());
    assert_eq!(walk.checksum().unwrap().bytes(), expected.bytes());
}

#[test]
fn skipped_entry_counts_as_a_task_and_adds_nothing() {
    let mut walk = Walk::new();
    walk.start();
    walk.put(entry(b".", 0o40755, b"", true).unwrap().unwrap());
    assert!(walk.spawn());
    walk.complete();
    assert!(entry(b"./fifo", 0o010644, b"", true).unwrap().is_none());
    walk.complete();
    assert_eq!(walk.phase(), Phase::Completed);
    assert_eq!(walk.checksum().unwrap().to_string(), "47c954d690618281c893560b4eb50835e8ecb185");
}

#[test]
fn nothing_is_spawned_or_combined_before_the_start() {
    let mut walk = Walk::new();
    assert!(!walk.spawn());
    walk.put(dir(b".", 0o40755));
    walk.complete();
    assert_eq!(walk.phase(), Phase::Idle);
    assert_eq!(walk.pending(), 0);
    walk.start();
    walk.complete();
    assert_eq!(walk.checksum().unwrap().bytes(), [0u8; 20]);
}

#[test]
fn aborted_walk_stays_aborted() {
    let mut walk = Walk::new();
    walk.start();
    walk.spawn();
    walk.abort();
    assert_eq!(walk.phase(), Phase::Aborted);
    assert_eq!(walk.pending(), 0);
    assert!(!walk.start());
    assert!(!walk.spawn());
    walk.put(dir(b".", 0o40755));
    walk.complete();
    walk.abort();
    assert_eq!(walk.phase(), Phase::Aborted);
    assert_eq!(walk.pending(), 0);
    assert!(walk.checksum().is_none());
}

#[test]
fn idle_walk_can_be_aborted() {
    let mut walk = Walk::new();
    walk.abort();
    assert_eq!(walk.phase(), Phase::Aborted);
    assert!(!walk.start());
    assert!(walk.checksum().is_none());
}

#[test]
fn completed_walk_stays_completed() {
    let mut walk = Walk::new();
    walk.start();
    walk.put(dir(b".", 0o40755));
    walk.complete();
    let before = walk.checksum().unwrap().bytes();
    walk.abort();
    walk.complete();
    walk.put(dir(b"./late", 0o40755));
    assert!(!walk.spawn());
    assert!(!walk.start());
    assert_eq!(walk.phase(), Phase::Completed);
    assert_eq!(walk.checksum().unwrap().bytes(), before);
}
