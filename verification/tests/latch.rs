use sha1dir::{die, entry, EntryError, Latch, Phase, Walk, FAILURE_STATUS};

#[test]
fn first_error_gives_the_line() {
    let mut latch = Latch::new();
    assert!(!latch.has_fired());
    let line = die(&mut latch, "./missing", "No such file or directory (os error 2)");
    assert_eq!(line, Some(String::from("sha1sum: ./missing: No such file or directory (os error 2)")));
    assert!(latch.has_fired());
}

#[test]
fn later_errors_give_nothing() {
    let mut latch = Latch::new();
    assert!(die(&mut latch, "a", "first").is_some());
    assert_eq!(die(&mut latch, "b", "second"), None);
    assert_eq!(die(&mut latch, "a", "first"), None);
    assert!(latch.has_fired());
}

#[test]
fn line_keeps_empty_parts() {
    let mut latch = Latch::new();
    assert_eq!(die(&mut latch, "", ""), Some(String::from("sha1sum: : ")));
}

#[test]
fn fifo_under_default_policy_is_fatal() {
    let mut latch = Latch::new();
    let mut walk = Walk::new();
    assert!(walk.start());
    walk.put(entry(b".", 0o40755, b"", false).unwrap().unwrap());
    assert!(walk.spawn());
    walk.complete();

    let outcome = entry(b"./fifo", 0o010644, b"", false);
    let error = match outcome {
        Err(error) => error,
        Ok(_) => panic!("a fifo was hashed"),
    };
    assert_eq!(error, EntryError::UnsupportedFileType);
    let line = die(&mut latch, "./fifo", error.message());
    walk.abort();

    assert_eq!(line, Some(String::from("sha1sum: ./fifo: Unsupported file type")));
    assert_eq!(FAILURE_STATUS, 1);
    assert_eq!(walk.phase(), Phase::Aborted);
    assert!(walk.checksum().is_none());
    assert_eq!(die(&mut latch, "./fifo", error.message()), None);
}
