use richiedrop::discovery::MAX_DATAGRAM_BYTES;
use richiedrop::string_set::StringSet;
use richiedrop::transfer::ActiveUploads;

#[test]
fn datagrams_are_read_up_to_one_kibibyte() {
    assert_eq!(MAX_DATAGRAM_BYTES, 1024);
}

#[test]
fn string_set_insert_and_contains() {
    let mut set = StringSet::new();
    assert!(!set.contains("a"));
    assert!(set.insert("a".to_string()));
    assert!(set.contains("a"));
    assert!(!set.insert("a".to_string()));
    assert!(set.insert("b".to_string()));
    assert!(set.contains("a"));
    assert!(set.contains("b"));
    assert!(!set.contains("ab"));
}

#[test]
fn string_set_remove_takes_only_the_named_member() {
    let mut set = StringSet::new();
    set.insert("a".to_string());
    set.insert("b".to_string());
    set.insert("c".to_string());
    set.remove("b");
    assert!(set.contains("a"));
    assert!(!set.contains("b"));
    assert!(set.contains("c"));
    set.remove("b");
    set.remove("missing");
    assert!(set.contains("a"));
    assert!(set.contains("c"));
    set.remove("a");
    set.remove("c");
    assert!(!set.contains("a"));
    assert!(!set.contains("c"));
    assert!(set.insert("b".to_string()));
}

#[test]
fn one_upload_per_name_at_a_time() {
    let mut active = ActiveUploads::new();
    assert!(!active.is_busy("report.pdf"));
    assert!(active.try_enter("report.pdf"));
    assert!(active.is_busy("report.pdf"));
    assert!(!active.try_enter("report.pdf"));
    assert!(active.is_busy("report.pdf"));
    active.leave("report.pdf");
    assert!(!active.is_busy("report.pdf"));
    assert!(active.try_enter("report.pdf"));
}

#[test]
fn different_names_do_not_wait_for_each_other() {
    let mut active = ActiveUploads::new();
    assert!(active.try_enter("a.bin"));
    assert!(active.try_enter("b.bin"));
    assert!(!active.try_enter("a.bin"));
    active.leave("a.bin");
    assert!(active.is_busy("b.bin"));
    assert!(!active.is_busy("a.bin"));
    active.leave("never-entered");
    assert!(active.is_busy("b.bin"));
}
