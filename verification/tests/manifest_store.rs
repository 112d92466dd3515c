use dot_manifest::manifest::Manifest;
use dot_manifest::paths::stored_path;
use dot_manifest::transfer::{Failure, Transfer};

fn sample() -> Manifest {
    Manifest::load("/cfg/dot/.dot.toml".to_string(), "/cfg/dot".to_string(), None)
}

/// Plans the copy and, as if it had been made, records the entry.
fn store(m: &mut Manifest, name: &str, path: &str) -> Option<Transfer> {
    let plan = m.add_entry(name, path.to_string(), false).unwrap();
    if plan.is_some() {
        assert!(m.record_entry(name, path.to_string(), false));
    }
    plan
}

#[test]
fn new_manifest_is_empty_at_the_well_known_place() {
    let m = Manifest::new("/cfg/dot".to_string());
    assert_eq!(m.path(), "/cfg/dot/.dot.toml");
    assert_eq!(m.base_dir(), "/cfg/dot");
    assert!(m.names().is_empty());
}

#[test]
fn track_records_entry_and_plans_copy() {
    let mut m = sample();
    let out = m.add_entry("shellrc", "/tmp/x".to_string(), false);
    let transfer = out.unwrap().unwrap();
    assert_eq!(transfer.src, "/tmp/x");
    assert_eq!(transfer.dest, "/cfg/dot/shellrc");
    assert!(m.record_entry("shellrc", "/tmp/x".to_string(), false));
    let e = m.entry("shellrc").unwrap();
    assert_eq!(e.local_file, "/cfg/dot/shellrc");
    assert_eq!(e.path, "/tmp/x");
    assert!(!e.dir);
    assert_eq!(m.names(), vec!["shellrc".to_string()]);
}

#[test]
fn planning_records_nothing() {
    let mut m = sample();
    store(&mut m, "a", "/tmp/a");
    let plan = m.add_entry("shellrc", "/no/such/file".to_string(), false).unwrap();
    assert_eq!(plan.unwrap().dest, "/cfg/dot/shellrc");
    assert!(m.entry("shellrc").is_none());
    assert_eq!(m.names(), vec!["a".to_string()]);
    assert!(!m.save().unwrap().contains("shellrc"));
}

#[test]
fn a_copy_that_was_not_made_leaves_no_record() {
    let mut m = sample();
    assert!(m.add_entry("shellrc", "/no/such/file".to_string(), false).unwrap().is_some());
    assert!(m.names().is_empty());
    assert_eq!(m.save().unwrap(), "");
    let again = m.add_entry("shellrc", "/tmp/x".to_string(), false).unwrap().unwrap();
    assert_eq!(again.src, "/tmp/x");
    assert!(m.record_entry("shellrc", "/tmp/x".to_string(), false));
    assert_eq!(m.entry("shellrc").unwrap().path, "/tmp/x");
}

#[test]
fn stored_path_does_not_double_the_separator() {
    let mut m = Manifest::load("/m.toml".to_string(), "/cfg/dot/".to_string(), None);
    let transfer = m.add_entry("vimrc", "/home/u/.vimrc".to_string(), false).unwrap().unwrap();
    assert_eq!(transfer.dest, "/cfg/dot/vimrc");
}

#[test]
fn stored_path_lies_under_the_base_directory_or_is_none() {
    assert_eq!(stored_path("/cfg/dot", "shellrc"), Some("/cfg/dot/shellrc".to_string()));
    assert_eq!(stored_path("/cfg/dot", "two words"), Some("/cfg/dot/two words".to_string()));
    assert_eq!(stored_path("/cfg/dot", "/cfg/dot/x"), Some("/cfg/dot/x".to_string()));
    assert_eq!(stored_path("/cfg/dot", "/etc/passwd"), None);
    assert_eq!(stored_path("/cfg/dot", "/cfg/dotty/x"), None);
    assert_eq!(stored_path("/cfg/dot", "/"), None);
}

#[test]
fn a_name_that_leads_out_of_the_store_is_refused() {
    let mut m = sample();
    store(&mut m, "a", "/tmp/a");
    for name in ["/etc/passwd", "/cfg/dotty/x", "/"] {
        let out = m.add_entry(name, "/tmp/x".to_string(), false);
        assert_eq!(out.unwrap_err(), Failure::OutsideStore);
        assert!(!m.record_entry(name, "/tmp/x".to_string(), false));
        assert!(m.entry(name).is_none());
    }
    assert_eq!(m.names(), vec!["a".to_string()]);
}

#[test]
fn every_recorded_copy_lies_under_the_base_directory() {
    let mut m = sample();
    for name in ["a", "b c", "/cfg/dot/d", "/elsewhere/e", "日本語"] {
        m.record_entry(name, "/tmp/x".to_string(), false);
    }
    m.drop_entry("a");
    assert_eq!(m.names().len(), 3);
    for name in m.names() {
        let e = m.entry(&name).unwrap();
        assert!(std::path::Path::new(&e.local_file).starts_with("/cfg/dot"));
        assert_eq!(Some(e.local_file.clone()), stored_path("/cfg/dot", &name));
    }
}

#[test]
fn adding_a_name_twice_keeps_the_first_entry() {
    let mut m = sample();
    assert!(store(&mut m, "shellrc", "/tmp/x").is_some());
    let second = m.add_entry("shellrc", "/tmp/y".to_string(), false);
    assert!(matches!(second, Ok(None)));
    assert!(!m.record_entry("shellrc", "/tmp/y".to_string(), false));
    let e = m.entry("shellrc").unwrap();
    assert_eq!(e.path, "/tmp/x");
    assert_eq!(e.local_file, "/cfg/dot/shellrc");
    assert!(!e.dir);
    assert_eq!(m.names().len(), 1);
}

#[test]
fn adding_a_present_name_as_directory_is_still_a_no_op() {
    let mut m = sample();
    store(&mut m, "shellrc", "/tmp/x");
    assert!(matches!(m.add_entry("shellrc", "/tmp/dir".to_string(), true), Ok(None)));
    assert_eq!(m.entry("shellrc").unwrap().path, "/tmp/x");
}

#[test]
fn names_are_case_sensitive() {
    let mut m = sample();
    store(&mut m, "Shellrc", "/tmp/x");
    assert!(m.entry("shellrc").is_none());
    assert!(m.entry("Shellrc").is_some());
    assert!(store(&mut m, "shellrc", "/tmp/y").is_some());
    assert_eq!(m.names().len(), 2);
}

#[test]
fn tracking_a_directory_is_unsupported_and_changes_nothing() {
    let mut m = sample();
    store(&mut m, "a", "/tmp/a");
    let out = m.add_entry("conf", "/etc".to_string(), true);
    assert_eq!(out.unwrap_err(), Failure::Unsupported);
    assert!(m.entry("conf").is_none());
    assert_eq!(m.names(), vec!["a".to_string()]);
}

#[test]
fn a_directory_is_unsupported_whatever_its_name() {
    let mut m = sample();
    store(&mut m, "a", "/tmp/a");
    for name in ["conf", "/etc", "/cfg/dotty/x", "/", ""] {
        let out = m.add_entry(name, "/tmp/d".to_string(), true);
        assert_eq!(out.unwrap_err(), Failure::Unsupported);
        assert!(!m.record_entry(name, "/tmp/d".to_string(), true));
        assert!(m.entry(name).is_none());
    }
    assert_eq!(m.names(), vec!["a".to_string()]);
    assert_eq!(m.save().unwrap().matches('[').count(), 1);
}

#[test]
fn dropping_an_absent_name_changes_nothing() {
    let mut m = sample();
    store(&mut m, "a", "/tmp/a");
    m.drop_entry("x");
    assert_eq!(m.names(), vec!["a".to_string()]);
    assert_eq!(m.entry("a").unwrap().path, "/tmp/a");
    assert_eq!(m.path(), "/cfg/dot/.dot.toml");
}

#[test]
fn dropping_a_name_removes_exactly_that_name() {
    let mut m = sample();
    store(&mut m, "a", "/tmp/a");
    store(&mut m, "b", "/tmp/b");
    store(&mut m, "c", "/tmp/c");
    m.drop_entry("b");
    assert!(m.entry("b").is_none());
    assert_eq!(m.names(), vec!["a".to_string(), "c".to_string()]);
    assert_eq!(m.entry("a").unwrap().path, "/tmp/a");
    assert_eq!(m.entry("c").unwrap().local_file, "/cfg/dot/c");
}

#[test]
fn a_dropped_name_can_be_added_again() {
    let mut m = sample();
    store(&mut m, "a", "/tmp/a");
    m.drop_entry("a");
    assert!(store(&mut m, "a", "/tmp/other").is_some());
    assert_eq!(m.entry("a").unwrap().path, "/tmp/other");
}

#[test]
fn lookup_of_an_absent_name_finds_nothing() {
    let m = sample();
    assert!(m.entry("nothing").is_none());
    assert!(m.entry("").is_none());
}

#[test]
fn error_messages_name_the_error() {
    assert_eq!(Failure::NotFound.message(), "no entry found");
    assert_eq!(Failure::Unsupported.message(), "copying a directory is not supported");
    assert_eq!(Failure::OutsideStore.message(), "the name leads out of the storage directory");
    assert_eq!(Failure::Serialize.message(), "failed to serialize the manifest");
}

#[test]
fn plan_for_a_given_place_copies_there_or_refuses() {
    let mut m = sample();
    let plan = m.plan_entry("x", "/p", false, Some("/any/where".to_string())).unwrap().unwrap();
    assert_eq!(plan.src, "/p");
    assert_eq!(plan.dest, "/any/where");
    assert_eq!(m.plan_entry("x", "/p", false, None).unwrap_err(), Failure::OutsideStore);
    assert_eq!(m.plan_entry("x", "/p", true, None).unwrap_err(), Failure::Unsupported);
    assert_eq!(
        m.plan_entry("x", "/p", true, Some("/cfg/dot/x".to_string())).unwrap_err(),
        Failure::Unsupported
    );
    assert!(m.names().is_empty());
    store(&mut m, "x", "/p");
    assert!(matches!(m.plan_entry("x", "/q", true, None), Ok(None)));
}

#[test]
fn record_at_a_given_place_records_an_absent_name_once() {
    let mut m = sample();
    assert!(!m.record_at("x", "/p".to_string(), false, None));
    assert!(!m.record_at("x", "/p".to_string(), true, Some("/cfg/dot/x".to_string())));
    assert!(m.names().is_empty());
    assert!(m.record_at("x", "/p".to_string(), false, Some("/cfg/dot/x".to_string())));
    assert!(!m.record_at("x", "/q".to_string(), false, Some("/cfg/dot/y".to_string())));
    let e = m.entry("x").unwrap();
    assert_eq!(e.local_file, "/cfg/dot/x");
    assert_eq!(e.path, "/p");
    assert!(!e.dir);
    assert_eq!(m.names().len(), 1);
}
