use passwatch::entry::PasswordEntry;
use passwatch::entry::is_under_root;
use passwatch::entry::to_name;
use passwatch::entry::to_password;
use passwatch::search::search;
use passwatch::secret::first_line;
use passwatch::session::FsEvent;
use passwatch::session::PasswordEvent;
use passwatch::session::WatchError;
use passwatch::session::apply_new_entry;
use passwatch::session::entry_for_event;
use passwatch::session::init_session;
use passwatch::session::load_entries;
use passwatch::session::scan_pattern;

fn entry(base: &str, path: &str) -> PasswordEntry {
    to_password(&base.to_string(), path.to_string())
}

fn names(entries: &Vec<PasswordEntry>) -> Vec<String> {
    entries.iter().map(|e| e.name.clone()).collect()
}

#[test]
fn name_strips_root_and_suffix() {
    let base = String::from("/root/store");
    let path = String::from("/root/store/email/work.gpg");
    assert_eq!(to_name(&base, &path), "email/work");
}

#[test]
fn name_round_trip() {
    let base = String::from("/r");
    let path = String::from("/r/sub/site.gpg");
    let name = to_name(&base, &path);
    let rebuilt = format!("{}/{}.gpg", base, name);
    assert_eq!(rebuilt, path);
}

#[test]
fn name_strips_repeated_suffix() {
    let base = String::from("/r");
    let path = String::from("/r/a.gpg.gpg");
    assert_eq!(to_name(&base, &path), "a");
}

#[test]
fn entry_holds_location_and_empty_meta() {
    let e = entry("/r", "/r/a.gpg");
    assert_eq!(e.name, "a");
    assert_eq!(e.filename, "/r/a.gpg");
    assert_eq!(e.meta, "");
}

#[test]
fn under_root_checks() {
    assert!(is_under_root("/r", "/r/a.gpg"));
    assert!(is_under_root("/r", "/r/sub/b.gpg"));
    assert!(!is_under_root("/r", "/r"));
    assert!(!is_under_root("/r", "/other/a.gpg"));
    assert!(!is_under_root("/r", "/rx/a.gpg"));
}

#[test]
fn search_is_case_insensitive() {
    let idx = vec![entry("/r", "/r/email/work.gpg"), entry("/r", "/r/bank.gpg")];
    let upper = search(&idx, String::from("WORK"));
    let lower = search(&idx, String::from("work"));
    assert_eq!(names(&upper), vec![String::from("email/work")]);
    assert_eq!(names(&upper), names(&lower));
}

#[test]
fn search_empty_query_returns_everything_in_order() {
    let idx = vec![
        entry("/r", "/r/b.gpg"),
        entry("/r", "/r/a.gpg"),
        entry("/r", "/r/sub/c.gpg"),
    ];
    let all = search(&idx, String::new());
    assert_eq!(
        names(&all),
        vec![String::from("b"), String::from("a"), String::from("sub/c")]
    );
}

#[test]
fn search_twice_is_identical() {
    let idx = vec![entry("/r", "/r/a.gpg"), entry("/r", "/r/ab.gpg")];
    let first = search(&idx, String::from("a"));
    let second = search(&idx, String::from("a"));
    assert_eq!(names(&first), names(&second));
}

#[test]
fn search_matches_substring_anywhere() {
    let idx = vec![entry("/r", "/r/email/work.gpg"), entry("/r", "/r/a.gpg")];
    let hit = search(&idx, String::from("ORK"));
    assert_eq!(names(&hit), vec![String::from("email/work")]);
    let miss = search(&idx, String::from("xyz"));
    assert!(miss.is_empty());
}

#[test]
fn scan_pattern_covers_whole_tree() {
    assert_eq!(scan_pattern(&String::from("/r")), "/r/**/*.gpg");
}

#[test]
fn scanner_yields_one_entry_per_file() {
    let base = String::from("/r");
    let paths = vec![String::from("/r/a.gpg"), String::from("/r/sub/b.gpg")];
    let entries = load_entries(&base, paths);
    assert_eq!(names(&entries), vec![String::from("a"), String::from("sub/b")]);
}

#[test]
fn scanner_on_empty_tree_yields_empty_index() {
    let entries = load_entries(&String::from("/r"), Vec::new());
    assert!(entries.is_empty());
}

#[test]
fn create_event_yields_one_entry_and_one_signal() {
    let base = String::from("/r");
    let mut idx: Vec<PasswordEntry> = Vec::new();
    let ev = entry_for_event(&base, FsEvent::Created(String::from("/r/c.gpg")));
    let e = ev.expect("a created credential file must yield an entry");
    let signal = apply_new_entry(&mut idx, e);
    assert!(matches!(signal, PasswordEvent::NewPassword));
    assert_eq!(names(&idx), vec![String::from("c")]);
}

#[test]
fn non_matching_events_yield_nothing() {
    let base = String::from("/r");
    assert!(entry_for_event(&base, FsEvent::Other).is_none());
    assert!(entry_for_event(&base, FsEvent::Created(String::from("/r/notes.txt"))).is_none());
    assert!(entry_for_event(&base, FsEvent::Created(String::from("/elsewhere/a.gpg"))).is_none());
}

#[test]
fn watch_scenario_scan_then_create() {
    let base = String::from("/r");
    let mut idx = init_session(true).expect("an existing root must start a session");
    assert!(idx.is_empty());
    let scanned = load_entries(
        &base,
        vec![String::from("/r/a.gpg"), String::from("/r/sub/b.gpg")],
    );
    for e in scanned {
        apply_new_entry(&mut idx, e);
    }
    let all = names(&search(&idx, String::new()));
    assert!(all.contains(&String::from("a")));
    assert!(all.contains(&String::from("sub/b")));
    assert_eq!(all.len(), 2);

    let created = entry_for_event(&base, FsEvent::Created(String::from("/r/c.gpg")))
        .expect("the new credential file must yield an entry");
    apply_new_entry(&mut idx, created);
    let hits = search(&idx, String::from("c"));
    assert_eq!(names(&hits), vec![String::from("c")]);
}

#[test]
fn missing_root_is_a_setup_error() {
    let r = init_session(false);
    assert!(matches!(r, Err(WatchError::MissingRoot)));
}

#[test]
fn existing_root_starts_with_empty_index() {
    let r = init_session(true);
    assert_eq!(r.unwrap().len(), 0);
}

#[test]
fn first_line_of_plaintext() {
    let bytes: Vec<u8> = b"hunter2\nuser: someone\n".to_vec();
    assert_eq!(first_line(&bytes).unwrap(), "hunter2");
}

#[test]
fn first_line_without_newline_is_whole_text() {
    let bytes: Vec<u8> = b"hunter2".to_vec();
    assert_eq!(first_line(&bytes).unwrap(), "hunter2");
}

#[test]
fn first_line_of_invalid_utf8_is_nothing() {
    let bytes: Vec<u8> = vec![0xff, 0xfe, b'\n'];
    assert!(first_line(&bytes).is_none());
}

#[test]
fn cloned_entry_keeps_fields() {
    let e = entry("/r", "/r/a.gpg");
    let c = e.clone();
    assert_eq!(c.name, e.name);
    assert_eq!(c.meta, e.meta);
    assert_eq!(c.filename, e.filename);
}
