use url_map::store::{MappingEntry, Store, UpdateOutcome};

fn entry(path: &str, url: &str) -> MappingEntry {
    MappingEntry { path: path.to_string(), url: url.to_string() }
}

#[test]
fn empty_store_resolves_nothing() {
    let s = Store::new();
    assert!(s.resolve("/a").is_none());
    assert!(s.resolve("/").is_none());
}

#[test]
fn create_then_resolve() {
    let mut s = Store::new();
    assert!(s.insert("/a".to_string(), "http://x".to_string()).is_ok());
    assert_eq!(s.resolve("/a"), Some("http://x".to_string()));
}

#[test]
fn duplicate_create_conflicts_and_preserves() {
    let mut s = Store::new();
    assert!(s.insert("/a".to_string(), "http://x".to_string()).is_ok());
    let second = s.insert("/a".to_string(), "http://z".to_string());
    assert!(second.is_err());
    assert_eq!(s.resolve("/a"), Some("http://x".to_string()));
}

#[test]
fn update_missing_reports_not_found_and_creates_nothing() {
    let mut s = Store::new();
    let outcome = s.update("/missing", "http://y".to_string());
    assert_eq!(outcome, UpdateOutcome::NotFound);
    assert!(s.resolve("/missing").is_none());
}

#[test]
fn update_existing_rebinds() {
    let mut s = Store::new();
    assert!(s.insert("/a".to_string(), "http://x".to_string()).is_ok());
    let outcome = s.update("/a", "http://z".to_string());
    assert_eq!(outcome, UpdateOutcome::Updated);
    assert_eq!(s.resolve("/a"), Some("http://z".to_string()));
}

#[test]
fn from_entries_later_entry_wins() {
    let entries = vec![
        entry("/a", "http://one"),
        entry("/b", "http://two"),
        entry("/a", "http://three"),
    ];
    let s = Store::from_entries(&entries);
    assert_eq!(s.resolve("/a"), Some("http://three".to_string()));
    assert_eq!(s.resolve("/b"), Some("http://two".to_string()));
}

#[test]
fn resolve_is_case_sensitive_and_exact() {
    let mut s = Store::new();
    assert!(s.insert("/Docs".to_string(), "http://x".to_string()).is_ok());
    assert!(s.resolve("/docs").is_none());
    assert!(s.resolve("/Docs/").is_none());
    assert!(s.resolve("Docs").is_none());
    assert_eq!(s.resolve("/Docs"), Some("http://x".to_string()));
}

#[test]
fn resolve_is_idempotent_without_mutation() {
    let mut s = Store::new();
    assert!(s.insert("/a".to_string(), "http://x".to_string()).is_ok());
    assert_eq!(s.resolve("/a"), s.resolve("/a"));
    assert_eq!(s.resolve("/b"), s.resolve("/b"));
}
