use fast_down::download::FileId;
use fast_down::downloading::Downloading;
use fast_down::store::{db_file_name, Store, StoreLabels, CURRENT_DB_VERSION};

fn file_id() -> FileId {
    FileId {
        etag: Some("\"abc\"".to_string()),
        last_modified: Some("yesterday".to_string()),
    }
}

fn begin(store: &mut Store, path: &str, size: u64) -> Downloading {
    store.init_entry(
        path.to_string(),
        format!("{path}.fdpart"),
        size,
        &file_id(),
        format!("https://e.com/{path}"),
    )
}

fn record(name: &str) -> Downloading {
    Downloading {
        url: "u".to_string(),
        file_name: name.to_string(),
        file_size: 10,
        etag: None,
        last_modified: None,
        progress: vec![(0, 5)],
        elapsed: 7,
    }
}

#[test]
fn database_file_carries_the_version() {
    assert_eq!(CURRENT_DB_VERSION, 2);
    assert_eq!(db_file_name(), "fd-state-v2.db");
}

#[test]
fn init_begins_a_record() {
    let mut store = Store::new();
    assert!(!store.is_cached("/a"));
    let entry = begin(&mut store, "/a", 100);
    assert_eq!(
        entry,
        Downloading {
            url: "https://e.com//a".to_string(),
            file_name: "/a.fdpart".to_string(),
            file_size: 100,
            etag: Some("\"abc\"".to_string()),
            last_modified: Some("yesterday".to_string()),
            progress: vec![],
            elapsed: 0,
        }
    );
    assert!(store.is_cached("/a"));
    assert_eq!(store.get_entry("/a", None), Some(entry));
    assert!(store.force_flush().is_empty());
}

#[test]
fn get_prefers_the_cache_and_remembers_what_was_stored() {
    let mut store = Store::new();
    assert_eq!(store.get_entry("/a", None), None);
    assert!(!store.is_cached("/a"));
    assert_eq!(store.get_entry("/a", Some(record("stored"))), Some(record("stored")));
    assert!(store.is_cached("/a"));
    assert_eq!(store.get_entry("/a", Some(record("other"))), Some(record("stored")));
    assert_eq!(store.get_entry("/a", None), Some(record("stored")));
    assert!(store.force_flush().is_empty());
}

#[test]
fn update_marks_the_record_as_changed() {
    let mut store = Store::new();
    let entry = begin(&mut store, "/a", 100);
    begin(&mut store, "/b", 200);
    store.update_entry("/a", vec![(0, 40)], 1200, None);
    let mut expected = entry.clone();
    expected.progress = vec![(0, 40)];
    expected.elapsed = 1200;
    assert_eq!(store.get_entry("/a", None), Some(expected.clone()));
    assert_eq!(store.force_flush(), vec![("/a".to_string(), expected.clone())]);
    assert!(store.force_flush().is_empty());
    assert_eq!(store.get_entry("/a", None), Some(expected));
}

#[test]
fn update_falls_back_on_what_is_stored() {
    let mut store = Store::new();
    store.update_entry("/a", vec![(0, 9)], 5, None);
    assert!(!store.is_cached("/a"));
    assert!(store.force_flush().is_empty());
    store.update_entry("/a", vec![(0, 9)], 5, Some(record("stored")));
    let mut expected = record("stored");
    expected.progress = vec![(0, 9)];
    expected.elapsed = 5;
    assert_eq!(store.force_flush(), vec![("/a".to_string(), expected)]);
}

#[test]
fn flush_hands_out_every_changed_record_once() {
    let mut store = Store::new();
    for i in 0..20 {
        begin(&mut store, &format!("/f{i}"), 100);
    }
    for i in (0..20).step_by(2) {
        store.update_entry(&format!("/f{i}"), vec![(0, i as u64 + 1)], i as u64, None);
    }
    let mut dirty = store.force_flush();
    dirty.sort_by(|a, b| a.0.cmp(&b.0));
    let mut expected: Vec<String> = (0..20).step_by(2).map(|i| format!("/f{i}")).collect();
    expected.sort();
    assert_eq!(dirty.iter().map(|d| d.0.clone()).collect::<Vec<_>>(), expected);
    for (path, entry) in &dirty {
        let i: u64 = path[2..].parse().unwrap();
        assert_eq!(entry.progress, vec![(0, i + 1)]);
        assert_eq!(entry.elapsed, i);
    }
    assert!(store.force_flush().is_empty());
    for i in 0..20 {
        assert!(store.is_cached(&format!("/f{i}")));
    }
}

#[test]
fn remove_drops_the_record() {
    let mut store = Store::new();
    begin(&mut store, "/a", 100);
    begin(&mut store, "/b", 100);
    store.update_entry("/a", vec![(0, 1)], 1, None);
    store.remove_entry("/a");
    assert!(!store.is_cached("/a"));
    assert!(store.is_cached("/b"));
    assert!(store.force_flush().is_empty());
    store.remove_entry("/missing");
    assert!(store.is_cached("/b"));
}

#[test]
fn clean_names_the_records_whose_targets_are_gone() {
    let paths = vec!["/a".to_string(), "/b".to_string(), "/c".to_string()];
    assert_eq!(
        Store::clean(paths.clone(), &vec![true, false, false]),
        vec!["/b".to_string(), "/c".to_string()]
    );
    assert_eq!(Store::clean(paths.clone(), &vec![true, true, true]), Vec::<String>::new());
    assert_eq!(Store::clean(vec![], &vec![]), Vec::<String>::new());
}

#[test]
fn all_entries_need_every_row() {
    assert_eq!(Store::get_all_entry(vec![]), None);
    assert_eq!(
        Store::get_all_entry(vec![("/a".to_string(), Some(record("a"))), ("/b".to_string(), None)]),
        None
    );
    assert_eq!(
        Store::get_all_entry(vec![
            ("/a".to_string(), Some(record("a"))),
            ("/b".to_string(), Some(record("b")))
        ]),
        Some(vec![("/a".to_string(), record("a")), ("/b".to_string(), record("b"))])
    );
}

#[test]
fn listing() {
    let labels = StoreLabels {
        version: "Version".to_string(),
        db_path: "Database".to_string(),
        file_path: "Path".to_string(),
    };
    let rows = vec![
        ("/a".to_string(), "File: a\nURL: u".to_string()),
        ("/b".to_string(), "one line".to_string()),
    ];
    assert_eq!(
        Store::display(false, Some("/db"), &rows, &labels),
        "----------------------\n\
         | Path: /a\n| File: a\n| URL: u\n----------------------\n\
         | Path: /b\n| one line\n----------------------\n"
    );
    assert_eq!(
        Store::display(true, Some("/db"), &vec![], &labels),
        "Version: 2\nDatabase: /db\n----------------------\n"
    );
    assert_eq!(
        Store::display(true, None, &vec![], &labels),
        "Version: 2\n----------------------\n"
    );
}
