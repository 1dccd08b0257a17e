use fast_down::downloading::{DisplayLabels, Downloading};

fn labels() -> DisplayLabels {
    DisplayLabels {
        file_name: "File".to_string(),
        size: "Size".to_string(),
        elapsed: "Elapsed".to_string(),
        last_modified: "Last modified".to_string(),
        etag: "ETag".to_string(),
        progress: "Progress".to_string(),
        url: "URL".to_string(),
    }
}

fn record(progress: Vec<(u64, u64)>) -> Downloading {
    Downloading {
        url: "https://example.com/a.bin".to_string(),
        file_name: "a.bin".to_string(),
        file_size: 1000,
        etag: Some("\"abc\"".to_string()),
        last_modified: Some("Wed, 01 Jan 2025 00:00:00 GMT".to_string()),
        progress,
        elapsed: 1500,
    }
}

#[test]
fn short_listing() {
    let r = record(vec![(0, 10)]);
    assert_eq!(
        r.display(false, &labels(), "1000.00 B", "1.5s"),
        "File: a.bin\nSize: 1000.00 B\nElapsed: 1.5s\nURL: https://example.com/a.bin"
    );
}

#[test]
fn detailed_listing_with_one_range() {
    let r = record(vec![(0, 10)]);
    assert_eq!(
        r.display(true, &labels(), "1000.00 B", "1.5s"),
        "File: a.bin\nSize: 1000.00 B\nElapsed: 1.5s\n\
         Last modified: Wed, 01 Jan 2025 00:00:00 GMT\nETag: abc\n\
         Progress: \n\t- (0, 9) \nURL: https://example.com/a.bin"
    );
}

#[test]
fn detailed_listing_puts_three_ranges_on_a_line() {
    let r = record(vec![(0, 10), (20, 30), (40, 50), (60, 70), (80, 90)]);
    assert_eq!(
        r.display(true, &labels(), "s", "e"),
        "File: a.bin\nSize: s\nElapsed: e\n\
         Last modified: Wed, 01 Jan 2025 00:00:00 GMT\nETag: abc\n\
         Progress: \n\t- (0, 9) (20, 29) (40, 49) \n\t- (60, 69) (80, 89)\nURL: https://example.com/a.bin"
    );
}

#[test]
fn detailed_listing_without_identity_and_progress() {
    let mut r = record(vec![]);
    r.etag = None;
    r.last_modified = None;
    assert_eq!(
        r.display(true, &labels(), "s", "e"),
        "File: a.bin\nSize: s\nElapsed: e\nProgress: \nURL: https://example.com/a.bin"
    );
}

#[test]
fn detailed_listing_agrees_with_the_plain_formatting() {
    let progress = vec![(0, 1), (5, 8), (10, 11), (12, 13), (14, 15), (16, 17), (20, 100)];
    let r = record(progress.clone());
    let mut expected = String::from("File: a.bin\nSize: s\nElapsed: e\n");
    expected.push_str("Last modified: Wed, 01 Jan 2025 00:00:00 GMT\nETag: abc\nProgress: ");
    for (i, (start, end)) in progress.iter().enumerate() {
        if i % 3 == 0 {
            expected.push_str("\n\t- ");
        }
        expected.push_str(&format!("({}, {})", start, end - 1));
        if i < progress.len() - 1 || i % 3 == 0 {
            expected.push(' ');
        }
    }
    expected.push('\n');
    expected.push_str("URL: https://example.com/a.bin");
    assert_eq!(r.display(true, &labels(), "s", "e"), expected);
}

#[test]
fn record_copy_is_equal() {
    let r = record(vec![(1, 2), (3, 4)]);
    assert_eq!(r.clone_record(), r);
}
