use fast_down::progress::ProgressEntry;
use fast_down::sink::{check_shape, PushError, RandSink, SeqSink};

fn r(a: u64, b: u64) -> ProgressEntry {
    ProgressEntry::new(a, b)
}

#[test]
fn sequential_sink_appends() {
    let mut s = SeqSink::new();
    assert_eq!(s.push(r(0, 10), 10), Ok(()));
    assert_eq!(s.cursor, 10);
    assert_eq!(s.push(r(10, 15), 5), Ok(()));
    assert_eq!(s.cursor, 15);
}

#[test]
fn sequential_sink_refuses_gaps_and_repeats() {
    let mut s = SeqSink::new();
    assert_eq!(s.push(r(1, 10), 9), Err(PushError::OutOfOrder));
    assert_eq!(s.cursor, 0);
    assert_eq!(s.push(r(0, 10), 10), Ok(()));
    assert_eq!(s.push(r(0, 10), 10), Err(PushError::OutOfOrder));
    assert_eq!(s.push(r(11, 12), 1), Err(PushError::OutOfOrder));
    assert_eq!(s.cursor, 10);
}

#[test]
fn ranges_must_match_their_bytes() {
    let mut s = SeqSink::new();
    assert_eq!(s.push(r(0, 10), 9), Err(PushError::LengthMismatch));
    assert_eq!(s.push(r(0, 0), 0), Err(PushError::EmptyRange));
    assert_eq!(s.push(r(5, 2), 3), Err(PushError::EmptyRange));
    assert_eq!(s.cursor, 0);
    assert_eq!(check_shape(r(0, 3), 3), Ok(()));
    assert_eq!(check_shape(r(0, 3), 4), Err(PushError::LengthMismatch));
}

#[test]
fn random_sink_stays_inside_the_file() {
    let s = RandSink::new(100);
    assert_eq!(s.push(r(90, 100), 10), Ok(()));
    assert_eq!(s.push(r(0, 100), 100), Ok(()));
    assert_eq!(s.push(r(50, 60), 10), Ok(()));
    assert_eq!(s.push(r(50, 60), 10), Ok(()));
    assert_eq!(s.push(r(95, 101), 6), Err(PushError::OutOfBounds));
    assert_eq!(s.push(r(100, 101), 1), Err(PushError::OutOfBounds));
    assert_eq!(s.push(r(10, 20), 11), Err(PushError::LengthMismatch));
    assert_eq!(s.push(r(20, 20), 0), Err(PushError::EmptyRange));
}

#[test]
fn sequential_sink_can_begin_again() {
    let mut s = SeqSink::new();
    assert_eq!(s.push(r(0, 10), 10), Ok(()));
    s.restart();
    assert_eq!(s.cursor, 0);
    assert_eq!(s.push(r(0, 4), 4), Ok(()));
    assert_eq!(s.cursor, 4);
}
