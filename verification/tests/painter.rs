use fast_down::ledger::ProgressSet;
use fast_down::painter::{calculate_value, Painter};
use fast_down::progress::ProgressEntry;

fn r(a: u64, b: u64) -> ProgressEntry {
    ProgressEntry::new(a, b)
}

fn set(ranges: &[(u64, u64)]) -> ProgressSet {
    ProgressSet::from_pairs(&ranges.to_vec())
}

#[test]
fn cells_count_their_bytes() {
    let p = set(&[(0, 10), (15, 30), (40, 50), (90, 100)]);
    let mut idx = 0;
    assert_eq!(calculate_value(&p, &mut idx, 0, 25), 20);
    assert_eq!(idx, 0);
    assert_eq!(calculate_value(&p, &mut idx, 25, 50), 15);
    assert_eq!(idx, 1);
    assert_eq!(calculate_value(&p, &mut idx, 50, 75), 0);
    assert_eq!(idx, 3);
    assert_eq!(calculate_value(&p, &mut idx, 75, 100), 10);
    assert_eq!(idx, 3);
    assert_eq!(calculate_value(&p, &mut idx, 100, 125), 0);
    assert_eq!(idx, 4);
    assert_eq!(calculate_value(&p, &mut idx, 125, 150), 0);
    assert_eq!(idx, 4);
}

#[test]
fn cells_of_an_empty_or_full_ledger() {
    let mut idx = 0;
    assert_eq!(calculate_value(&set(&[]), &mut idx, 0, 10), 0);
    assert_eq!(idx, 0);
    let full = set(&[(0, 100)]);
    assert_eq!(calculate_value(&full, &mut idx, 0, 10), 10);
    assert_eq!(calculate_value(&full, &mut idx, 90, 100), 10);
    assert_eq!(calculate_value(&full, &mut idx, 95, 200), 5);
    assert_eq!(idx, 0);
    assert_eq!(calculate_value(&full, &mut idx, 50, 50), 0);
    assert_eq!(calculate_value(&full, &mut idx, 60, 50), 0);
    assert_eq!(idx, 0);
}

#[test]
fn painter_counts_what_is_pulled() {
    let mut p = Painter::new(set(&[(0, 10)]), 100, 20);
    assert_eq!(p.curr_size, 10);
    assert_eq!(p.prev_size, 10);
    p.add(r(10, 30));
    p.add(r(20, 40));
    assert_eq!(p.curr_size, 40);
    assert_eq!(p.take_delta(), 30);
    assert_eq!(p.take_delta(), 0);
    assert!(!p.is_done());
    p.add(r(40, 100));
    assert_eq!(p.take_delta(), 60);
    assert!(p.is_done());
    assert_eq!(p.progress.to_pairs(), vec![(0, 100)]);
}

#[test]
fn painter_of_width_zero_takes_nothing_in() {
    let mut p = Painter::new(set(&[(0, 10)]), 100, 0);
    p.add(r(10, 30));
    assert_eq!(p.curr_size, 10);
    assert_eq!(p.progress.to_pairs(), vec![(0, 10)]);
}

#[test]
fn painter_reset_and_unknown_size() {
    let mut p = Painter::new(set(&[(0, 10)]), 0, 20);
    assert!(!p.is_done());
    p.add(r(10, 20));
    p.reset_progress();
    assert_eq!(p.curr_size, 0);
    assert_eq!(p.prev_size, 0);
    assert_eq!(p.progress.to_pairs(), vec![]);
    assert_eq!(p.width, 20);
    p.add(r(0, 5));
    assert_eq!(p.take_delta(), 5);
}
