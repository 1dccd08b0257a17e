use fast_down::ledger::ProgressSet;
use fast_down::progress::ProgressEntry;

fn set(ranges: &[(u64, u64)]) -> ProgressSet {
    let mut s = ProgressSet::new();
    for &(a, b) in ranges {
        s.merge(ProgressEntry::new(a, b));
    }
    s
}

#[test]
fn merge_fuses_touching_and_overlapping_ranges() {
    let s = set(&[(10, 20), (30, 40), (20, 30)]);
    assert_eq!(s.to_pairs(), vec![(10, 40)]);
    let s = set(&[(10, 20), (15, 25), (0, 5)]);
    assert_eq!(s.to_pairs(), vec![(0, 5), (10, 25)]);
    let s = set(&[(0, 5), (6, 10)]);
    assert_eq!(s.to_pairs(), vec![(0, 5), (6, 10)]);
    let s = set(&[(0, 5), (6, 10), (5, 6)]);
    assert_eq!(s.to_pairs(), vec![(0, 10)]);
    let s = set(&[(5, 6), (1, 2), (3, 4), (0, 100)]);
    assert_eq!(s.to_pairs(), vec![(0, 100)]);
}

#[test]
fn merge_ignores_empty_ranges() {
    let s = set(&[(10, 20), (30, 30), (7, 3)]);
    assert_eq!(s.to_pairs(), vec![(10, 20)]);
}

#[test]
fn total_is_the_size_of_the_union() {
    let s = set(&[(0, 10), (5, 15), (20, 21), (100, 200), (150, 160)]);
    assert_eq!(s.to_pairs(), vec![(0, 15), (20, 21), (100, 200)]);
    assert_eq!(s.total(), 15 + 1 + 100);
    assert_eq!(ProgressSet::new().total(), 0);
    assert_eq!(set(&[(0, u64::MAX)]).total(), u64::MAX);
}

#[test]
fn invert_of_empty_ledger_is_everything() {
    let s = ProgressSet::new();
    assert_eq!(s.invert(100, 1).to_pairs(), vec![(0, 100)]);
    assert_eq!(s.invert(100, 100).to_pairs(), vec![(0, 100)]);
    assert_eq!(s.invert(100, 101).to_pairs(), vec![]);
    assert_eq!(s.invert(0, 1).to_pairs(), vec![]);
}

#[test]
fn invert_of_full_ledger_is_empty() {
    let s = set(&[(0, 100)]);
    assert_eq!(s.invert(100, 1).to_pairs(), vec![]);
    assert_eq!(s.invert(100, 0).to_pairs(), vec![]);
}

#[test]
fn invert_drops_short_gaps() {
    let s = set(&[(10, 20), (25, 60), (90, 95)]);
    assert_eq!(
        s.invert(100, 1).to_pairs(),
        vec![(0, 10), (20, 25), (60, 90), (95, 100)]
    );
    assert_eq!(s.invert(100, 6).to_pairs(), vec![(0, 10), (60, 90)]);
    assert_eq!(s.invert(100, 10).to_pairs(), vec![(0, 10), (60, 90)]);
    assert_eq!(s.invert(100, 11).to_pairs(), vec![(60, 90)]);
    assert_eq!(s.invert(100, 31).to_pairs(), vec![]);
}

#[test]
fn invert_short_tail_gap_is_discarded() {
    let s = set(&[(0, 98)]);
    assert_eq!(s.invert(100, 1024).to_pairs(), vec![]);
    assert_eq!(s.invert(100, 2).to_pairs(), vec![(98, 100)]);
}

#[test]
fn invert_clips_at_total() {
    let s = set(&[(10, 20), (50, 200)]);
    assert_eq!(s.invert(100, 1).to_pairs(), vec![(0, 10), (20, 50)]);
    let s = set(&[(150, 200)]);
    assert_eq!(s.invert(100, 1).to_pairs(), vec![(0, 100)]);
}

#[test]
fn invert_then_merge_gives_the_whole_range() {
    let p = set(&[(3, 9), (12, 40), (77, 80)]);
    let gaps = p.invert(100, 1);
    let mut all = p.clone();
    for &(a, b) in gaps.to_pairs().iter() {
        all.merge(ProgressEntry::new(a, b));
    }
    assert_eq!(all.to_pairs(), vec![(0, 100)]);
    assert!(all.is_full(100));
    assert_eq!(all.total(), 100);
}

#[test]
fn from_ranges_and_pairs_normalise() {
    let s = ProgressSet::from_pairs(&vec![(5, 10), (0, 5), (20, 30), (25, 26)]);
    assert_eq!(s.to_pairs(), vec![(0, 10), (20, 30)]);
    let r = ProgressSet::from_ranges(&vec![ProgressEntry::new(1, 2), ProgressEntry::new(2, 3)]);
    assert_eq!(r.entries(), &vec![ProgressEntry::new(1, 3)]);
    assert_eq!(r.len(), 1);
    assert_eq!(r.get(0), Some(ProgressEntry::new(1, 3)));
    assert_eq!(r.get(1), None);
    assert!(!r.is_empty());
}

#[test]
fn full_ledger() {
    assert_eq!(ProgressSet::full(0).to_pairs(), vec![]);
    assert_eq!(ProgressSet::full(7).to_pairs(), vec![(0, 7)]);
    assert!(ProgressSet::full(7).is_full(7));
    assert!(!ProgressSet::full(7).is_full(8));
    assert!(ProgressSet::new().is_full(0));
}

#[test]
fn entry_total() {
    assert_eq!(ProgressEntry::new(3, 10).total(), 7);
    assert_eq!(ProgressEntry::new(10, 3).total(), 0);
    assert!(ProgressEntry::new(4, 4).is_empty());
    assert!(!ProgressEntry::new(4, 5).is_empty());
}
