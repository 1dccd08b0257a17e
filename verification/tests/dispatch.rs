use fast_down::dispatch::{partition, pieces, Dispatcher, WorkChunk};
use fast_down::ledger::ProgressSet;
use fast_down::progress::ProgressEntry;

fn r(a: u64, b: u64) -> ProgressEntry {
    ProgressEntry::new(a, b)
}

fn set(ranges: &[(u64, u64)]) -> ProgressSet {
    ProgressSet::from_pairs(&ranges.to_vec())
}

#[test]
fn a_long_range_is_cut_into_equal_pieces() {
    let chunks = partition(&set(&[(0, 10_485_760)]), 10_485_760, 4, 65536);
    assert_eq!(
        chunks,
        vec![r(0, 2_621_440), r(2_621_440, 5_242_880), r(5_242_880, 7_864_320), r(7_864_320, 10_485_760)]
    );
}

#[test]
fn the_last_piece_takes_the_remainder() {
    let chunks = partition(&set(&[(0, 103)]), 103, 4, 1);
    assert_eq!(chunks, vec![r(0, 25), r(25, 50), r(50, 75), r(75, 103)]);
    let chunks = partition(&set(&[(10, 17)]), 7, 3, 1);
    assert_eq!(chunks, vec![r(10, 12), r(12, 14), r(14, 17)]);
}

#[test]
fn short_ranges_stay_whole() {
    let chunks = partition(&set(&[(0, 25), (50, 60), (70, 100)]), 100, 4, 1);
    assert_eq!(
        chunks,
        vec![r(0, 25), r(50, 60), r(70, 77), r(77, 84), r(84, 91), r(91, 100)]
    );
}

#[test]
fn pieces_do_not_fall_below_the_minimum() {
    assert_eq!(partition(&set(&[(0, 100)]), 100, 4, 30), vec![r(0, 33), r(33, 66), r(66, 100)]);
    assert_eq!(partition(&set(&[(0, 100)]), 100, 4, 50), vec![r(0, 50), r(50, 100)]);
    assert_eq!(partition(&set(&[(0, 100)]), 100, 4, 51), vec![r(0, 100)]);
    assert_eq!(partition(&set(&[(0, 100)]), 100, 4, 1000), vec![r(0, 100)]);
    assert_eq!(partition(&set(&[(0, 100)]), 100, 4, 0), vec![r(0, 25), r(25, 50), r(50, 75), r(75, 100)]);
    assert_eq!(pieces(100, 100, 4, 25), 4);
    assert_eq!(pieces(100, 100, 4, 26), 3);
    assert_eq!(pieces(25, 100, 4, 1), 1);
    assert_eq!(pieces(26, 100, 4, 1), 4);
    assert_eq!(pieces(3, 0, 8, 1), 3);
}

#[test]
fn one_worker_gets_whole_ranges() {
    assert_eq!(partition(&set(&[(0, 100)]), 100, 1, 1), vec![r(0, 100)]);
    assert_eq!(partition(&set(&[(0, 100)]), 100, 0, 1), vec![r(0, 100)]);
    assert_eq!(partition(&set(&[]), 100, 4, 1), vec![]);
}

#[test]
fn chunks_cover_what_is_left() {
    let left = set(&[(3, 1000), (2000, 2001), (5000, 9999)]);
    let chunks = partition(&left, 10_000, 7, 16);
    let merged = ProgressSet::from_ranges(&chunks);
    assert_eq!(merged.to_pairs(), left.to_pairs());
    let total: u64 = chunks.iter().map(|c| c.total()).sum();
    assert_eq!(total, left.total());
    for pair in chunks.windows(2) {
        assert!(pair[0].end <= pair[1].start);
    }
    assert!(chunks.iter().all(|c| c.start < c.end));
}

#[test]
fn chunks_are_handed_out_in_order() {
    let mut d = Dispatcher::new(&set(&[(0, 100)]), 100, 2, 1);
    assert_eq!(d.next_chunk(1), Some(WorkChunk { worker_id: 1, range: r(0, 50) }));
    assert_eq!(d.next_chunk(2), None);
    assert_eq!(d.next_chunk(0), Some(WorkChunk { worker_id: 0, range: r(50, 100) }));
    assert_eq!(d.next_chunk(0), None);
    assert_eq!(d.next_chunk(1), None);
}

#[test]
fn nothing_is_handed_out_after_cancellation() {
    let mut d = Dispatcher::new(&set(&[(0, 100)]), 100, 4, 1);
    assert_eq!(d.next_chunk(0), Some(WorkChunk { worker_id: 0, range: r(0, 25) }));
    d.cancel();
    assert_eq!(d.next_chunk(0), None);
    assert_eq!(d.next_chunk(1), None);
}

#[test]
fn a_dispatcher_has_at_least_one_worker() {
    let mut d = Dispatcher::new(&set(&[(0, 100)]), 100, 0, 1);
    assert_eq!(d.next_chunk(1), None);
    assert_eq!(d.next_chunk(0), Some(WorkChunk { worker_id: 0, range: r(0, 100) }));
}
