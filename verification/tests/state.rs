use fast_down::progress::ProgressEntry;
use fast_down::state::{
    bar_width, gives_up, handle_key_event, page_down, page_up, poll_task, select_down, select_up,
    state_icon, worker_count, FDWorkerState, Followup, Key, KeyAction, ListView, Polled, Stat,
    Statistics, TaskState, TaskUrlInfo,
};

fn r(a: u64, b: u64) -> ProgressEntry {
    ProgressEntry::new(a, b)
}

#[test]
fn icons() {
    assert_eq!(FDWorkerState::Idle.icon(), "🫧");
    assert_eq!(FDWorkerState::Connecting.icon(), "⏳");
    assert_eq!(FDWorkerState::Downloading.icon(), "⚡");
    assert_eq!(FDWorkerState::Finished.icon(), "😎");
    assert_eq!(FDWorkerState::Abort.icon(), "🛑");
    assert_eq!(state_icon(TaskState::Pending, TaskUrlInfo::Pending), "🔍");
    assert_eq!(state_icon(TaskState::Pending, TaskUrlInfo::Failed), "🛑");
    assert_eq!(state_icon(TaskState::Pending, TaskUrlInfo::Ready), "🫧");
    assert_eq!(state_icon(TaskState::Request, TaskUrlInfo::Ready), "⏳");
    assert_eq!(state_icon(TaskState::Download, TaskUrlInfo::Ready), "🚚");
    assert_eq!(state_icon(TaskState::Completed, TaskUrlInfo::Ready), "✅");
    assert_eq!(state_icon(TaskState::IoError, TaskUrlInfo::Ready), "💥");
}

#[test]
fn statistics_begin_empty() {
    let s = Statistics::new(3, 1000);
    assert_eq!(s.state, vec![FDWorkerState::Idle; 3]);
    assert_eq!(s.total, 1000);
    assert_eq!(s.written, 0);
    assert_eq!(s.downloaded, 0);
    for id in 0..3 {
        assert!(s.write_entries(id).is_empty());
        assert!(s.download_entries(id).is_empty());
        assert!(s.write_spans(id).is_empty());
        assert!(s.download_spans(id).is_empty());
    }
}

#[test]
fn statistics_take_in_transfers() {
    let mut s = Statistics::new(2, 1000);
    s.worker_state(1, FDWorkerState::Downloading);
    assert_eq!(s.state, vec![FDWorkerState::Idle, FDWorkerState::Downloading]);
    s.update_download(1, r(0, 100), 10);
    s.update_download(1, r(100, 150), 20);
    s.update_write(1, r(0, 100), 30);
    s.update_write(0, r(500, 600), 40);
    assert_eq!(s.downloaded, 150);
    assert_eq!(s.written, 200);
    assert_eq!(s.download_entries(1).to_pairs(), vec![(0, 150)]);
    assert_eq!(s.write_entries(1).to_pairs(), vec![(0, 100)]);
    assert_eq!(s.write_entries(0).to_pairs(), vec![(500, 600)]);
    assert!(s.download_entries(0).is_empty());
    assert_eq!(
        s.download_spans(1).iter().cloned().collect::<Vec<_>>(),
        vec![(10, 100), (20, 50)]
    );
    assert_eq!(s.write_spans(1).iter().cloned().collect::<Vec<_>>(), vec![(30, 100)]);
}

#[test]
fn old_transfers_are_purged_from_the_front() {
    let mut s = Statistics::new(1, 1000);
    s.update_download(0, r(0, 1), 10);
    s.update_download(0, r(1, 3), 20);
    s.update_download(0, r(3, 6), 5);
    s.update_download(0, r(6, 10), 30);
    s.purge_download_spans(0, 20);
    assert_eq!(
        s.download_spans(0).iter().cloned().collect::<Vec<_>>(),
        vec![(20, 2), (5, 3), (30, 4)]
    );
    assert_eq!(s.download_entries(0).to_pairs(), vec![(0, 10)]);
    s.purge_download_spans(0, 100);
    assert!(s.download_spans(0).is_empty());
    s.update_write(0, r(0, 10), 50);
    s.purge_write_spans(0, 50);
    assert_eq!(s.write_spans(0).iter().cloned().collect::<Vec<_>>(), vec![(50, 10)]);
    s.purge_write_spans(0, 51);
    assert!(s.write_spans(0).is_empty());
}

#[test]
fn recent_bytes_add_up() {
    let mut stat = Stat::new();
    assert_eq!(stat.recent_bytes(), 0);
    stat.record(r(0, 10), 1);
    stat.record(r(10, 25), 2);
    stat.record(r(7, 3), 3);
    assert_eq!(stat.recent_bytes(), 25);
    stat.purge(2);
    assert_eq!(stat.recent_bytes(), 15);
}

#[test]
fn paging() {
    assert_eq!(page_up(None), 0);
    assert_eq!(page_up(Some(3)), 0);
    assert_eq!(page_up(Some(5)), 0);
    assert_eq!(page_up(Some(12)), 7);
    assert_eq!(page_down(None, 3), 3);
    assert_eq!(page_down(None, 5), 5);
    assert_eq!(page_down(None, 20), 5);
    assert_eq!(page_down(Some(10), 20), 15);
    assert_eq!(page_down(Some(16), 20), 20);
    assert_eq!(page_down(Some(15), 20), 20);
    assert_eq!(page_down(Some(25), 20), 20);
    assert_eq!(page_down(Some(0), 0), 0);
}

#[test]
fn selecting() {
    let ids = vec![2, 5, 9];
    assert_eq!(select_up(None, &ids), Some(9));
    assert_eq!(select_up(Some(9), &ids), Some(5));
    assert_eq!(select_up(Some(6), &ids), Some(5));
    assert_eq!(select_up(Some(2), &ids), None);
    assert_eq!(select_up(Some(100), &ids), Some(9));
    assert_eq!(select_down(None, &ids), Some(2));
    assert_eq!(select_down(Some(2), &ids), Some(5));
    assert_eq!(select_down(Some(3), &ids), Some(5));
    assert_eq!(select_down(Some(9), &ids), None);
    assert_eq!(select_down(Some(0), &ids), Some(2));
    assert_eq!(select_up(None, &vec![]), None);
    assert_eq!(select_down(None, &vec![]), None);
    assert_eq!(select_down(Some(1), &vec![]), None);
}

#[test]
fn giving_up_and_worker_counts() {
    assert!(!gives_up(None, 1000));
    assert!(!gives_up(Some(3), 0));
    assert!(!gives_up(Some(3), 2));
    assert!(gives_up(Some(3), 3));
    assert!(gives_up(Some(0), 0));
    assert_eq!(worker_count(true, Some(4)), 4);
    assert_eq!(worker_count(false, Some(4)), 1);
    assert_eq!(worker_count(true, None), 1);
    assert_eq!(worker_count(false, None), 1);
}

#[test]
fn polling_a_task() {
    assert_eq!(
        poll_task(TaskState::Pending, TaskUrlInfo::Pending, true, None, 0, Polled::Fetched),
        (TaskState::Pending, TaskUrlInfo::Ready, 0, Followup::Nothing)
    );
    assert_eq!(
        poll_task(TaskState::Pending, TaskUrlInfo::Pending, true, None, 7, Polled::FetchFailed),
        (TaskState::Pending, TaskUrlInfo::Pending, 8, Followup::Nothing)
    );
    assert_eq!(
        poll_task(TaskState::Pending, TaskUrlInfo::Pending, true, Some(2), 1, Polled::FetchFailed),
        (TaskState::Pending, TaskUrlInfo::Pending, 2, Followup::Nothing)
    );
    assert_eq!(
        poll_task(TaskState::Pending, TaskUrlInfo::Pending, true, Some(2), 2, Polled::FetchFailed),
        (TaskState::Pending, TaskUrlInfo::Failed, 3, Followup::Nothing)
    );
    assert_eq!(
        poll_task(TaskState::Pending, TaskUrlInfo::Pending, true, None, 0, Polled::Nothing),
        (TaskState::Pending, TaskUrlInfo::Pending, 0, Followup::Nothing)
    );
    assert_eq!(
        poll_task(TaskState::Pending, TaskUrlInfo::Ready, true, None, 0, Polled::Nothing),
        (TaskState::Pending, TaskUrlInfo::Ready, 0, Followup::RequestDownload)
    );
    assert_eq!(
        poll_task(TaskState::Pending, TaskUrlInfo::Ready, false, None, 0, Polled::Nothing),
        (TaskState::Pending, TaskUrlInfo::Ready, 0, Followup::Nothing)
    );
    assert_eq!(
        poll_task(TaskState::Pending, TaskUrlInfo::Failed, true, None, 3, Polled::Fetched),
        (TaskState::Pending, TaskUrlInfo::Failed, 3, Followup::Nothing)
    );
    assert_eq!(
        poll_task(TaskState::Request, TaskUrlInfo::Ready, true, None, 0, Polled::Started),
        (TaskState::Download, TaskUrlInfo::Ready, 0, Followup::Nothing)
    );
    assert_eq!(
        poll_task(TaskState::Request, TaskUrlInfo::Ready, true, None, 0, Polled::StartFailed),
        (TaskState::IoError, TaskUrlInfo::Ready, 0, Followup::Nothing)
    );
    assert_eq!(
        poll_task(TaskState::Download, TaskUrlInfo::Ready, true, None, 0, Polled::Closed),
        (TaskState::Completed, TaskUrlInfo::Ready, 0, Followup::Nothing)
    );
    assert_eq!(
        poll_task(TaskState::Download, TaskUrlInfo::Ready, true, None, 0, Polled::Nothing),
        (TaskState::Download, TaskUrlInfo::Ready, 0, Followup::Nothing)
    );
    assert_eq!(
        poll_task(TaskState::Completed, TaskUrlInfo::Ready, true, None, 0, Polled::Closed),
        (TaskState::Completed, TaskUrlInfo::Ready, 0, Followup::Nothing)
    );
    assert_eq!(
        poll_task(TaskState::IoError, TaskUrlInfo::Ready, true, None, 0, Polled::Started),
        (TaskState::IoError, TaskUrlInfo::Ready, 0, Followup::Nothing)
    );
}

#[test]
fn focus_starts_on_the_main_page() {
    assert_eq!(
        fast_down::state::AppFocus::default(),
        fast_down::state::AppFocus::Page(fast_down::state::Page::Main)
    );
}

#[test]
fn keys_move_the_list() {
    let ids = vec![1, 4, 6, 7, 8, 9, 12];
    let view = ListView { scroll: None, selected: None };
    let (view, action) = handle_key_event(view, Key::Down, &ids);
    assert_eq!(view, ListView { scroll: None, selected: Some(1) });
    assert_eq!(action, KeyAction::Nothing);
    let (view, _) = handle_key_event(view, Key::Down, &ids);
    assert_eq!(view.selected, Some(4));
    let (view, _) = handle_key_event(view, Key::Up, &ids);
    assert_eq!(view.selected, Some(1));
    let (view, _) = handle_key_event(view, Key::Up, &ids);
    assert_eq!(view.selected, None);
    let (view, _) = handle_key_event(view, Key::Up, &ids);
    assert_eq!(view.selected, Some(12));
    let (view, _) = handle_key_event(view, Key::PageDown, &ids);
    assert_eq!(view, ListView { scroll: Some(5), selected: Some(12) });
    let (view, _) = handle_key_event(view, Key::PageDown, &ids);
    assert_eq!(view.scroll, Some(7));
    let (view, _) = handle_key_event(view, Key::PageUp, &ids);
    assert_eq!(view.scroll, Some(2));
    let (view, _) = handle_key_event(view, Key::PageUp, &ids);
    assert_eq!(view.scroll, Some(0));
    assert_eq!(handle_key_event(view, Key::Char('q'), &ids), (view, KeyAction::Exit));
    assert_eq!(handle_key_event(view, Key::Char('p'), &ids), (view, KeyAction::Paste));
    assert_eq!(handle_key_event(view, Key::Char('x'), &ids), (view, KeyAction::Nothing));
    assert_eq!(handle_key_event(view, Key::Other, &ids), (view, KeyAction::Nothing));
}

#[test]
fn bar_widths() {
    assert_eq!(bar_width(80, 30, false), 78);
    assert_eq!(bar_width(1, 30, false), 0);
    assert_eq!(bar_width(2, 30, false), 0);
    assert_eq!(bar_width(80, 30, true), 48);
    assert_eq!(bar_width(31, 30, true), 0);
    assert_eq!(bar_width(32, 30, true), 0);
    assert_eq!(bar_width(33, 30, true), 1);
    assert_eq!(bar_width(20, 30, true), 20);
}
