use fast_down::download::{
    effective_threads, etag_changed, is_weak_etag, needs_overwrite_confirm, part_file_name,
    resume_checks, retry_delay, check_free_space, Closing, Engine, EngineSignal, EngineState,
    FileId, ResumeCheck, ResumePlan, UrlInfo,
};
use fast_down::downloading::Downloading;

fn info(size: u64, etag: Option<&str>, last_modified: Option<&str>, fast: bool) -> UrlInfo {
    UrlInfo {
        final_url: "https://example.com/blob".to_string(),
        size,
        raw_name: "blob".to_string(),
        file_id: FileId {
            etag: etag.map(|s| s.to_string()),
            last_modified: last_modified.map(|s| s.to_string()),
        },
        fast_download: fast,
    }
}

fn entry(size: u64, etag: Option<&str>, last_modified: Option<&str>, progress: Vec<(u64, u64)>) -> Downloading {
    Downloading {
        url: "https://example.com/blob".to_string(),
        file_name: "blob.fdpart".to_string(),
        file_size: size,
        etag: etag.map(|s| s.to_string()),
        last_modified: last_modified.map(|s| s.to_string()),
        progress,
        elapsed: 4200,
    }
}

const STAMP: &str = "Wed, 01 Jan 2025 00:00:00 GMT";

#[test]
fn nothing_to_ask_when_identity_agrees() {
    let e = entry(100, Some("\"abc\""), Some(STAMP), vec![]);
    let i = info(100, Some("\"abc\""), Some(STAMP), true);
    assert_eq!(resume_checks(&e, &i), vec![]);
}

#[test]
fn size_mismatch_is_asked() {
    let e = entry(100, Some("\"abc\""), Some(STAMP), vec![]);
    let i = info(101, Some("\"abc\""), Some(STAMP), true);
    assert_eq!(resume_checks(&e, &i), vec![ResumeCheck::SizeMismatch]);
}

#[test]
fn etag_mismatch_is_asked() {
    let e = entry(100, Some("\"abc\""), Some(STAMP), vec![]);
    let i = info(100, Some("\"xyz\""), Some(STAMP), true);
    assert_eq!(resume_checks(&e, &i), vec![ResumeCheck::EtagMismatch]);
    let i = info(100, None, Some(STAMP), true);
    assert_eq!(resume_checks(&e, &i), vec![ResumeCheck::EtagMismatch]);
    let e = entry(100, None, Some(STAMP), vec![]);
    let i = info(100, Some("\"abc\""), Some(STAMP), true);
    assert_eq!(resume_checks(&e, &i), vec![ResumeCheck::EtagMismatch]);
}

#[test]
fn weak_etag_is_asked() {
    let e = entry(100, Some("W/\"abc\""), Some(STAMP), vec![]);
    let i = info(100, Some("W/\"abc\""), Some(STAMP), true);
    assert_eq!(resume_checks(&e, &i), vec![ResumeCheck::WeakEtag]);
    assert!(is_weak_etag("W/\"abc\""));
    assert!(is_weak_etag("W/"));
    assert!(!is_weak_etag("\"W/abc\""));
    assert!(!is_weak_etag("w/\"abc\""));
    assert!(!is_weak_etag("W"));
    assert!(!is_weak_etag(""));
}

#[test]
fn missing_etag_is_asked() {
    let e = entry(100, None, Some(STAMP), vec![]);
    let i = info(100, None, Some(STAMP), true);
    assert_eq!(resume_checks(&e, &i), vec![ResumeCheck::NoEtag]);
}

#[test]
fn last_modified_mismatch_is_asked() {
    let e = entry(100, Some("\"abc\""), Some(STAMP), vec![]);
    let i = info(100, Some("\"abc\""), Some("Thu, 02 Jan 2025 00:00:00 GMT"), true);
    assert_eq!(resume_checks(&e, &i), vec![ResumeCheck::LastModifiedMismatch]);
    let i = info(100, Some("\"abc\""), None, true);
    assert_eq!(resume_checks(&e, &i), vec![ResumeCheck::LastModifiedMismatch]);
}

#[test]
fn questions_come_in_order() {
    let e = entry(100, Some("\"abc\""), Some(STAMP), vec![]);
    let i = info(200, Some("\"xyz\""), None, true);
    assert_eq!(
        resume_checks(&e, &i),
        vec![
            ResumeCheck::SizeMismatch,
            ResumeCheck::EtagMismatch,
            ResumeCheck::LastModifiedMismatch
        ]
    );
    let e = entry(100, None, None, vec![]);
    let i = info(200, None, None, true);
    assert_eq!(
        resume_checks(&e, &i),
        vec![ResumeCheck::SizeMismatch, ResumeCheck::NoEtag]
    );
}

#[test]
fn resume_takes_up_the_stored_progress() {
    let e = entry(10_000, Some("\"abc\""), Some(STAMP), vec![(0, 3000), (5000, 6000)]);
    let i = info(10_000, Some("\"abc\""), Some(STAMP), true);
    let plan = ResumePlan::prepare(true, true, &i, Some(&e), 1024);
    assert!(plan.resume);
    assert_eq!(plan.write_progress.to_pairs(), vec![(0, 3000), (5000, 6000)]);
    assert_eq!(plan.download_chunks.to_pairs(), vec![(3000, 5000), (6000, 10_000)]);
    assert_eq!(plan.download_chunks.total(), 6000);
    assert_eq!(plan.elapsed, 4200);
}

#[test]
fn resume_leaves_out_short_gaps() {
    let e = entry(10_000, None, None, vec![(0, 3000), (3500, 9990)]);
    let i = info(10_000, None, None, true);
    let plan = ResumePlan::prepare(true, true, &i, Some(&e), 1024);
    assert!(plan.resume);
    assert_eq!(plan.download_chunks.to_pairs(), vec![]);
    let plan = ResumePlan::prepare(true, true, &i, Some(&e), 500);
    assert_eq!(plan.download_chunks.to_pairs(), vec![(3000, 3500)]);
    let plan = ResumePlan::prepare(true, true, &i, Some(&e), 1);
    assert_eq!(plan.download_chunks.to_pairs(), vec![(3000, 3500), (9990, 10_000)]);
}

#[test]
fn no_resume_without_file_flag_ranges_or_record() {
    let e = entry(10_000, None, None, vec![(0, 3000)]);
    let fast = info(10_000, None, None, true);
    let slow = info(10_000, None, None, false);
    for plan in [
        ResumePlan::prepare(false, true, &fast, Some(&e), 1024),
        ResumePlan::prepare(true, false, &fast, Some(&e), 1024),
        ResumePlan::prepare(true, true, &slow, Some(&e), 1024),
        ResumePlan::prepare(true, true, &fast, None, 1024),
    ] {
        assert!(!plan.resume);
        assert_eq!(plan.write_progress.to_pairs(), vec![]);
        assert_eq!(plan.download_chunks.to_pairs(), vec![(0, 10_000)]);
        assert_eq!(plan.elapsed, 0);
    }
}

#[test]
fn no_resume_when_everything_is_there() {
    let e = entry(10_000, None, None, vec![(0, 10_000)]);
    let i = info(10_000, None, None, true);
    let plan = ResumePlan::prepare(true, true, &i, Some(&e), 1024);
    assert!(!plan.resume);
    assert_eq!(plan.download_chunks.to_pairs(), vec![(0, 10_000)]);
    let e = entry(10_000, None, None, vec![(0, 6000), (5000, 10_000)]);
    let plan = ResumePlan::prepare(true, true, &i, Some(&e), 1024);
    assert!(!plan.resume);
}

#[test]
fn fresh_plan_of_an_empty_file() {
    let plan = ResumePlan::fresh(0);
    assert!(!plan.resume);
    assert_eq!(plan.download_chunks.to_pairs(), vec![]);
    assert_eq!(plan.download_chunks.total(), 0);
}

#[test]
fn changed_etag_starts_over_once_confirmed() {
    let e = entry(10_000, Some("\"abc\""), None, vec![(0, 3000)]);
    let i = info(10_000, Some("\"xyz\""), None, true);
    let plan = ResumePlan::prepare(true, true, &i, Some(&e), 1024);
    assert!(plan.resume);
    let checks = resume_checks(&e, &i);
    assert!(etag_changed(&checks));
    let plan = plan.confirmed(&checks, i.size);
    assert!(!plan.resume);
    assert_eq!(plan.write_progress.to_pairs(), vec![]);
    assert_eq!(plan.download_chunks.to_pairs(), vec![(0, 10_000)]);
    assert_eq!(plan.elapsed, 0);
    assert!(needs_overwrite_confirm(true, false, plan.resume, false));
}

#[test]
fn other_questions_keep_the_plan_once_confirmed() {
    let e = entry(10_000, Some("W/\"abc\""), None, vec![(0, 3000)]);
    let i = info(10_000, Some("W/\"abc\""), None, true);
    let plan = ResumePlan::prepare(true, true, &i, Some(&e), 1024);
    let checks = resume_checks(&e, &i);
    assert_eq!(checks, vec![ResumeCheck::WeakEtag]);
    assert!(!etag_changed(&checks));
    let kept = plan.clone().confirmed(&checks, i.size);
    assert_eq!(kept, plan);
    assert!(kept.resume);
}

#[test]
fn overwrite_question() {
    assert!(needs_overwrite_confirm(true, false, false, false));
    assert!(!needs_overwrite_confirm(false, false, false, false));
    assert!(!needs_overwrite_confirm(true, true, false, false));
    assert!(!needs_overwrite_confirm(true, false, true, false));
    assert!(!needs_overwrite_confirm(true, false, false, true));
}

#[test]
fn threads_space_and_delay() {
    assert_eq!(effective_threads(true, 8), 8);
    assert_eq!(effective_threads(true, 0), 1);
    assert_eq!(effective_threads(false, 8), 1);
    assert_eq!(effective_threads(false, 0), 1);
    assert_eq!(check_free_space(100, 100), None);
    assert_eq!(check_free_space(100, 1000), None);
    assert_eq!(check_free_space(1000, 100), Some(900));
    assert_eq!(check_free_space(0, 0), None);
    assert_eq!(retry_delay(Some(30), 500), 30);
    assert_eq!(retry_delay(None, 500), 500);
    assert_eq!(part_file_name("a.zip"), "a.zip.fdpart");
    assert_eq!(part_file_name(""), ".fdpart");
}

#[test]
fn engine_states() {
    let mut e = Engine::new();
    assert_eq!(e.state, EngineState::Preparing);
    assert_eq!(e.closing(), Closing::Nothing);
    e.on_signal(EngineSignal::Joined);
    assert_eq!(e.state, EngineState::Preparing);
    e.on_signal(EngineSignal::Started);
    assert_eq!(e.state, EngineState::Running);
    e.on_signal(EngineSignal::EventsClosed);
    assert_eq!(e.state, EngineState::Draining);
    assert_eq!(e.closing(), Closing::Nothing);
    e.on_signal(EngineSignal::Joined);
    assert_eq!(e.state, EngineState::Done);
    assert_eq!(e.closing(), Closing::Publish);
    e.on_signal(EngineSignal::Cancelled);
    assert_eq!(e, Engine { state: EngineState::Done, cancelled: false });
}

#[test]
fn a_cancelled_engine_is_given_up() {
    let mut e = Engine::new();
    e.on_signal(EngineSignal::Started);
    e.on_signal(EngineSignal::Cancelled);
    assert_eq!(e, Engine { state: EngineState::Draining, cancelled: true });
    e.on_signal(EngineSignal::EventsClosed);
    e.on_signal(EngineSignal::Joined);
    assert_eq!(e.state, EngineState::Aborted);
    assert_eq!(e.closing(), Closing::KeepPartial);
    let mut late = Engine::new();
    late.on_signal(EngineSignal::Started);
    late.on_signal(EngineSignal::EventsClosed);
    late.on_signal(EngineSignal::Cancelled);
    late.on_signal(EngineSignal::Joined);
    assert_eq!(late.state, EngineState::Aborted);
    let mut refused = Engine::new();
    refused.on_signal(EngineSignal::Refused);
    assert_eq!(refused, Engine { state: EngineState::Aborted, cancelled: false });
    let mut early = Engine::new();
    early.on_signal(EngineSignal::Cancelled);
    assert_eq!(early, Engine { state: EngineState::Aborted, cancelled: true });
}
