use filesense::collector::{collect_files, collect_roots, FsEntry};
use filesense::ingest::{IngestionStatus, ProgressEvent, RunPhase, StartError, StatusTracker, UploadOutcome};

fn file(p: &str) -> FsEntry {
    FsEntry::File(p.to_string())
}

fn docs_tree() -> FsEntry {
    FsEntry::Dir(vec![
        file("/docs/a.txt"),
        file("/docs/b.pdf"),
        file("/docs/c.jpg"),
        FsEntry::Dir(vec![file("/docs/sub/d.md")]),
    ])
}

fn run_to_end(t: &mut StatusTracker, fail: &str) -> Vec<ProgressEvent> {
    let mut events = Vec::new();
    while let Some(f) = t.next_file() {
        let outcome = if f == fail {
            UploadOutcome::Rejected { status: 500, body: "boom".to_string() }
        } else {
            UploadOutcome::Success
        };
        events.push(t.complete_file(outcome).expect("an upload was in flight"));
    }
    events
}

fn assert_idle(s: &IngestionStatus, total: usize, processed: usize) {
    assert_eq!(s.total_files, total);
    assert_eq!(s.processed_files, processed);
    assert_eq!(s.current_file, None);
    assert!(!s.is_running);
}

#[test]
fn docs_folder_collects_three_documents() {
    let roots = vec![docs_tree()];
    let files = collect_roots(&roots);
    assert_eq!(files, vec!["/docs/a.txt", "/docs/b.pdf", "/docs/sub/d.md"]);
}

#[test]
fn docs_folder_run_with_successful_uploads() {
    let mut t = StatusTracker::new();
    assert!(t.start_run().is_ok());
    t.begin_processing(collect_roots(&vec![docs_tree()]));
    let events = run_to_end(&mut t, "");
    assert_eq!(events.len(), 3);
    for (i, ev) in events.iter().enumerate() {
        assert_eq!(ev.status.processed_files, i + 1);
        assert_eq!(ev.status.total_files, 3);
        assert!(ev.outcome.is_success());
    }
    assert_eq!(events[1].status.current_file, Some("/docs/b.pdf".to_string()));
    assert_idle(&t.snapshot(), 3, 3);
    assert_eq!(t.phase(), RunPhase::Idle);
}

#[test]
fn failed_upload_still_counts() {
    let mut t = StatusTracker::new();
    t.start_run().unwrap();
    t.begin_processing(collect_roots(&vec![docs_tree()]));
    let events = run_to_end(&mut t, "/docs/b.pdf");
    assert_eq!(events.len(), 3);
    assert!(events[0].outcome.is_success());
    assert_eq!(events[1].status.current_file, Some("/docs/b.pdf".to_string()));
    assert!(matches!(events[1].outcome, UploadOutcome::Rejected { status: 500, .. }));
    assert!(events[2].outcome.is_success());
    assert_idle(&t.snapshot(), 3, 3);
}

#[test]
fn stop_before_collection_ends_run() {
    let mut t = StatusTracker::new();
    t.start_run().unwrap();
    t.stop();
    assert!(!t.snapshot().is_running);
    t.begin_processing(collect_roots(&vec![docs_tree()]));
    assert_eq!(t.next_file(), None);
    let s = t.snapshot();
    assert_eq!(s.processed_files, 0);
    assert!(!s.is_running);
    assert_eq!(t.phase(), RunPhase::Idle);
}

#[test]
fn stop_mid_run_halts_after_upload_in_flight() {
    let mut t = StatusTracker::new();
    t.start_run().unwrap();
    t.begin_processing(collect_roots(&vec![docs_tree()]));
    assert_eq!(t.next_file(), Some("/docs/a.txt".to_string()));
    t.stop();
    let ev = t.complete_file(UploadOutcome::Success).unwrap();
    assert_eq!(ev.status.processed_files, 1);
    assert!(!ev.status.is_running);
    assert_eq!(t.next_file(), None);
    assert!(t.complete_file(UploadOutcome::Success).is_none());
    assert_idle(&t.snapshot(), 3, 1);
}

#[test]
fn start_while_running_is_refused() {
    let mut t = StatusTracker::new();
    t.start_run().unwrap();
    t.begin_processing(vec!["/x/a.txt".to_string(), "/x/b.md".to_string()]);
    t.next_file().unwrap();
    t.complete_file(UploadOutcome::Success).unwrap();
    assert_eq!(t.start_run(), Err(StartError::AlreadyRunning));
    assert_eq!(StartError::AlreadyRunning.message(), "already running");
    let s = t.snapshot();
    assert_eq!(s.total_files, 2);
    assert_eq!(s.processed_files, 1);
    assert!(s.is_running);
    t.stop();
    assert_eq!(t.start_run(), Err(StartError::AlreadyRunning));
    assert_eq!(t.next_file(), None);
    assert!(t.start_run().is_ok());
    let s = t.snapshot();
    assert_eq!((s.total_files, s.processed_files, s.is_running), (0, 0, true));
}

#[test]
fn empty_collection_completes_at_once() {
    let mut t = StatusTracker::new();
    t.start_run().unwrap();
    t.begin_processing(collect_roots(&vec![FsEntry::Skipped]));
    assert_eq!(t.next_file(), None);
    assert_idle(&t.snapshot(), 0, 0);
}

#[test]
fn fresh_tracker_is_idle() {
    let t = StatusTracker::new();
    assert_idle(&t.snapshot(), 0, 0);
    assert_eq!(t.phase(), RunPhase::Idle);
    let s = IngestionStatus::new();
    assert_idle(&s, 0, 0);
}

#[test]
fn current_file_is_set_during_upload() {
    let mut t = StatusTracker::new();
    t.start_run().unwrap();
    t.begin_processing(vec!["/x/a.txt".to_string()]);
    assert_eq!(t.phase(), RunPhase::Processing);
    t.next_file().unwrap();
    assert_eq!(t.phase(), RunPhase::Uploading);
    let s = t.snapshot();
    assert_eq!(s.current_file, Some("/x/a.txt".to_string()));
    assert_eq!((s.total_files, s.processed_files), (1, 0));
}

#[test]
fn stop_when_idle_is_harmless() {
    let mut t = StatusTracker::new();
    t.stop();
    t.stop();
    assert_idle(&t.snapshot(), 0, 0);
    assert!(t.start_run().is_ok());
}

#[test]
fn collection_is_exact_over_nested_roots() {
    let roots = vec![
        file("/r/top.PDF"),
        file("/r/image.png"),
        FsEntry::Skipped,
        FsEntry::Dir(vec![
            FsEntry::Dir(vec![FsEntry::Dir(vec![file("/d/x/y/deep.Docx")]), file("/d/x/notes.doc")]),
            FsEntry::Skipped,
            file("/d/readme"),
            file("/d/guide.md"),
            file("/d/.md"),
        ]),
    ];
    assert_eq!(
        collect_roots(&roots),
        vec!["/r/top.PDF", "/d/x/y/deep.Docx", "/d/x/notes.doc", "/d/guide.md"]
    );
    assert_eq!(collect_files(&file("/r/a.txt")), vec!["/r/a.txt"]);
    assert!(collect_files(&file("/r/a.jpg")).is_empty());
    assert!(collect_files(&FsEntry::Skipped).is_empty());
}

#[test]
fn response_status_classification() {
    assert!(UploadOutcome::from_response(200, String::new()).is_success());
    assert!(UploadOutcome::from_response(299, String::new()).is_success());
    assert!(!UploadOutcome::from_response(199, String::new()).is_success());
    match UploadOutcome::from_response(404, "missing".to_string()) {
        UploadOutcome::Rejected { status, body } => {
            assert_eq!(status, 404);
            assert_eq!(body, "missing");
        }
        _ => panic!("expected a rejection"),
    }
    assert!(!UploadOutcome::from_response(300, String::new()).is_success());
    assert!(!UploadOutcome::TransportError("refused".to_string()).is_success());
    assert!(!UploadOutcome::ReadError("denied".to_string()).is_success());
}

#[test]
fn run_after_a_stopped_run_counts_every_file() {
    let mut t = StatusTracker::new();
    t.start_run().unwrap();
    t.begin_processing(vec!["/x/a.txt".to_string(), "/x/b.md".to_string()]);
    t.next_file().unwrap();
    t.stop();
    assert_eq!(t.start_run(), Err(StartError::AlreadyRunning));
    t.complete_file(UploadOutcome::TransportError("reset".to_string())).unwrap();
    assert_eq!(t.next_file(), None);
    assert!(t.start_run().is_ok());
    t.begin_processing(collect_roots(&vec![docs_tree()]));
    let events = run_to_end(&mut t, "/docs/sub/d.md");
    assert_eq!(events.len(), 3);
    assert_idle(&t.snapshot(), 3, 3);
}
