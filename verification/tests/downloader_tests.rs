use minecraft_auth::downloader::{Downloader, FileInfo, TaskStatus};
use minecraft_auth::error::Error;

fn req(path: &str, size: u64) -> FileInfo {
    FileInfo::new(format!("http://h/{}", path), format!("/r/{}", path), size)
}

fn drain_statuses(d: &Downloader, n: u64) -> Vec<TaskStatus> {
    (0..n).map(|id| d.status_of(id).unwrap()).collect()
}

#[test]
fn tasks_are_admitted_fifo_with_stable_ids() {
    let mut d = Downloader::new(4);
    d.submit(&vec![req("a", 1), req("b", 2), req("c", 3)]);
    assert_eq!(d.status_of(0), Some(TaskStatus::Queued));
    assert_eq!(d.status_of(2), Some(TaskStatus::Queued));
    assert_eq!(d.status_of(3), None);
    assert_eq!(d.start_next(), Some(0));
    assert_eq!(d.start_next(), Some(1));
    assert_eq!(d.start_next(), Some(2));
    assert_eq!(d.start_next(), None, "nothing queued is left");
}

#[test]
fn width_bounds_concurrency() {
    let mut d = Downloader::new(2);
    d.submit(&vec![req("a", 1), req("b", 1), req("c", 1)]);
    assert_eq!(d.start_next(), Some(0));
    assert_eq!(d.start_next(), Some(1));
    assert_eq!(d.start_next(), None, "two workers are already busy");
    d.record_chunk(0, 1);
    d.complete(0, None);
    assert_eq!(d.start_next(), Some(2), "a finished task frees a worker");
}

#[test]
fn successful_transfer_completes_with_full_byte_count() {
    let mut d = Downloader::new(4);
    d.submit(&vec![req("a", 10)]);
    d.start_next();
    assert!(d.record_chunk(0, 4));
    match d.status_of(0).unwrap() {
        TaskStatus::InProgress(p) => assert_eq!(p, 40),
        other => panic!("expected in-progress, got {:?}", other),
    }
    assert!(d.record_chunk(0, 6));
    match d.status_of(0).unwrap() {
        TaskStatus::InProgress(p) => assert_eq!(p, 100),
        other => panic!("expected in-progress, got {:?}", other),
    }
    assert_eq!(d.complete(0, None), Some(TaskStatus::Completed));
    assert_eq!(d.status_of(0), Some(TaskStatus::Completed));
}

#[test]
fn short_transfer_is_an_integrity_mismatch() {
    let mut d = Downloader::new(4);
    d.submit(&vec![req("a", 10)]);
    d.start_next();
    d.record_chunk(0, 9);
    assert_eq!(
        d.complete(0, None),
        Some(TaskStatus::Failed(Error::IntegrityMismatch)),
        "nine of ten bytes must not complete"
    );
}

#[test]
fn hash_mismatch_is_an_integrity_mismatch() {
    let mut d = Downloader::new(4);
    let info = FileInfo::with_sha1("u".into(), "/r/a".into(), 2, "expected".into());
    d.submit(&vec![info]);
    d.start_next();
    d.record_chunk(0, 2);
    assert_eq!(
        d.complete(0, Some(&"other".to_string())),
        Some(TaskStatus::Failed(Error::IntegrityMismatch))
    );

    let mut ok = Downloader::new(4);
    ok.submit(&vec![FileInfo::with_sha1("u".into(), "/r/a".into(), 2, "expected".into())]);
    ok.start_next();
    ok.record_chunk(0, 2);
    assert_eq!(ok.complete(0, Some(&"expected".to_string())), Some(TaskStatus::Completed));
}

#[test]
fn one_failure_does_not_touch_sibling_tasks() {
    let mut d = Downloader::new(4);
    d.submit(&vec![req("a", 1), req("b", 1), req("c", 1)]);
    d.start_next();
    d.start_next();
    d.start_next();
    d.record_chunk(0, 1);
    d.record_chunk(2, 1);
    assert!(d.fail(1, Error::NetworkError("404".to_string())));
    assert_eq!(d.complete(0, None), Some(TaskStatus::Completed));
    assert_eq!(d.complete(2, None), Some(TaskStatus::Completed));
    let statuses = drain_statuses(&d, 3);
    let failed = statuses
        .iter()
        .filter(|s| matches!(s, TaskStatus::Failed(_)))
        .count();
    let completed = statuses
        .iter()
        .filter(|s| matches!(s, TaskStatus::Completed))
        .count();
    assert_eq!(failed, 1);
    assert_eq!(completed, 2);
    assert_eq!(
        d.status_of(1),
        Some(TaskStatus::Failed(Error::NetworkError("404".to_string())))
    );
}

#[test]
fn cancel_stops_admission_but_not_in_flight_tasks() {
    let mut d = Downloader::new(4);
    d.submit(&vec![req("a", 1), req("b", 1)]);
    assert_eq!(d.start_next(), Some(0));
    d.cancel();
    assert_eq!(d.start_next(), None, "no further task starts after cancel");
    assert_eq!(d.status_of(1), Some(TaskStatus::Queued));
    d.record_chunk(0, 1);
    assert_eq!(d.complete(0, None), Some(TaskStatus::Completed), "in-flight tasks may finish");
}

#[test]
fn status_stream_is_monotone_per_task() {
    let mut d = Downloader::new(4);
    d.submit(&vec![req("a", 4), req("b", 2)]);
    d.start_next();
    d.start_next();
    d.record_chunk(0, 1);
    d.record_chunk(1, 1);
    d.record_chunk(0, 3);
    d.fail(1, Error::Timeout);
    d.complete(0, None);

    let mut per_task: Vec<Vec<TaskStatus>> = vec![Vec::new(), Vec::new()];
    while let Some(e) = d.poll_event() {
        per_task[e.id as usize].push(e.status);
    }
    for stream in &per_task {
        let mut last_rank = 0;
        let mut last_percent = 0u8;
        for s in stream {
            let rank = match s {
                TaskStatus::Queued => 0,
                TaskStatus::InProgress(p) => {
                    if last_rank == 1 {
                        assert!(*p >= last_percent, "percent must not decrease");
                    }
                    last_percent = *p;
                    1
                },
                TaskStatus::Completed | TaskStatus::Failed(_) => 2,
            };
            assert!(rank >= last_rank, "status rank must not decrease");
            last_rank = rank;
        }
    }
    assert_eq!(per_task[0].last(), Some(&TaskStatus::Completed));
    assert!(matches!(per_task[1].last(), Some(TaskStatus::Failed(_))));
}

#[test]
fn empty_file_starts_at_one_hundred_percent() {
    let mut d = Downloader::new(1);
    d.submit(&vec![req("empty", 0)]);
    d.start_next();
    assert_eq!(d.status_of(0), Some(TaskStatus::InProgress(100)));
    assert_eq!(d.complete(0, None), Some(TaskStatus::Completed));
}

#[test]
fn touching_a_task_that_is_not_in_flight_changes_nothing() {
    let mut d = Downloader::new(4);
    d.submit(&vec![req("a", 1)]);
    assert!(!d.record_chunk(0, 1), "a queued task receives no bytes");
    assert!(!d.fail(7, Error::FilesystemError("no such task".to_string())));
    assert_eq!(d.complete(0, None), None);
    assert_eq!(d.status_of(0), Some(TaskStatus::Queued));
}
