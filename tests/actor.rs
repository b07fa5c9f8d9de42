use fantastic_time::datetime::LocalDateTime;
use fantastic_time::img::{ImgMeta, InfoValidScore, ResolutionError};
use fantastic_time::sched::{
    ticker_step, to_record, ActorStep, HandleEvent, ImgActor, ImgHandle, TickerStep, BATCH_THRESHOLD, EVENT_QUEUE_CAPACITY,
};
use fantastic_time::store::ImgMetaDao;
use fantastic_time::walker::{scan_step, DirsScanner, EntryKind, ScanAction};
use fantastic_time::img::ImageFormat;

fn path(i: usize) -> String {
    format!("/pics/img_{}.jpg", i)
}

#[test]
fn tick_flushes_partial_batch() {
    let mut actor = ImgActor::new();
    let mut flushes = Vec::new();
    for i in 0..499 {
        match actor.handle(HandleEvent::NewPathEvent(path(i))) {
            ActorStep::Wait => {}
            ActorStep::Flush(v) | ActorStep::Stop(v) => flushes.push(v),
        }
    }
    assert!(flushes.is_empty());
    assert_eq!(actor.pending_len(), 499);
    match actor.handle(HandleEvent::Tick) {
        ActorStep::Flush(v) => flushes.push(v),
        _ => panic!("tick with a non-empty batch must flush"),
    }
    assert_eq!(flushes.len(), 1);
    assert_eq!(flushes[0].len(), 499);
    assert_eq!(flushes[0][0], path(0));
    assert_eq!(flushes[0][498], path(498));
    assert_eq!(actor.pending_len(), 0);
}

#[test]
fn threshold_flushes_on_501st_path() {
    let mut actor = ImgActor::new();
    let mut flushed_at = Vec::new();
    for i in 0..501 {
        match actor.handle(HandleEvent::NewPathEvent(path(i))) {
            ActorStep::Wait => {}
            ActorStep::Flush(v) => {
                assert_eq!(v.len(), 501);
                assert_eq!(v[500], path(500));
                flushed_at.push(i);
            }
            ActorStep::Stop(_) => panic!("no stop without shutdown"),
        }
    }
    assert_eq!(flushed_at, vec![500]);
    assert_eq!(actor.pending_len(), 0);
    assert_eq!(BATCH_THRESHOLD, 500);
}

#[test]
fn tick_on_empty_batch_waits() {
    let mut actor = ImgActor::new();
    assert!(matches!(actor.handle(HandleEvent::Tick), ActorStep::Wait));
    assert_eq!(actor.pending_len(), 0);
}

#[test]
fn shutdown_drains_batch() {
    let mut actor = ImgActor::new();
    actor.handle(HandleEvent::NewPathEvent(path(1)));
    actor.handle(HandleEvent::NewPathEvent(path(2)));
    match actor.handle(HandleEvent::Shutdown) {
        ActorStep::Stop(v) => assert_eq!(v, vec![path(1), path(2)]),
        _ => panic!("shutdown must stop"),
    }
    assert_eq!(actor.pending_len(), 0);
    match actor.handle(HandleEvent::Shutdown) {
        ActorStep::Stop(v) => assert!(v.is_empty()),
        _ => panic!("shutdown must stop"),
    }
}

#[test]
fn ticker_stops_on_shutdown() {
    assert_eq!(ticker_step(true), TickerStep::Stop);
    assert_eq!(ticker_step(false), TickerStep::Emit);
}

#[test]
fn handle_queues_events() {
    let (tx, rx) = std::sync::mpsc::sync_channel(EVENT_QUEUE_CAPACITY);
    let handle = ImgHandle::new(tx);
    assert!(handle.sched(HandleEvent::NewPathEvent(path(7))));
    assert!(handle.sched(HandleEvent::Tick));
    assert!(matches!(rx.recv().unwrap(), HandleEvent::NewPathEvent(p) if p == path(7)));
    assert!(matches!(rx.recv().unwrap(), HandleEvent::Tick));
    drop(rx);
    assert!(!handle.sched(HandleEvent::Tick));
}

#[test]
fn record_from_resolution() {
    let t = LocalDateTime { year: 2016, month: 3, day: 17, hour: 12, minute: 43, second: 55 };
    let now = LocalDateTime { year: 2024, month: 1, day: 1, hour: 0, minute: 0, second: 0 };
    let with_time = ImgMeta { sig: Some("s".to_string()), time: Some(t), score: Some(InfoValidScore::High) };
    let r = to_record(with_time, "id1".to_string(), now).unwrap();
    assert_eq!(r.time, t);
    assert_eq!(r.sign, "s");
    assert_eq!(r.id, Some("id1".to_string()));
    let without_time = ImgMeta { sig: Some("s".to_string()), time: None, score: None };
    assert_eq!(to_record(without_time, "id2".to_string(), now).unwrap().time, now);
    let unsigned = ImgMeta { sig: None, time: Some(t), score: Some(InfoValidScore::High) };
    assert!(to_record(unsigned, "id3".to_string(), now).is_none());
}

#[test]
fn records_of_drops_failures_and_keys_the_rest() {
    let t = LocalDateTime { year: 2016, month: 3, day: 17, hour: 12, minute: 43, second: 55 };
    let now = LocalDateTime { year: 2024, month: 1, day: 1, hour: 0, minute: 0, second: 0 };
    let batch = vec![
        Ok(ImgMeta { sig: Some("a".to_string()), time: Some(t), score: Some(InfoValidScore::High) }),
        Err(ResolutionError::NoTimestamp),
        Ok(ImgMeta { sig: Some("b".to_string()), time: None, score: None }),
        Err(ResolutionError::DecodeFailure),
    ];
    let recs = ImgActor::records_of(batch, now);
    assert_eq!(recs.len(), 2);
    assert_eq!(recs[0].sign, "a");
    assert_eq!(recs[0].time, t);
    assert_eq!(recs[1].sign, "b");
    assert_eq!(recs[1].time, now);
    let id0 = recs[0].id.clone().unwrap();
    let id1 = recs[1].id.clone().unwrap();
    assert_eq!(id0.len(), 36);
    assert_ne!(id0, id1);
}

#[test]
fn flush_persists_resolved_records() {
    let conn = rusqlite::Connection::open_in_memory().unwrap();
    ImgMetaDao::create_table(&conn).unwrap();
    let t = LocalDateTime { year: 2016, month: 3, day: 17, hour: 12, minute: 43, second: 55 };
    let batch = vec![
        Ok(ImgMeta { sig: Some("a".to_string()), time: Some(t), score: Some(InfoValidScore::High) }),
        Err(ResolutionError::NoSignature),
        Ok(ImgMeta { sig: Some("b".to_string()), time: None, score: None }),
    ];
    let report = ImgActor::batch_write(batch, &conn);
    assert_eq!(report.discovered, 3);
    assert_eq!(report.resolved, 2);
    assert!(report.failed.is_empty());
    let page = ImgMetaDao::query_all(0, 10, &conn).unwrap();
    assert_eq!(page.len(), 2);
    assert_eq!(page[0].sign, "a");
    assert_eq!(page[0].time, t);
    assert!(page[1].time.year >= 2024);
}

#[test]
fn walk_decisions() {
    assert_eq!(scan_step(EntryKind::Symlink), ScanAction::Skip);
    assert_eq!(scan_step(EntryKind::Directory), ScanAction::Descend);
    assert_eq!(scan_step(EntryKind::File), ScanAction::Emit);
    assert_eq!(scan_step(EntryKind::Other), ScanAction::Skip);
}

#[test]
fn image_format_by_extension() {
    assert_eq!(DirsScanner::image_format_of("/a/b/c.jpg"), Some(ImageFormat::Jpg));
    assert_eq!(DirsScanner::image_format_of("c.tar.png"), Some(ImageFormat::Png));
    assert_eq!(DirsScanner::image_format_of("/a.jpeg/c"), None);
    assert_eq!(DirsScanner::image_format_of("/a/notes.txt"), None);
    assert_eq!(DirsScanner::image_format_of("/a/photo.JPG"), None);
    assert!(DirsScanner::has_extension("/a.b/c.gif"));
    assert!(!DirsScanner::has_extension("/a.b/c"));
    assert!(!DirsScanner::has_extension("/a/.png"));
    assert_eq!(DirsScanner::image_format_of("/a/.png"), None);
    assert_eq!(DirsScanner::image_format_of("/a/x.png"), Some(ImageFormat::Png));
}

#[test]
fn scanner_sends_found_paths() {
    let (scanner, rx) = DirsScanner::new();
    assert!(scanner.emit("/a/b.jpg".to_string()));
    assert_eq!(rx.recv().unwrap(), "/a/b.jpg");
    drop(rx);
    assert!(!scanner.emit("/a/c.jpg".to_string()));
}
