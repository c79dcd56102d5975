use nicoyomi::chapter::{ChapterAction, ChapterDownload, ChapterEvent, ChapterStage};
use nicoyomi::cover_download::{CoverAction, CoverDownload, CoverEvent, CoverStage};
use nicoyomi::error::MangadexServiceError;

fn path_of(action: &CoverAction) -> &str {
    match action {
        CoverAction::CheckExists(p) | CoverAction::CreateDir(p) | CoverAction::OpenForWrite(p)
        | CoverAction::RemoveDir(p) | CoverAction::Serve(p) => p.as_str(),
        _ => panic!("expected an action with a path"),
    }
}

#[test]
fn kept_cover_is_served_at_once() {
    let (mut job, first) = CoverDownload::start("m1".to_string(), "f.jpg".to_string());
    assert!(matches!(first, CoverAction::CheckExists(_)));
    assert_eq!(path_of(&first), "cover/m1/f.jpg");
    let next = job.next(CoverEvent::Exists(true));
    assert!(matches!(next, CoverAction::Serve(_)));
    assert_eq!(path_of(&next), "cover/m1/f.jpg");
    assert_eq!(job.stage, CoverStage::Serving);
}

#[test]
fn missing_cover_is_downloaded_piece_by_piece() {
    let (mut job, _) = CoverDownload::start("m1".to_string(), "f.jpg".to_string());
    let a = job.next(CoverEvent::Exists(false));
    assert!(matches!(a, CoverAction::CreateDir(_)));
    assert_eq!(path_of(&a), "cover/m1");
    match job.next(CoverEvent::Done) {
        CoverAction::Fetch(m, f) => {
            assert_eq!(m, "m1");
            assert_eq!(f, "f.jpg");
        }
        _ => panic!("expected a fetch"),
    }
    let a = job.next(CoverEvent::Done);
    assert!(matches!(a, CoverAction::OpenForWrite(_)));
    assert_eq!(path_of(&a), "cover/m1/f.jpg");
    assert!(matches!(job.next(CoverEvent::Done), CoverAction::NextChunk));
    assert!(matches!(job.next(CoverEvent::Chunk), CoverAction::WriteChunk));
    assert!(matches!(job.next(CoverEvent::Done), CoverAction::NextChunk));
    assert!(matches!(job.next(CoverEvent::Chunk), CoverAction::WriteChunk));
    assert!(matches!(job.next(CoverEvent::Done), CoverAction::NextChunk));
    let a = job.next(CoverEvent::StreamEnded);
    assert!(matches!(a, CoverAction::Serve(_)));
    assert_eq!(path_of(&a), "cover/m1/f.jpg");
}

#[test]
fn failed_write_removes_the_folder_then_fails() {
    let (mut job, _) = CoverDownload::start("m2".to_string(), "g.png".to_string());
    job.next(CoverEvent::Exists(false));
    job.next(CoverEvent::Done);
    job.next(CoverEvent::Done);
    job.next(CoverEvent::Done);
    job.next(CoverEvent::Chunk);
    let a = job.next(CoverEvent::Failed(MangadexServiceError::IoError));
    assert!(matches!(a, CoverAction::RemoveDir(_)));
    assert_eq!(path_of(&a), "cover/m2");
    match job.next(CoverEvent::Done) {
        CoverAction::Fail(e) => assert_eq!(e, MangadexServiceError::IoError),
        _ => panic!("expected a failure"),
    }
    assert_eq!(job.stage, CoverStage::Failed(MangadexServiceError::IoError));
}

#[test]
fn fetch_failure_ends_with_its_error() {
    let (mut job, _) = CoverDownload::start("m3".to_string(), "h.png".to_string());
    job.next(CoverEvent::Exists(false));
    job.next(CoverEvent::Done);
    match job.next(CoverEvent::Failed(MangadexServiceError::SendRequestError)) {
        CoverAction::Fail(e) => assert_eq!(e, MangadexServiceError::SendRequestError),
        _ => panic!("expected a failure"),
    }
}

#[test]
fn unexpected_events_are_internal_errors() {
    let (mut job, _) = CoverDownload::start("m4".to_string(), "i.png".to_string());
    match job.next(CoverEvent::Chunk) {
        CoverAction::Fail(e) => assert_eq!(e, MangadexServiceError::InternalError),
        _ => panic!("expected a failure"),
    }
    assert_eq!(job.stage, CoverStage::Failed(MangadexServiceError::InternalError));

    let (mut chapter, _) = ChapterDownload::start("c".to_string(), "M".to_string(), "C".to_string());
    match chapter.next(ChapterEvent::Finished) {
        ChapterAction::Fail(e) => assert_eq!(e, MangadexServiceError::InternalError),
        _ => panic!("expected a failure"),
    }
    assert_eq!(chapter.stage, ChapterStage::Failed);
}
