use nicoyomi::chapter::{
    azw3_path, chapter_dir, download_filename, downloader_args, epub_path, prepend_filename_param,
    ChapterAction, ChapterDownload, ChapterEvent, ChapterStage,
};
use nicoyomi::error::MangadexServiceError;
use nicoyomi::logging::{filter_records, filtered_modules};
use nicoyomi::mangadex::{Manga, MangaAttributes, Relationship, MangaWithCoverArt};
use nicoyomi::pages::{found_manga, query_text, search_title, volumes_manga_id, Download, SearchQuery};
use nicoyomi::requests::{
    cover_dir, cover_download_uri, cover_file_path, cover_query_uri, manga_search_uri, manga_uri,
    volumes_uri,
};
use nicoyomi::text::join_strings;

fn manga(id: &str, rels: Vec<Relationship>) -> Manga {
    Manga {
        id: id.to_string(),
        _type: "manga".to_string(),
        attributes: MangaAttributes {
            title: vec![],
            alt_titles: vec![],
            description: vec![],
            tags: vec![],
            year: None,
            state: String::new(),
            status: String::new(),
            publication_demographic: None,
        },
        relationships: rels,
    }
}

fn cover_rel(id: &str) -> Relationship {
    Relationship { id: id.to_string(), _type: "cover_art".to_string(), relationship: None }
}

#[test]
fn cover_query_uri_lists_cover_ids() {
    let mangas = vec![manga("m1", vec![cover_rel("c1")]), manga("m2", vec![]), manga("m3", vec![cover_rel("c3")])];
    assert_eq!(cover_query_uri(&mangas), "https://api.mangadex.org/cover?ids[]=c1&ids[]=c3");
    assert_eq!(cover_query_uri(&vec![]), "https://api.mangadex.org/cover?ids[]=");
}

#[test]
fn join_puts_separator_between_items() {
    let a = "a".to_string();
    let b = "b".to_string();
    let c = "c".to_string();
    assert_eq!(join_strings(&vec![&a, &b, &c], ", "), "a, b, c");
    assert_eq!(join_strings(&vec![&a], ", "), "a");
    assert_eq!(join_strings(&vec![], ", "), "");
}

#[test]
fn request_addresses() {
    assert_eq!(cover_download_uri("m1", "f.jpg"), "https://mangadex.org/covers/m1/f.jpg");
    assert_eq!(cover_file_path("m1", "f.jpg"), "cover/m1/f.jpg");
    assert_eq!(cover_dir("m1"), "cover/m1");
    assert_eq!(manga_uri("m1"), "https://api.mangadex.org/manga/m1");
    assert_eq!(manga_search_uri(), "https://api.mangadex.org/manga");
    assert_eq!(volumes_uri("m1"), "https://api.mangadex.org/manga/m1/aggregate?translatedLanguage[]=en");
}

#[test]
fn chapter_files() {
    assert_eq!(chapter_dir("c1"), "downloads/c1");
    assert_eq!(epub_path("c1"), "downloads/c1/c1.epub");
    assert_eq!(azw3_path("c1"), "downloads/c1/c1.azw3");
    assert_eq!(download_filename("One-Piece", "Chapter 1"), "One-Piece_Chapter 1.azw3");
    assert_eq!(
        downloader_args("c1"),
        vec!["-f", "epub", "https://mangadex.org/chapter/c1", "-d", "downloads/c1", "-ucc", "-uvc", "-ncf", "-nmf", "-fn", "c1", "--no-track"]
    );
}

#[test]
fn filename_param_comes_first() {
    assert_eq!(prepend_filename_param("new", vec!["a", "b"]), vec!["new", "a", "b"]);
    assert_eq!(prepend_filename_param(1, vec![]), vec![1]);
}

fn check_path(action: &ChapterAction) -> &str {
    match action {
        ChapterAction::CheckExists(p) => p.as_str(),
        _ => panic!("expected a file check"),
    }
}

#[test]
fn chapter_already_converted_is_served_at_once() {
    let (mut d, first) = ChapterDownload::start("c1".to_string(), "M".to_string(), "C".to_string());
    assert_eq!(check_path(&first), "downloads/c1/c1.epub");
    let second = d.next(ChapterEvent::Exists(true));
    assert_eq!(check_path(&second), "downloads/c1/c1.azw3");
    match d.next(ChapterEvent::Exists(true)) {
        ChapterAction::Serve(path, name) => {
            assert_eq!(path, "downloads/c1/c1.azw3");
            assert_eq!(name, "M_C.azw3");
        }
        _ => panic!("expected to serve"),
    }
    assert_eq!(d.stage, ChapterStage::Serving);
}

#[test]
fn missing_chapter_is_downloaded_then_converted() {
    let (mut d, _) = ChapterDownload::start("c2".to_string(), "M".to_string(), "C".to_string());
    match d.next(ChapterEvent::Exists(false)) {
        ChapterAction::Download(args) => assert_eq!(args[2], "https://mangadex.org/chapter/c2"),
        _ => panic!("expected a download"),
    }
    assert_eq!(check_path(&d.next(ChapterEvent::Finished)), "downloads/c2/c2.epub");
    assert_eq!(check_path(&d.next(ChapterEvent::Exists(true))), "downloads/c2/c2.azw3");
    match d.next(ChapterEvent::Exists(false)) {
        ChapterAction::Convert(from, to) => {
            assert_eq!(from, "downloads/c2/c2.epub");
            assert_eq!(to, "downloads/c2/c2.azw3");
        }
        _ => panic!("expected a conversion"),
    }
    assert!(matches!(d.next(ChapterEvent::Finished), ChapterAction::Serve(_, _)));
}

#[test]
fn failed_download_is_chapter_download_error() {
    let (mut d, _) = ChapterDownload::start("c3".to_string(), "M".to_string(), "C".to_string());
    d.next(ChapterEvent::Exists(false));
    d.next(ChapterEvent::Finished);
    match d.next(ChapterEvent::Exists(false)) {
        ChapterAction::Fail(e) => assert_eq!(e, MangadexServiceError::ChapterDownloadError),
        _ => panic!("expected a failure"),
    }
    assert_eq!(d.stage, ChapterStage::Failed);
}

#[test]
fn log_records_of_filtered_crates_are_dropped() {
    assert_eq!(filtered_modules(), vec!["tokio_io", "tokio_reactor"]);
    assert!(!filter_records("tokio_io"));
    assert!(!filter_records("tokio_io::reactor"));
    assert!(!filter_records("tokio_reactor::background::x"));
    assert!(filter_records("tokio_io_extra::x"));
    assert!(filter_records("tokio"));
    assert!(filter_records("nicoyomi::pages"));
    assert!(filter_records(""));
    assert!(filter_records(":tokio_io"));
}

#[test]
fn search_page_searches_only_nonempty_queries() {
    assert_eq!(search_title(&None), None);
    assert_eq!(search_title(&Some(String::new())), None);
    assert_eq!(search_title(&Some("naruto".to_string())).map(|s| s.as_str()), Some("naruto"));
    assert_eq!(query_text(None), "");
    assert_eq!(query_text(Some("naruto".to_string())), "naruto");
    let q = SearchQuery { query: Some("x".to_string()) };
    assert_eq!(q.query.as_deref(), Some("x"));
    let _ = Download {};
}

#[test]
fn manga_page_shows_found_manga_and_its_volumes() {
    let found: Result<Option<MangaWithCoverArt>, ()> = Ok(Some(MangaWithCoverArt { manga: manga("m1", vec![]), cover_art: None }));
    let shown = found_manga(found);
    assert_eq!(volumes_manga_id(&shown).map(|s| s.as_str()), Some("m1"));
    let failed: Result<Option<MangaWithCoverArt>, ()> = Err(());
    let shown = found_manga(failed);
    assert!(shown.is_none());
    assert_eq!(volumes_manga_id(&shown), None);
}

#[test]
fn error_messages() {
    assert_eq!(MangadexServiceError::ChapterDownloadError.message(), "chapter download error");
    assert_eq!(MangadexServiceError::InternalError.message(), "internal error");
    assert_eq!(MangadexServiceError::IoError.message(), "io error");
    assert_eq!(MangadexServiceError::JoinError.message(), "join error");
    assert_eq!(MangadexServiceError::PayloadError.message(), "failed to retrieve payload");
    assert_eq!(MangadexServiceError::AcquireError.message(), "failed to acquire semaphore");
    assert_eq!(MangadexServiceError::SendRequestError.message(), "failed to send request");
    assert_eq!(MangadexServiceError::SerdeError.message(), "failed to deserialize");
    assert_eq!(MangadexServiceError::UrlEncodeError.message(), "failed to serialize error");
}
