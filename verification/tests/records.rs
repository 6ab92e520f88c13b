use guloader::config::Config;
use guloader::error::{ErrorKind, GuLoaderError};
use guloader::models::{
    Chapter, ChapterPage, ChapterStatus, Manga, MangaStatus, ScanLog, ScanStatus,
};
use guloader::number::ChapterNumber;

#[test]
fn failures_speak_with_the_heading_of_their_category() {
    assert_eq!(GuLoaderError::scraping("x").message(), "Scraping error: x");
    assert_eq!(GuLoaderError::chapter_not_found("c").message(), "Chapter not found: c");
    assert_eq!(GuLoaderError::manga_not_found("m").message(), "Manga not found: m");
    assert_eq!(GuLoaderError::site_not_supported("s").message(), "Site not supported: s");
    assert_eq!(GuLoaderError::Database("d".to_string()).message(), "Database error: d");
    assert_eq!(GuLoaderError::Http("h".to_string()).message(), "HTTP request error: h");
    assert_eq!(GuLoaderError::Config("c".to_string()).message(), "Configuration error: c");
    assert_eq!(GuLoaderError::Io("i".to_string()).message(), "IO error: i");
    assert_eq!(GuLoaderError::Serialization("s".to_string()).message(), "Serialization error: s");
    assert_eq!(GuLoaderError::Url("u".to_string()).message(), "URL parsing error: u");
    assert_eq!(GuLoaderError::Image("i".to_string()).message(), "Image processing error: i");
    assert_eq!(GuLoaderError::Zip("z".to_string()).message(), "ZIP compression error: z");
}

#[test]
fn failures_keep_kind_and_detail() {
    let e = GuLoaderError::manga_not_found("m7");
    assert_eq!(e.kind(), ErrorKind::MangaNotFound);
    assert_eq!(e.detail(), "m7");
    let copy = e.duplicate();
    assert_eq!(copy.kind(), ErrorKind::MangaNotFound);
    assert_eq!(copy.detail(), "m7");
    assert_eq!(ErrorKind::Zip.heading_text(), "ZIP compression error: ");
}

#[test]
fn title_states_have_names() {
    assert_eq!(MangaStatus::Active.label(), "Active");
    assert_eq!(MangaStatus::Paused.label(), "Paused");
    assert_eq!(MangaStatus::Completed.label(), "Completed");
    assert_eq!(MangaStatus::Error.label(), "Error");
}

#[test]
fn new_chapters_are_pending() {
    let c = Chapter::new(
        "m1".to_string(),
        "Title".to_string(),
        "Chapter 1".to_string(),
        ChapterNumber { thousandths: 1000 },
        "https://site/1".to_string(),
    );
    assert_eq!(c.status, ChapterStatus::Pending);
    assert_eq!((c.page_count, c.file_size_bytes, c.downloaded_at), (0, None, None));
    assert_eq!(c.created_at, c.updated_at);
    assert!(c.created_at > 1_600_000_000_000);
    assert_eq!(c.id.len(), 36);
    let d = Chapter::new(
        "m1".to_string(),
        "Title".to_string(),
        "Chapter 1".to_string(),
        ChapterNumber { thousandths: 1000 },
        "https://site/1".to_string(),
    );
    assert_ne!(c.id, d.id);
    let copy = c.clone();
    assert_eq!((copy.id, copy.title, copy.number), (c.id, c.title, c.number));
}

#[test]
fn new_pages_are_not_downloaded() {
    let p = ChapterPage::new("c1".to_string(), 3, "https://cdn/3.jpg".to_string());
    assert_eq!((p.chapter_id.as_str(), p.page_number, p.image_url.as_str()), ("c1", 3, "https://cdn/3.jpg"));
    assert_eq!((p.local_path, p.file_size_bytes, p.downloaded_at), (None, None, None));
    assert_eq!(p.id.len(), 36);
}

#[test]
fn new_scan_records_are_empty_successes() {
    let l = ScanLog::new("m1".to_string(), "eros".to_string());
    assert_eq!(l.status, ScanStatus::Success);
    assert_eq!((l.chapters_found, l.chapters_new, l.duration_ms), (0, 0, 0));
    assert_eq!(l.error_message, None);
    assert_eq!((l.manga_id.as_str(), l.site.as_str()), ("m1", "eros"));
}

#[test]
fn new_titles_are_active() {
    let m = Manga::new("T".to_string(), "eros".to_string(), "https://site/t".to_string(), None);
    assert_eq!(m.status, MangaStatus::Active);
    assert_eq!((m.chapter_count, m.description, m.cover_url), (0, None, None));
    assert_eq!(m.created_at, m.last_updated);
}

#[test]
fn default_configuration_knows_the_eros_site() {
    let config = Config::default();
    assert_eq!(config.database.url, "sqlite:data/guloader.db");
    assert_eq!(config.database.max_connections, 10);
    assert_eq!(config.storage.base_path, "./downloads");
    assert_eq!(config.storage.scans_path, "./scans");
    assert_eq!(config.scanner.interval_minutes, 10);
    assert_eq!(config.scanner.retry_delay_ms, 5000);
    assert!(config.manga.is_empty());
    assert_eq!(config.sites.len(), 1);
    let eros = config.get_site_config("eros").unwrap();
    assert_eq!(eros.name, "Eros Moon");
    assert_eq!(eros.base_url, "https://eros-moon.xyz");
    assert_eq!(eros.scanner_type, "eros");
    assert_eq!(eros.downloader_type, "eros");
    assert_eq!(eros.rate_limit_ms, 1500);
    assert_eq!(eros.selectors.chapter_list, "#chapterlist li");
    assert!(eros.headers.is_none());
    assert!(config.get_site_config("madara").is_none());
}

#[test]
fn titles_are_tracked_once_by_address() {
    let mut config = Config::default();
    assert!(config.track("One", "eros", "https://site/one"));
    assert!(!config.track("One again", "eros", "https://site/one"));
    assert!(config.track("Two", "eros", "https://site/two"));
    assert_eq!(config.manga.len(), 2);
    assert_eq!(config.manga[0].title, "One");
    assert!(config.manga[1].active);
    assert_eq!(config.manga[1].site, "eros");
}
