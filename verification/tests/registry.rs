use guloader::config::{Config, SelectorsConfig, SiteConfig};
use guloader::downloaders::{pages_of, PageFetch};
use guloader::error::{ErrorKind, GuLoaderError};
use guloader::models::{Chapter, ChapterStatus, Manga, ScanStatus};
use guloader::number::ChapterNumber;
use guloader::registry::{
    record_catalog, record_download, record_scan, CatalogRegistry, Checker, Downloader,
    DownloaderRegistry, Scanner, ScannerRegistry,
};
use guloader::scanners::madara::MadaraScanner;
use guloader::store::RecordStore;
use guloader::traits::{CatalogChecker, CatalogEntry};

fn site(kind: &str) -> SiteConfig {
    SiteConfig {
        name: "Site".to_string(),
        base_url: "https://site".to_string(),
        scanner_type: kind.to_string(),
        downloader_type: kind.to_string(),
        rate_limit_ms: 0,
        user_agent: None,
        headers: None,
        selectors: SelectorsConfig {
            manga_list: String::new(),
            chapter_list: String::new(),
            chapter_title: String::new(),
            chapter_url: String::new(),
            image_container: String::new(),
            image_url: String::new(),
            next_page: None,
        },
    }
}

fn config() -> Config {
    let mut config = Config::default();
    config.sites.insert("thunder", site("thunder"));
    config.sites.insert("strange", site("unknown-type"));
    config
}

fn manga(id: &str, site: &str) -> Manga {
    Manga::stamped(
        id.to_string(),
        1,
        "My Title".to_string(),
        site.to_string(),
        format!("https://site/{}", id),
        None,
    )
}

fn chapter(id: &str, manga_id: &str, thousandths: u128) -> Chapter {
    Chapter::stamped(
        id.to_string(),
        1,
        manga_id.to_string(),
        "My Title".to_string(),
        format!("Chapter {}", id),
        ChapterNumber { thousandths },
        format!("https://site/ch/{}", id),
    )
}

const TITLE_PAGE: &str = r#"<ul id="chapterlist">
    <li><a href="https://site/ch/1"><span class="chapternum">Chapter 1</span></a></li>
    <li><a href="https://site/ch/2-5"><span class="chapternum">Chapter 2.5</span></a></li>
    <li><a href="https://site/ch/3"><span class="chapternum">Chapter 3</span></a></li>
    </ul>"#;

#[test]
fn built_in_adapters_are_registered() {
    let scanners = ScannerRegistry::new();
    assert!(matches!(scanners.get_scanner("eros"), Some(Scanner::Eros(_))));
    assert!(matches!(scanners.get_scanner("madara"), Some(Scanner::Madara(_))));
    assert!(matches!(scanners.get_scanner("thunder"), Some(Scanner::Madara(_))));
    assert!(scanners.get_scanner("Eros").is_none());
    let downloaders = DownloaderRegistry::new();
    assert!(matches!(downloaders.get_downloader("eros"), Some(Downloader::Eros(_))));
    assert!(matches!(downloaders.get_downloader("thunder"), Some(Downloader::Madara(_))));
    assert!(downloaders.get_downloader("other").is_none());
    let checkers = CatalogRegistry::new();
    assert!(matches!(checkers.get_checker("eros"), Some(Checker::Eros(_))));
    assert!(checkers.get_checker("madara").is_none());
}

#[test]
fn registering_replaces_what_a_name_had() {
    let mut scanners = ScannerRegistry::new();
    scanners.register_scanner("eros", Scanner::Madara(MadaraScanner::new()));
    scanners.register_scanner("new", Scanner::Madara(MadaraScanner::new()));
    assert!(matches!(scanners.get_scanner("eros"), Some(Scanner::Madara(_))));
    assert!(scanners.get_scanner("new").is_some());
    let mut checkers = CatalogRegistry::new();
    checkers.register_checker(
        "madara",
        Checker::Madara(guloader::checkers::madara::MadaraCatalogChecker::new()),
    );
    let checker = checkers.get_checker("madara").unwrap();
    assert!(checker.fetch_first_page(&site("madara"), "<p></p>").unwrap().is_empty());
    let mut downloaders = DownloaderRegistry::new();
    downloaders.register_downloader(
        "x",
        Downloader::Eros(guloader::downloaders::eros::ErosDownloader::new()),
    );
    assert!(matches!(downloaders.get_downloader("x"), Some(Downloader::Eros(_))));
}

#[test]
fn scan_of_an_unknown_title_or_site_is_a_lookup_failure() {
    let scanners = ScannerRegistry::new();
    let mut store = RecordStore::new();
    store.create_manga(manga("m1", "nowhere"));
    store.create_manga(manga("m2", "strange"));
    let page = Ok(TITLE_PAGE.to_string());
    let error = scanners.scan_manga(&config(), &mut store, "m0", &page, 5).unwrap_err();
    assert_eq!(error.message(), "Manga not found: m0");
    let error = scanners.scan_manga(&config(), &mut store, "m1", &page, 5).unwrap_err();
    assert_eq!(error.message(), "Site not supported: nowhere");
    let error = scanners.scan_manga(&config(), &mut store, "m2", &page, 5).unwrap_err();
    assert_eq!(error.message(), "Site not supported: unknown-type");
    assert!(store.scan_logs.is_empty() && store.chapters.is_empty());
    assert_eq!(scanners.scan_target(&config(), &store, "m1").unwrap_err().kind(), ErrorKind::SiteNotSupported);
}

#[test]
fn scan_records_chapters_count_and_log() {
    let scanners = ScannerRegistry::new();
    let mut store = RecordStore::new();
    store.create_manga(manga("m1", "thunder"));
    assert_eq!(scanners.scan_target(&config(), &store, "m1").unwrap(), "https://site/m1");
    scanners.scan_manga(&config(), &mut store, "m1", &Ok(TITLE_PAGE.to_string()), 42).unwrap();
    assert_eq!(store.chapters.len(), 3);
    assert!(store.chapters.iter().all(|c| c.status == ChapterStatus::Pending && c.manga_id == "m1"));
    assert_eq!(store.manga[0].chapter_count, 3);
    assert_eq!(store.manga[0].last_updated, store.manga[0].updated_at);
    let log = &store.scan_logs[0];
    assert_eq!((log.chapters_found, log.chapters_new), (3, 3));
    assert_eq!(log.status, ScanStatus::Success);
    assert_eq!(log.duration_ms, 42);
    assert_eq!(log.manga_id, "m1");
    assert_eq!(log.site, "thunder");
    assert_eq!(log.error_message, None);
}

#[test]
fn second_scan_of_an_unchanged_page_adds_nothing() {
    let scanners = ScannerRegistry::new();
    let mut store = RecordStore::new();
    store.create_manga(manga("m1", "thunder"));
    let page = Ok(TITLE_PAGE.to_string());
    scanners.scan_manga(&config(), &mut store, "m1", &page, 1).unwrap();
    let after_first: Vec<String> = store.chapters.iter().map(|c| c.id.clone()).collect();
    scanners.scan_manga(&config(), &mut store, "m1", &page, 1).unwrap();
    let after_second: Vec<String> = store.chapters.iter().map(|c| c.id.clone()).collect();
    assert_eq!(after_first, after_second);
    assert_eq!((store.scan_logs[1].chapters_found, store.scan_logs[1].chapters_new), (3, 0));
    assert_eq!(store.manga[0].chapter_count, 3);
}

#[test]
fn failed_scan_is_recorded_too() {
    let scanners = ScannerRegistry::new();
    let mut store = RecordStore::new();
    store.create_manga(manga("m1", "eros"));
    let page = Err(GuLoaderError::Http("timeout".to_string()));
    scanners.scan_manga(&config(), &mut store, "m1", &page, 7).unwrap();
    let log = &store.scan_logs[0];
    assert_eq!(log.status, ScanStatus::Failed);
    assert_eq!(log.error_message.as_deref(), Some("HTTP request error: timeout"));
    assert_eq!((log.chapters_found, log.chapters_new), (0, 0));
    assert_eq!(store.manga[0].chapter_count, 0);
    // an adapter failure: a link without address
    let page = Ok(r#"<ul id="chapterlist"><li><div class="eph-num"><a>x</a></div></li></ul>"#.to_string());
    scanners.scan_manga(&config(), &mut store, "m1", &page, 7).unwrap();
    assert_eq!(store.scan_logs[1].status, ScanStatus::Failed);
    assert_eq!(
        store.scan_logs[1].error_message.as_deref(),
        Some("Scraping error: Chapter URL not found")
    );
}

#[test]
fn record_scan_writes_the_given_stamp() {
    let mut store = RecordStore::new();
    let title = manga("m1", "eros");
    store.create_manga(title.clone());
    store.create_or_get_chapter(&chapter("old", "m1", 1000));
    let outcome = Ok(vec![chapter("a", "m1", 1004), chapter("b", "m1", 2000)]);
    record_scan(&mut store, &title, &outcome, "log-1".to_string(), 77, 12);
    assert_eq!(store.chapters.iter().map(|c| c.id.clone()).collect::<Vec<_>>(), vec!["old", "b"]);
    let log = &store.scan_logs[0];
    assert_eq!(log.id, "log-1");
    assert_eq!(log.created_at, 77);
    assert_eq!((log.chapters_found, log.chapters_new, log.duration_ms), (2, 1, 12));
    assert_eq!(store.manga[0].chapter_count, 2);
    assert_eq!(store.manga[0].last_updated, 77);
    assert_eq!(store.manga[0].created_at, 1);
}

fn store_with_chapter(site: &str) -> RecordStore {
    let mut store = RecordStore::new();
    store.create_manga(manga("m1", site));
    store.create_or_get_chapter(&chapter("c1", "m1", 1000));
    store
}

#[test]
fn claim_makes_the_chapter_downloading() {
    let downloaders = DownloaderRegistry::new();
    let mut store = store_with_chapter("eros");
    let claimed = downloaders.claim_chapter(&config(), &mut store, "https://site/ch/c1", 30).unwrap();
    assert_eq!(claimed.status, ChapterStatus::Downloading);
    assert_eq!(claimed.updated_at, 30);
    assert_eq!(store.chapters[0].status, ChapterStatus::Downloading);
    assert_eq!(store.chapters[0].updated_at, 30);
}

#[test]
fn claim_of_what_cannot_be_downloaded_is_a_lookup_failure() {
    let downloaders = DownloaderRegistry::new();
    let mut store = store_with_chapter("strange");
    store.create_or_get_chapter(&chapter("c2", "m9", 1000));
    let error = downloaders.claim_chapter(&config(), &mut store, "https://site/nope", 30).unwrap_err();
    assert_eq!(error.message(), "Chapter not found: https://site/nope");
    let error = downloaders.claim_chapter(&config(), &mut store, "https://site/ch/c2", 30).unwrap_err();
    assert_eq!(error.message(), "Manga not found: m9");
    let error = downloaders.claim_chapter(&config(), &mut store, "https://site/ch/c1", 30).unwrap_err();
    assert_eq!(error.message(), "Site not supported: unknown-type");
    assert!(store.chapters.iter().all(|c| c.status == ChapterStatus::Pending));
}

#[test]
fn extraction_uses_the_adapter_of_the_site() {
    let downloaders = DownloaderRegistry::new();
    let store = store_with_chapter("thunder");
    let page = Ok(r#"<div class="reading-content"><img src="https://cdn/wp-content/1.jpg"></div>"#.to_string());
    let pages = downloaders.extract_pages(&config(), &store, &store.chapters[0], &page).unwrap();
    assert_eq!(pages.len(), 1);
    assert_eq!(pages[0].chapter_id, "c1");
    let failed = Err(GuLoaderError::Http("404".to_string()));
    let error = downloaders.extract_pages(&config(), &store, &store.chapters[0], &failed).unwrap_err();
    assert_eq!(error.message(), "HTTP request error: 404");
    let empty = Ok("<p></p>".to_string());
    let error = downloaders.extract_pages(&config(), &store, &store.chapters[0], &empty).unwrap_err();
    assert_eq!(error.kind(), ErrorKind::Scraping);
}

fn saved(n: usize) -> PageFetch {
    PageFetch::Saved { local_path: format!("p{}", n), file_size_bytes: None, downloaded_at: 40 }
}

#[test]
fn chapter_with_a_saved_page_is_downloaded_with_the_saved_count() {
    let downloaders = DownloaderRegistry::new();
    let mut store = store_with_chapter("eros");
    let pages = pages_of(&"c1".to_string(), vec!["u1".to_string(), "u2".to_string(), "u3".to_string()]);
    let fetches = vec![saved(1), PageFetch::Failed, saved(3)];
    let moves = downloaders
        .download_chapter(&config(), &mut store, "https://site/ch/c1", Ok(pages), &fetches, 50)
        .unwrap();
    let c = &store.chapters[0];
    assert_eq!(c.status, ChapterStatus::Downloaded);
    assert_eq!(c.page_count, 2);
    assert_eq!(c.downloaded_at, Some(50));
    assert_eq!(store.pages.iter().map(|p| p.page_number).collect::<Vec<_>>(), vec![1, 2]);
    assert_eq!(store.pages.iter().map(|p| p.image_url.clone()).collect::<Vec<_>>(), vec!["u1", "u3"]);
    assert_eq!(
        store.pages.iter().map(|p| p.local_path.clone().unwrap()).collect::<Vec<_>>(),
        vec![
            "./downloads/My Title/1/pages/page_001.jpg",
            "./downloads/My Title/1/pages/page_002.jpg",
        ]
    );
    assert_eq!(
        moves.iter().map(|m| (m.from.clone(), m.to.clone())).collect::<Vec<_>>(),
        vec![
            ("p1".to_string(), "./downloads/My Title/1/pages/page_001.jpg".to_string()),
            ("p3".to_string(), "./downloads/My Title/1/pages/page_002.jpg".to_string()),
        ]
    );
}

#[test]
fn a_second_download_replaces_the_pages_of_the_first() {
    let downloaders = DownloaderRegistry::new();
    let mut store = store_with_chapter("eros");
    store.create_or_get_chapter(&chapter("c2", "m1", 2500));
    let addresses = vec!["u1".to_string(), "u2".to_string(), "u3".to_string()];
    let all = vec![saved(1), saved(2), saved(3)];
    downloaders
        .download_chapter(
            &config(),
            &mut store,
            "https://site/ch/c1",
            Ok(pages_of(&"c1".to_string(), addresses.clone())),
            &all,
            50,
        )
        .unwrap();
    downloaders
        .download_chapter(
            &config(),
            &mut store,
            "https://site/ch/c2",
            Ok(pages_of(&"c2".to_string(), addresses.clone())),
            &all,
            55,
        )
        .unwrap();
    assert_eq!(store.pages.len(), 6);
    let fetches = vec![PageFetch::Failed, saved(2), saved(3)];
    downloaders
        .download_chapter(
            &config(),
            &mut store,
            "https://site/ch/c1",
            Ok(pages_of(&"c1".to_string(), addresses)),
            &fetches,
            60,
        )
        .unwrap();
    assert_eq!(store.chapters[0].page_count, 2);
    assert_eq!(store.chapters[0].downloaded_at, Some(60));
    assert_eq!(store.chapters[1].page_count, 3);
    let listed: Vec<(String, usize, String)> = store
        .pages
        .iter()
        .map(|p| (p.chapter_id.clone(), p.page_number, p.image_url.clone()))
        .collect();
    let row = |c: &str, n: usize, u: &str| (c.to_string(), n, u.to_string());
    assert_eq!(
        listed,
        vec![row("c2", 1, "u1"), row("c2", 2, "u2"), row("c2", 3, "u3"), row("c1", 1, "u2"), row("c1", 2, "u3")]
    );
    assert_eq!(
        store.pages[0].local_path.as_deref(),
        Some("./downloads/My Title/2.5/pages/page_001.jpg")
    );
    let pages = store.get_chapter_pages("c1");
    assert_eq!(pages.iter().map(|p| p.page_number).collect::<Vec<_>>(), vec![1, 2]);
}

#[test]
fn chapter_whose_fetches_all_fail_is_failed() {
    let downloaders = DownloaderRegistry::new();
    let mut store = store_with_chapter("eros");
    let pages = pages_of(&"c1".to_string(), vec!["u1".to_string(), "u2".to_string()]);
    let fetches = vec![PageFetch::Failed, PageFetch::Failed];
    let error = downloaders
        .download_chapter(&config(), &mut store, "https://site/ch/c1", Ok(pages), &fetches, 50)
        .unwrap_err();
    assert_eq!(error.kind(), ErrorKind::Http);
    assert_eq!(store.chapters[0].status, ChapterStatus::Failed);
    assert_eq!(store.chapters[0].page_count, 0);
    assert!(store.pages.is_empty());
}

#[test]
fn chapter_whose_extraction_failed_is_failed() {
    let downloaders = DownloaderRegistry::new();
    let mut store = store_with_chapter("eros");
    let chapter = store.chapters[0].clone();
    let extraction = Err(GuLoaderError::scraping("no pages found for the chapter"));
    let error = downloaders
        .download_chapter_to_scans(&config(), &mut store, &chapter, extraction, &Vec::new(), 50)
        .unwrap_err();
    assert_eq!(error.kind(), ErrorKind::Scraping);
    assert_eq!(store.chapters[0].status, ChapterStatus::Failed);
    assert_eq!(store.chapters[0].updated_at, 50);
}

#[test]
fn download_to_scans_records_as_a_manual_download_does() {
    let downloaders = DownloaderRegistry::new();
    let mut store = store_with_chapter("thunder");
    let chapter = store.chapters[0].clone();
    let pages = pages_of(&"c1".to_string(), vec!["u1".to_string()]);
    let moves = downloaders
        .download_chapter_to_scans(&config(), &mut store, &chapter, Ok(pages), &vec![saved(1)], 60)
        .unwrap();
    assert_eq!(store.chapters[0].status, ChapterStatus::Downloaded);
    assert_eq!(store.chapters[0].page_count, 1);
    assert_eq!(store.pages[0].local_path.as_deref(), Some("./scans/My Title/1/pages/page_001.jpg"));
    assert_eq!(moves.len(), 1);
    assert_eq!(moves[0].from, "p1");
    assert_eq!(moves[0].to, "./scans/My Title/1/pages/page_001.jpg");
    let stranger = Chapter::stamped(
        "c9".to_string(),
        1,
        "m9".to_string(),
        "T".to_string(),
        "C".to_string(),
        ChapterNumber { thousandths: 1 },
        "u".to_string(),
    );
    let error = downloaders
        .download_chapter_to_scans(&config(), &mut store, &stranger, Ok(Vec::new()), &Vec::new(), 60)
        .unwrap_err();
    assert_eq!(error.kind(), ErrorKind::MangaNotFound);
}

#[test]
fn record_download_hands_the_failure_on() {
    let mut store = store_with_chapter("eros");
    let chapter = store.chapters[0].clone();
    let error =
        record_download(&mut store, &chapter, Err(GuLoaderError::Io("disk full".to_string())), 9)
            .unwrap_err();
    assert_eq!(error.message(), "IO error: disk full");
    assert_eq!(store.chapters[0].status, ChapterStatus::Failed);
    assert!(store.pages.is_empty());
}

#[test]
fn record_download_files_the_pages_under_the_chapter() {
    let mut store = store_with_chapter("eros");
    let chapter = store.chapters[0].clone();
    let pages = pages_of(&"elsewhere".to_string(), vec!["u1".to_string(), "u2".to_string()]);
    record_download(&mut store, &chapter, Ok(pages), 9).unwrap();
    assert_eq!(store.chapters[0].status, ChapterStatus::Downloaded);
    assert_eq!(store.chapters[0].page_count, 2);
    assert_eq!(store.chapters[0].updated_at, 9);
    assert!(store.pages.iter().all(|p| p.chapter_id == "c1"));
    assert_eq!(store.pages.iter().map(|p| p.page_number).collect::<Vec<_>>(), vec![1, 2]);
}

#[test]
fn catalog_entries_become_titles_once() {
    let mut store = RecordStore::new();
    store.create_manga(manga("m1", "eros"));
    let entry = |title: &str, url: &str| CatalogEntry {
        title: title.to_string(),
        url: url.to_string(),
        cover_url: Some("https://cdn/c.jpg".to_string()),
    };
    let entries = vec![
        entry("Known", "https://site/m1"),
        entry("New", "https://site/new"),
        entry("New again", "https://site/new"),
        entry("Other", "https://site/other"),
    ];
    let added = record_catalog(&mut store, "eros", &entries);
    assert_eq!(added.iter().map(|m| m.title.clone()).collect::<Vec<_>>(), vec!["New", "Other"]);
    assert_eq!(store.manga.len(), 3);
    assert_eq!(store.manga[1].site, "eros");
    assert_eq!(store.manga[1].url, "https://site/new");
    assert_eq!(store.manga[1].cover_url.as_deref(), Some("https://cdn/c.jpg"));
    assert_eq!(store.manga[1].chapter_count, 0);
    assert_eq!(store.manga[1].id, added[0].id);
    assert!(record_catalog(&mut store, "eros", &entries).is_empty());
}
