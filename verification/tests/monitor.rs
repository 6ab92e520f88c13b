use guloader::config::{Config, SelectorsConfig, SiteConfig};
use guloader::downloaders::PageFetch;
use guloader::error::GuLoaderError;
use guloader::models::{Chapter, ChapterStatus, Manga, ScanStatus};
use guloader::monitor::{has_placeholder_url, Action, CycleSummary, Phase, TitleMonitor};
use guloader::number::ChapterNumber;
use guloader::registry::{DownloaderRegistry, ScannerRegistry};
use guloader::store::RecordStore;

fn config() -> Config {
    let mut config = Config::default();
    config.sites.insert(
        "madara",
        SiteConfig {
            name: "Madara".to_string(),
            base_url: "https://site".to_string(),
            scanner_type: "madara".to_string(),
            downloader_type: "madara".to_string(),
            rate_limit_ms: 0,
            user_agent: None,
            headers: None,
            selectors: SelectorsConfig {
                manga_list: String::new(),
                chapter_list: String::new(),
                chapter_title: String::new(),
                chapter_url: String::new(),
                image_container: String::new(),
                image_url: String::new(),
                next_page: None,
            },
        },
    );
    config
}

fn manga(url: &str, site: &str) -> Manga {
    Manga::stamped("m1".to_string(), 1, "My Title".to_string(), site.to_string(), url.to_string(), None)
}

const TITLE_PAGE: &str = r#"<html><body><ul id="chapterlist">
    <li><a href="https://site/ch/1"><span class="chapternum">Chapter 1</span></a></li>
    <li><a href="https://site/ch/2-5"><span class="chapternum">Chapter 2.5</span></a></li>
    <li><a href="https://site/ch/3"><span class="chapternum">Chapter 3</span></a></li>
    </ul></body></html>"#;

fn chapter_page(images: &[&str]) -> String {
    let tags: Vec<String> =
        images.iter().map(|i| format!("<img src=\"https://cdn/wp-content/{}\">", i)).collect();
    format!("<html><body><div class=\"reading-content\">{}</div></body></html>", tags.join(""))
}

/// Downloads `chapter` as a caller of the library would: claim, extract,
/// fetch every image with the outcome that `fetch` gives, and conclude.
fn download(
    downloaders: &DownloaderRegistry,
    config: &Config,
    store: &mut RecordStore,
    chapter: &Chapter,
    page: Result<String, GuLoaderError>,
    fetch: fn(usize) -> PageFetch,
) -> bool {
    let claimed = match downloaders.claim_chapter(config, store, &chapter.url, 100) {
        Ok(claimed) => claimed,
        Err(_) => return false,
    };
    assert_eq!(claimed.status, ChapterStatus::Downloading);
    let extraction = downloaders.extract_pages(config, store, &claimed, &page);
    let fetches: Vec<PageFetch> = match &extraction {
        Ok(pages) => pages.iter().map(|p| fetch(p.page_number)).collect(),
        Err(_) => Vec::new(),
    };
    downloaders.download_chapter(config, store, &chapter.url, extraction, &fetches, 200).is_ok()
}

fn saves(n: usize) -> PageFetch {
    PageFetch::Saved { local_path: format!("page_{:03}.jpg", n), file_size_bytes: Some(1), downloaded_at: 150 }
}

fn fails(_: usize) -> PageFetch {
    PageFetch::Failed
}

#[test]
fn placeholder_addresses_are_skipped() {
    assert!(has_placeholder_url(&manga("temp", "madara")));
    assert!(has_placeholder_url(&manga("", "madara")));
    assert!(has_placeholder_url(&manga("ftp://site/title", "madara")));
    assert!(!has_placeholder_url(&manga("https://site/title", "madara")));
    assert!(!has_placeholder_url(&manga("http://site/temp", "madara")));
    let (monitor, action) =
        TitleMonitor::start(&ScannerRegistry::new(), &config(), &RecordStore::new(), &manga("temp", "madara"));
    assert_eq!(monitor.phase, Phase::Finished);
    assert!(matches!(action, Action::Finish));
}

#[test]
fn titles_that_cannot_be_scanned_are_skipped() {
    let mut store = RecordStore::new();
    let title = manga("https://site/title", "unconfigured");
    store.create_manga(title.clone());
    let (monitor, action) = TitleMonitor::start(&ScannerRegistry::new(), &config(), &store, &title);
    assert_eq!(monitor.phase, Phase::Finished);
    assert!(matches!(action, Action::Finish));
    // a title that the store does not have
    let (_, action) = TitleMonitor::start(
        &ScannerRegistry::new(),
        &config(),
        &RecordStore::new(),
        &manga("https://site/title", "madara"),
    );
    assert!(matches!(action, Action::Finish));
}

#[test]
fn cycle_discovers_downloads_and_records() {
    let scanners = ScannerRegistry::new();
    let downloaders = DownloaderRegistry::new();
    let config = config();
    let mut store = RecordStore::new();
    let title = manga("https://site/title", "madara");
    store.create_manga(title.clone());
    let mut known = Chapter::stamped(
        "known".to_string(),
        1,
        "m1".to_string(),
        "My Title".to_string(),
        "Chapter 1".to_string(),
        ChapterNumber { thousandths: 1000 },
        "https://site/ch/1".to_string(),
    );
    known.status = ChapterStatus::Downloaded;
    known.page_count = 4;
    known.downloaded_at = Some(1);
    store.chapters.push(known);

    let (mut monitor, action) = TitleMonitor::start(&scanners, &config, &store, &title);
    let url = match action {
        Action::Scan { url } => url,
        other => panic!("expected a scan, got {:?}", other),
    };
    assert_eq!(url, "https://site/title");
    assert_eq!(monitor.phase, Phase::Scanning);

    scanners.scan_manga(&config, &mut store, "m1", &Ok(TITLE_PAGE.to_string()), 12).unwrap();
    let log = &store.scan_logs[0];
    assert_eq!(log.status, ScanStatus::Success);
    assert_eq!(log.chapters_found, 3);
    assert_eq!(log.chapters_new, 2);
    assert_eq!(store.manga[0].chapter_count, 3);

    let mut attempted: Vec<String> = Vec::new();
    let mut action = monitor.scanned(&store);
    assert_eq!(monitor.summary.new_chapters_found, 2);
    loop {
        let chapter = match action {
            Action::Download { chapter } => chapter,
            Action::Finish => break,
            other => panic!("unexpected action {:?}", other),
        };
        attempted.push(format!("{}:{:?}", chapter.title, monitor.phase));
        // chapter 2.5 has two images; the page of chapter 3 cannot be fetched
        let page = if chapter.number.thousandths == 2500 {
            Ok(chapter_page(&["b.jpg", "a.jpg"]))
        } else {
            Err(GuLoaderError::Http("503".to_string()))
        };
        let ok = download(&downloaders, &config, &mut store, &chapter, page, saves);
        action = monitor.downloaded(&store, ok);
    }
    assert_eq!(
        attempted,
        vec!["Chapter 2.5:Downloading", "Chapter 3:Downloading", "Chapter 3:Retrying"]
    );
    assert_eq!(monitor.phase, Phase::Finished);
    assert_eq!(monitor.summary.new_chapters_found, 2);
    assert_eq!(monitor.summary.chapters_downloaded, 1);
    assert_eq!(monitor.summary.failed_downloads, 1);

    let states: Vec<(String, ChapterStatus, usize)> =
        store.chapters.iter().map(|c| (c.title.clone(), c.status, c.page_count)).collect();
    assert_eq!(
        states,
        vec![
            ("Chapter 1".to_string(), ChapterStatus::Downloaded, 4),
            ("Chapter 2.5".to_string(), ChapterStatus::Downloaded, 2),
            ("Chapter 3".to_string(), ChapterStatus::Failed, 0),
        ]
    );
    let pages: Vec<(usize, String)> =
        store.pages.iter().map(|p| (p.page_number, p.image_url.clone())).collect();
    assert_eq!(
        pages,
        vec![
            (1, "https://cdn/wp-content/a.jpg".to_string()),
            (2, "https://cdn/wp-content/b.jpg".to_string()),
        ]
    );
    assert_eq!(store.scan_logs.len(), 1);
}

#[test]
fn next_cycle_retries_the_failed_chapter() {
    let scanners = ScannerRegistry::new();
    let downloaders = DownloaderRegistry::new();
    let config = config();
    let mut store = RecordStore::new();
    let title = manga("https://site/title", "madara");
    store.create_manga(title.clone());
    scanners.scan_manga(&config, &mut store, "m1", &Ok(TITLE_PAGE.to_string()), 1).unwrap();
    for i in 0..3 {
        store.chapters[i].status =
            if i == 1 { ChapterStatus::Failed } else { ChapterStatus::Downloaded };
    }
    let (mut monitor, _) = TitleMonitor::start(&scanners, &config, &store, &title);
    scanners.scan_manga(&config, &mut store, "m1", &Ok(TITLE_PAGE.to_string()), 1).unwrap();
    assert_eq!(store.scan_logs[1].chapters_new, 0);
    let action = monitor.scanned(&store);
    assert_eq!(monitor.phase, Phase::Retrying);
    let chapter = match action {
        Action::Download { chapter } => chapter,
        other => panic!("expected a download, got {:?}", other),
    };
    assert_eq!(chapter.title, "Chapter 2.5");
    // every image fails: the chapter stays failed, and nothing more is to do
    let ok = download(&downloaders, &config, &mut store, &chapter, Ok(chapter_page(&["a.jpg"])), fails);
    assert!(!ok);
    assert!(matches!(monitor.downloaded(&store, ok), Action::Finish));
    assert_eq!(store.chapters[1].status, ChapterStatus::Failed);
    assert_eq!(monitor.summary.chapters_downloaded, 0);
    assert_eq!(monitor.summary.failed_downloads, 0);
    assert_eq!(monitor.summary.new_chapters_found, 0);
}

#[test]
fn steps_out_of_turn_end_the_cycle() {
    let store = RecordStore::new();
    let (mut monitor, _) =
        TitleMonitor::start(&ScannerRegistry::new(), &config(), &store, &manga("temp", "madara"));
    assert!(matches!(monitor.scanned(&store), Action::Finish));
    assert!(matches!(monitor.downloaded(&store, true), Action::Finish));
    assert_eq!(monitor.summary.chapters_downloaded, 0);
}

#[test]
fn summaries_add_up() {
    let a = CycleSummary { new_chapters_found: 2, chapters_downloaded: 1, failed_downloads: 1 };
    let b = CycleSummary { new_chapters_found: 3, chapters_downloaded: usize::MAX, failed_downloads: 0 };
    let sum = CycleSummary::new().plus(&a).plus(&b);
    assert_eq!(sum.new_chapters_found, 5);
    assert_eq!(sum.chapters_downloaded, usize::MAX);
    assert_eq!(sum.failed_downloads, 1);
}

#[test]
fn the_cycle_keeps_to_the_chapters_of_its_title() {
    let scanners = ScannerRegistry::new();
    let config = config();
    let mut store = RecordStore::new();
    let title = manga("https://site/title", "madara");
    store.create_manga(title.clone());
    let (mut monitor, _) = TitleMonitor::start(&scanners, &config, &store, &title);
    let stranger = |id: &str, manga_id: &str, thousandths: u128| {
        Chapter::stamped(
            id.to_string(),
            1,
            manga_id.to_string(),
            "T".to_string(),
            format!("Chapter {}", id),
            guloader::number::ChapterNumber { thousandths },
            format!("https://site/ch/{}", id),
        )
    };
    store.record_discovery(&vec![
        stranger("x1", "other", 1000),
        stranger("a", "m1", 1000),
        stranger("x2", "other", 2000),
        stranger("b", "m1", 2000),
    ]);
    let action = monitor.scanned(&store);
    assert_eq!(monitor.summary.new_chapters_found, 2);
    assert_eq!(monitor.phase, Phase::Downloading);
    match action {
        Action::Download { chapter } => assert_eq!(chapter.id, "a"),
        other => panic!("expected a download, got {:?}", other),
    }
    assert_eq!(monitor.queue.iter().map(|c| c.id.clone()).collect::<Vec<_>>(), vec!["b"]);
}
