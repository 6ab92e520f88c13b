use guloader::config::{SelectorsConfig, SiteConfig};
use guloader::dom::ImageCandidate;
use guloader::downloaders::eros::{find_closing, image_address, locate_images, ErosDownloader, PayloadFailure};
use guloader::downloaders::madara::MadaraDownloader;
use guloader::downloaders::{pages_of, settle_pages, PageFetch};
use guloader::error::ErrorKind;
use guloader::models::{Chapter, ChapterPage};
use guloader::number::ChapterNumber;
use guloader::traits::ChapterDownloader;

fn chars(s: &str) -> Vec<char> {
    s.chars().collect()
}

fn text(v: Vec<char>) -> String {
    v.into_iter().collect()
}

fn site() -> SiteConfig {
    SiteConfig {
        name: "Site".to_string(),
        base_url: "https://site".to_string(),
        scanner_type: "eros".to_string(),
        downloader_type: "eros".to_string(),
        rate_limit_ms: 0,
        user_agent: None,
        headers: None,
        selectors: SelectorsConfig {
            manga_list: String::new(),
            chapter_list: String::new(),
            chapter_title: String::new(),
            chapter_url: String::new(),
            image_container: String::new(),
            image_url: String::new(),
            next_page: None,
        },
    }
}

fn chapter() -> Chapter {
    Chapter::stamped(
        "c1".to_string(),
        7,
        "m1".to_string(),
        "My Title".to_string(),
        "Chapter 1".to_string(),
        ChapterNumber { thousandths: 1000 },
        "https://site/ch1".to_string(),
    )
}

fn urls(pages: &Vec<ChapterPage>) -> Vec<String> {
    pages.iter().map(|p| p.image_url.clone()).collect()
}

fn numbers(pages: &Vec<ChapterPage>) -> Vec<usize> {
    pages.iter().map(|p| p.page_number).collect()
}

#[test]
fn find_closing_balances_brackets() {
    assert_eq!(find_closing(&chars("[a]")), Some(3));
    assert_eq!(find_closing(&chars("x[[a],[b]]y]")), Some(10));
    assert_eq!(find_closing(&chars("[[a]")), None);
    assert_eq!(find_closing(&chars("abc")), None);
    assert_eq!(find_closing(&chars("][]")), None);
    assert_eq!(find_closing(&chars("][][]")), None);
    assert_eq!(find_closing(&chars("]a[[]")), Some(5));
}

#[test]
fn locate_images_isolates_the_list() {
    let html = r#"<script>ts_reader.run({"post_id":1,"sources":[{"source":"A","images":["a.jpg",["x"],"b.jpg"]}]});</script>"#;
    assert_eq!(text(locate_images(&chars(html)).unwrap()), r#""images":["a.jpg",["x"],"b.jpg"]"#);
}

#[test]
fn locate_images_names_what_is_missing() {
    assert_eq!(locate_images(&chars("<p>no reader</p>")), Err(PayloadFailure::NoReaderCall));
    assert_eq!(locate_images(&chars("ts_reader.run({...}")), Err(PayloadFailure::NoCallEnd));
    assert_eq!(locate_images(&chars("ts_reader.run({\"a\":1});")), Err(PayloadFailure::NoImages));
    assert_eq!(
        locate_images(&chars("ts_reader.run({\"images\":[\"a.jpg\",[\"b\"});")),
        Err(PayloadFailure::Unbalanced)
    );
    // the list must lie before the end of the call
    assert_eq!(
        locate_images(&chars("ts_reader.run(1); x = {\"images\":[]};")),
        Err(PayloadFailure::NoImages)
    );
}

#[test]
fn image_addresses_need_https_and_a_format() {
    assert!(image_address(&chars("https://cdn/a.webp")));
    assert!(image_address(&chars("https://cdn/a.jpeg?x=1")));
    assert!(!image_address(&chars("http://cdn/a.jpg")));
    assert!(!image_address(&chars("https://cdn/a.gif")));
}

#[test]
fn eros_fallback_reads_escaped_addresses() {
    let html = r#"<html><script>ts_reader.run({"sources":[{"images":["https:\/\/cdn.x\/1.jpg", "https:\/\/cdn.x\/2.png","not an image","http:\/\/cdn.x\/3.jpg"]}]});</script></html>"#;
    let pages = ErosDownloader::new().get_chapter_images(&site(), html, &chapter()).unwrap();
    assert_eq!(urls(&pages), vec!["https://cdn.x/1.jpg", "https://cdn.x/2.png"]);
    assert_eq!(numbers(&pages), vec![1, 2]);
    assert!(pages.iter().all(|p| p.chapter_id == "c1" && p.local_path.is_none()));
}

#[test]
fn eros_pattern_matches_come_before_the_fallback() {
    let html = "ts_reader.run({\"images\":[\"https:\\\\\\/cdn/1.jpg\",\"https://cdn/2.jpg\"]});";
    let pages = ErosDownloader::new().get_chapter_images(&site(), html, &chapter()).unwrap();
    assert_eq!(urls(&pages), vec!["https:/cdn/1.jpg"]);
}

#[test]
fn eros_pages_from_matches_decides_on_what_was_found() {
    let downloader = ErosDownloader::new();
    let array = chars(r#""images":["https:\/\/cdn\/9.jpg"]"#);
    let found = Some(vec!["https:\\/x/1.png".to_string(), "https:\\/x/2.png".to_string()]);
    let pages = downloader.pages_from_matches(&array, &found, &chapter()).unwrap();
    assert_eq!(urls(&pages), vec!["https:/x/1.png", "https:/x/2.png"]);
    let pages = downloader.pages_from_matches(&array, &Some(Vec::new()), &chapter()).unwrap();
    assert_eq!(urls(&pages), vec!["https://cdn/9.jpg"]);
    let pages = downloader.pages_from_matches(&array, &None, &chapter()).unwrap();
    assert_eq!(urls(&pages), vec!["https://cdn/9.jpg"]);
    assert_eq!(ErosDownloader::fallback_urls(&array), vec!["https://cdn/9.jpg"]);
}

#[test]
fn eros_list_without_addresses_is_a_failure() {
    let html = r#"ts_reader.run({"images":["a.txt", "b"]});"#;
    let error = ErosDownloader::new().get_chapter_images(&site(), html, &chapter()).unwrap_err();
    assert_eq!(error.kind(), ErrorKind::Scraping);
    assert_eq!(error.message(), "Scraping error: no pages found for the chapter");
    let error = ErosDownloader::new().get_chapter_images(&site(), "<p></p>", &chapter()).unwrap_err();
    assert_eq!(error.message(), "Scraping error: ts_reader.run not found in the page");
    let error = ErosDownloader::new()
        .parse_images_fallback(&chars("\"images\":[]"), &chapter())
        .unwrap_err();
    assert_eq!(error.kind(), ErrorKind::Scraping);
}

#[test]
fn madara_addresses_are_filtered() {
    let d = MadaraDownloader::new();
    assert!(d.is_valid_image_url("https://site/wp-content/1.jpg"));
    assert!(d.is_valid_image_url("http://site/a.webp"));
    assert!(!d.is_valid_image_url("//site/a.jpg"));
    assert!(!d.is_valid_image_url("https://site/a.gif"));
    assert!(!d.is_valid_image_url("https://site/avatar/a.jpg"));
    assert!(!d.is_valid_image_url("https://site/logo.png"));
    assert!(!d.is_valid_image_url("https://site/favicon.png"));
}

#[test]
fn madara_candidates_are_sorted_and_deduplicated() {
    let candidate = |lazy: Option<&str>, src: Option<&str>| ImageCandidate {
        data_src: lazy.map(|s| s.to_string()),
        src: src.map(|s| s.to_string()),
    };
    let candidates = vec![
        candidate(None, Some("https://cdn/3.jpg")),
        candidate(Some("https://cdn/1.jpg"), Some("https://cdn/placeholder.gif")),
        candidate(Some(""), Some("https://cdn/2.jpg")),
        candidate(None, Some("https://cdn/3.jpg")),
        candidate(None, None),
        candidate(None, Some("https://cdn/logo.png")),
    ];
    let pages = MadaraDownloader::new().pages_from_candidates(&candidates, &chapter()).unwrap();
    assert_eq!(urls(&pages), vec!["https://cdn/1.jpg", "https://cdn/2.jpg", "https://cdn/3.jpg"]);
    assert_eq!(numbers(&pages), vec![1, 2, 3]);
}

#[test]
fn madara_extraction_reads_the_images_of_a_page() {
    let html = r#"<html><body><div class="reading-content">
          <img src="https://cdn/wp-content/b.jpg">
          <img data-src="https://cdn/wp-content/a.jpg" src="data:image/gif;base64,AAA">
          <img src="https://cdn/wp-content/avatar.jpg">
        </div><img src="https://cdn/elsewhere.png"></body></html>"#;
    let downloader = MadaraDownloader::new();
    let pages = downloader.get_chapter_images(&site(), html, &chapter()).unwrap();
    assert_eq!(urls(&pages), vec!["https://cdn/wp-content/a.jpg", "https://cdn/wp-content/b.jpg"]);
    assert_eq!(numbers(&pages), vec![1, 2]);
    assert_eq!(urls(&downloader.parse_images(html, &chapter()).unwrap()), urls(&pages));
}

#[test]
fn page_without_images_is_a_failure_not_an_empty_success() {
    let error = MadaraDownloader::new()
        .get_chapter_images(&site(), "<html><body><p>soon</p></body></html>", &chapter())
        .unwrap_err();
    assert_eq!(error.kind(), ErrorKind::Scraping);
    assert_eq!(error.message(), "Scraping error: No valid image URLs found");
    let error = MadaraDownloader::new().pages_from_candidates(&Vec::new(), &chapter()).unwrap_err();
    assert_eq!(error.kind(), ErrorKind::Scraping);
}

fn saved(path: &str) -> PageFetch {
    PageFetch::Saved { local_path: path.to_string(), file_size_bytes: Some(10), downloaded_at: 99 }
}

#[test]
fn pages_are_numbered_from_one() {
    let pages = pages_of(&"c9".to_string(), vec!["u1".to_string(), "u2".to_string()]);
    assert_eq!(numbers(&pages), vec![1, 2]);
    assert_eq!(urls(&pages), vec!["u1", "u2"]);
    assert!(pages.iter().all(|p| p.chapter_id == "c9" && p.downloaded_at.is_none()));
}

#[test]
fn failed_pages_are_dropped() {
    let pages = pages_of(&"c1".to_string(), vec!["u1".to_string(), "u2".to_string(), "u3".to_string()]);
    let fetches = vec![saved("p1"), PageFetch::Failed, saved("p3")];
    let kept = settle_pages(&pages, &fetches).unwrap();
    assert_eq!(numbers(&kept), vec![1, 2]);
    assert_eq!(urls(&kept), vec!["u1", "u3"]);
    assert_eq!(kept[0].local_path.as_deref(), Some("p1"));
    assert_eq!(kept[1].local_path.as_deref(), Some("p3"));
    assert_eq!(kept[1].file_size_bytes, Some(10));
    assert_eq!(kept[1].downloaded_at, Some(99));
    assert_eq!(kept[1].id, pages[2].id);
}

#[test]
fn pages_without_outcome_count_as_failed() {
    let pages = pages_of(&"c1".to_string(), vec!["u1".to_string(), "u2".to_string()]);
    let kept = settle_pages(&pages, &vec![saved("p1")]).unwrap();
    assert_eq!(numbers(&kept), vec![1]);
}

#[test]
fn chapter_without_saved_page_fails() {
    let pages = pages_of(&"c1".to_string(), vec!["u1".to_string(), "u2".to_string()]);
    let error = settle_pages(&pages, &vec![PageFetch::Failed, PageFetch::Failed]).unwrap_err();
    assert_eq!(error.kind(), ErrorKind::Http);
    let error = settle_pages(&pages, &Vec::new()).unwrap_err();
    assert_eq!(error.kind(), ErrorKind::Http);
    let downloader = ErosDownloader::new();
    assert!(downloader.download_chapter(&site(), &chapter(), &pages, &vec![saved("a"), saved("b")]).is_ok());
    assert!(MadaraDownloader::new()
        .download_chapter(&site(), &chapter(), &pages, &vec![PageFetch::Failed])
        .is_err());
}

#[test]
fn positions_count_characters_not_bytes() {
    let html = "<p>日本語のページ</p>ts_reader.run({\"images\":[\"https:\\/\\/cdn\\/é\\/1.jpg\",\"https:\\/\\/cdn\\/2.jpg\"]});";
    let pages = ErosDownloader::new().get_chapter_images(&site(), html, &chapter()).unwrap();
    assert_eq!(urls(&pages), vec!["https://cdn/é/1.jpg", "https://cdn/2.jpg"]);
}

#[test]
fn kept_pages_are_numbered_without_a_gap() {
    let addresses: Vec<String> = (1..=6).map(|n| format!("u{}", n)).collect();
    let pages = pages_of(&"c1".to_string(), addresses);
    let fetches = vec![
        PageFetch::Failed,
        saved("p2"),
        PageFetch::Failed,
        PageFetch::Failed,
        saved("p5"),
        saved("p6"),
    ];
    let kept = settle_pages(&pages, &fetches).unwrap();
    assert_eq!(numbers(&kept), vec![1, 2, 3]);
    assert_eq!(urls(&kept), vec!["u2", "u5", "u6"]);
    assert_eq!(
        kept.iter().map(|p| p.local_path.clone().unwrap()).collect::<Vec<_>>(),
        vec!["p2", "p5", "p6"]
    );
    let kept = MadaraDownloader::new().download_chapter(&site(), &chapter(), &pages, &fetches).unwrap();
    assert_eq!(numbers(&kept), vec![1, 2, 3]);
}
