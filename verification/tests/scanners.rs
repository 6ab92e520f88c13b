use guloader::config::{SelectorsConfig, SiteConfig};
use guloader::dom::{ChapterLink, ChapterRow};
use guloader::error::ErrorKind;
use guloader::models::{ChapterStatus, Manga};
use guloader::scanners::eros::ErosScanner;
use guloader::scanners::madara::MadaraScanner;
use guloader::scanners::{chapter_key, extract_chapter_number};
use guloader::traits::MangaScanner;

fn site(base_url: &str) -> SiteConfig {
    SiteConfig {
        name: "Site".to_string(),
        base_url: base_url.to_string(),
        scanner_type: "eros".to_string(),
        downloader_type: "eros".to_string(),
        rate_limit_ms: 0,
        user_agent: None,
        headers: None,
        selectors: SelectorsConfig {
            manga_list: String::new(),
            chapter_list: String::new(),
            chapter_title: String::new(),
            chapter_url: String::new(),
            image_container: String::new(),
            image_url: String::new(),
            next_page: None,
        },
    }
}

fn title() -> Manga {
    Manga::stamped(
        "m1".to_string(),
        5,
        "My Title".to_string(),
        "site".to_string(),
        "https://site/title".to_string(),
        None,
    )
}

fn row(href: Option<&str>, title: Option<&str>) -> ChapterRow {
    ChapterRow {
        link: Some(ChapterLink {
            href: href.map(|s| s.to_string()),
            title: title.map(|s| s.to_string()),
        }),
    }
}

#[test]
fn chapter_numbers_are_read_from_titles() {
    assert_eq!(extract_chapter_number("Chapter 1", 6).thousandths, 1000);
    assert_eq!(extract_chapter_number("Chapter 2.5", 6).thousandths, 2500);
    assert_eq!(extract_chapter_number("Vol 2 Chapter   12 - The End", 6).thousandths, 12000);
    assert_eq!(extract_chapter_number("Chapter10.75 extra", 6).thousandths, 10750);
}

#[test]
fn chapter_numbers_fall_back_to_the_position() {
    assert_eq!(extract_chapter_number("Prologue", 0).thousandths, 1000);
    assert_eq!(extract_chapter_number("chapter 7", 3).thousandths, 4000);
    assert_eq!(extract_chapter_number("", 9).thousandths, 10000);
}

#[test]
fn chapter_key_takes_the_captured_number_or_the_position() {
    assert_eq!(chapter_key(&Some("2.5".to_string()), 4).thousandths, 2500);
    assert_eq!(chapter_key(&Some("oops".to_string()), 4).thousandths, 5000);
    assert_eq!(chapter_key(&None, 4).thousandths, 5000);
}

#[test]
fn madara_rows_without_title_or_address_are_left_out() {
    let rows = vec![
        row(Some("https://site/1"), Some("  Chapter 1 ")),
        ChapterRow { link: None },
        row(None, Some("Chapter 2")),
        row(Some("https://site/3"), None),
        row(Some("https://site/4"), Some("   ")),
        row(Some("https://site/extra"), Some("Extra")),
    ];
    let chapters = MadaraScanner::chapters_from_rows(&title(), &rows);
    assert_eq!(chapters.len(), 2);
    assert_eq!(chapters[0].title, "Chapter 1");
    assert_eq!(chapters[0].url, "https://site/1");
    assert_eq!(chapters[0].number.thousandths, 1000);
    assert_eq!(chapters[0].manga_id, "m1");
    assert_eq!(chapters[0].manga_title, "My Title");
    assert_eq!(chapters[0].status, ChapterStatus::Pending);
    assert_eq!(chapters[0].page_count, 0);
    assert_eq!(chapters[1].title, "Extra");
    assert_eq!(chapters[1].number.thousandths, 6000);
}

#[test]
fn madara_scan_lists_the_chapters_of_a_page() {
    let html = r#"<html><body><h1 class="entry-title">My Title</h1>
        <ul id="chapterlist">
          <li><a href="https://site/ch1"><span class="chapternum"> Chapter 1 </span>
              <span class="chapterdate">June 25, 2025</span></a></li>
          <li><a href="https://site/ch2-5"><span class="chapternum">Chapter 2.5</span></a></li>
          <li><span>no link here</span></li>
          <li><a href="https://site/ch3"><span class="chapternum">Chapter <b>3</b></span></a></li>
        </ul></body></html>"#;
    let chapters = MadaraScanner::new().scan_manga(&site("https://site"), &title(), html).unwrap();
    let seen: Vec<(String, u128, String)> =
        chapters.iter().map(|c| (c.title.clone(), c.number.thousandths, c.url.clone())).collect();
    assert_eq!(
        seen,
        vec![
            ("Chapter 1".to_string(), 1000, "https://site/ch1".to_string()),
            ("Chapter 2.5".to_string(), 2500, "https://site/ch2-5".to_string()),
            ("Chapter 3".to_string(), 3000, "https://site/ch3".to_string()),
        ]
    );
    assert_ne!(chapters[0].id, chapters[1].id);
    assert_eq!(chapters[0].id.len(), 36);
}

#[test]
fn madara_scan_of_a_page_without_list_is_empty() {
    let chapters =
        MadaraScanner::new().scan_manga(&site("https://site"), &title(), "<p>nothing</p>").unwrap();
    assert!(chapters.is_empty());
}

#[test]
fn eros_rows_take_relative_addresses_below_the_base() {
    let rows = vec![
        row(Some("/ch/1"), Some("Chapter 1")),
        ChapterRow { link: None },
        row(Some("http://other/ch/2"), None),
        row(Some("https://site/ch/x"), Some(" Side story ")),
    ];
    let chapters =
        ErosScanner::chapters_from_rows(&site("https://eros"), &title(), &rows).unwrap();
    assert_eq!(chapters.len(), 3);
    assert_eq!(chapters[0].url, "https://eros/ch/1");
    assert_eq!(chapters[0].number.thousandths, 1000);
    assert_eq!(chapters[1].url, "http://other/ch/2");
    assert_eq!(chapters[1].title, "Chapter 3");
    assert_eq!(chapters[1].number.thousandths, 3000);
    assert_eq!(chapters[2].title, "Side story");
    assert_eq!(chapters[2].number.thousandths, 4000);
}

#[test]
fn eros_link_without_address_fails_the_scan() {
    let rows = vec![row(Some("/ch/1"), Some("Chapter 1")), row(None, Some("Chapter 2"))];
    let error = ErosScanner::chapters_from_rows(&site("https://eros"), &title(), &rows).unwrap_err();
    assert_eq!(error.kind(), ErrorKind::Scraping);
    assert_eq!(error.message(), "Scraping error: Chapter URL not found");
}

#[test]
fn eros_scan_lists_the_chapters_of_a_page() {
    let html = r#"<div id="chapterlist"><ul>
          <li><div class="eph-num"><a href="/c/10"><span class="chapternum">Chapter 10</span></a></div></li>
          <li><div class="eph-num"><a href="https://eros/c/9-5"><span class="chapternum">Chapter 9.5</span></a></div></li>
          <li><div class="other"><a href="/ignored">x</a></div></li>
        </ul></div>"#;
    let scanner = ErosScanner::new();
    let chapters = scanner.scan_manga(&site("https://eros"), &title(), html).unwrap();
    assert_eq!(chapters.len(), 2);
    assert_eq!(chapters[0].url, "https://eros/c/10");
    assert_eq!(chapters[0].number.thousandths, 10000);
    assert_eq!(chapters[1].url, "https://eros/c/9-5");
    assert_eq!(chapters[1].number.thousandths, 9500);
    assert_eq!(scanner.extract_chapter_number("Chapter 4", 0).thousandths, 4000);
}
