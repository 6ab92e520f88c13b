use guloader::checkers::eros::ErosCatalogChecker;
use guloader::checkers::madara::MadaraCatalogChecker;
use guloader::checkers::{entries_from_rows, make_absolute};
use guloader::config::{SelectorsConfig, SiteConfig};
use guloader::dom::CatalogRow;
use guloader::traits::{CatalogChecker, CatalogEntry};

fn site() -> SiteConfig {
    SiteConfig {
        name: "Site".to_string(),
        base_url: "https://site".to_string(),
        scanner_type: "madara".to_string(),
        downloader_type: "madara".to_string(),
        rate_limit_ms: 0,
        user_agent: None,
        headers: None,
        selectors: SelectorsConfig {
            manga_list: String::new(),
            chapter_list: String::new(),
            chapter_title: String::new(),
            chapter_url: String::new(),
            image_container: String::new(),
            image_url: String::new(),
            next_page: None,
        },
    }
}

fn row(url: Option<&str>, title: Option<&str>, cover: Option<&str>) -> CatalogRow {
    CatalogRow {
        url: url.map(|s| s.to_string()),
        title: title.map(|s| s.to_string()),
        cover: cover.map(|s| s.to_string()),
    }
}

fn seen(entries: &Vec<CatalogEntry>) -> Vec<(String, String, Option<String>)> {
    entries.iter().map(|e| (e.title.clone(), e.url.clone(), e.cover_url.clone())).collect()
}

fn entry(title: &str, url: &str, cover: Option<&str>) -> (String, String, Option<String>) {
    (title.to_string(), url.to_string(), cover.map(|s| s.to_string()))
}

#[test]
fn covers_are_made_absolute() {
    let abs = |c: &str| -> String {
        make_absolute(&c.chars().collect(), "https://site").into_iter().collect()
    };
    assert_eq!(abs("//cdn/a.jpg"), "https://cdn/a.jpg");
    assert_eq!(abs("/img/a.jpg"), "https://site/img/a.jpg");
    assert_eq!(abs("https://cdn/a.jpg"), "https://cdn/a.jpg");
    assert_eq!(abs(""), "");
}

#[test]
fn rows_need_title_and_address_but_no_cover() {
    let rows = vec![
        row(Some("https://site/a"), Some(" A "), Some("//cdn/a.jpg")),
        row(Some("https://site/b"), Some("B"), None),
        row(None, Some("C"), Some("/c.jpg")),
        row(Some("https://site/d"), Some("  "), Some("/d.jpg")),
        row(Some(""), Some("D"), Some("/d.jpg")),
        row(Some("https://site/e"), Some("E"), Some("/e.jpg")),
        row(None, None, None),
    ];
    let entries = entries_from_rows("https://site", &rows);
    assert_eq!(
        seen(&entries),
        vec![
            entry("A", "https://site/a", Some("https://cdn/a.jpg")),
            entry("B", "https://site/b", None),
            entry("E", "https://site/e", Some("https://site/e.jpg")),
        ]
    );
}

#[test]
fn eros_catalog_reads_the_blocks_of_a_page() {
    let html = r#"<html><body>
        <div class="utao styletwo"><div class="uta">
          <div class="imgu"><a class="series" href="https://site/manga/one"><img src="/covers/one.jpg"></a></div>
          <div class="luf"><a class="series" href="https://site/manga/one"><h4> One <i>new</i></h4></a></div>
        </div></div>
        <div class="utao styletwo"><div class="uta">
          <div class="imgu"><a class="series"><img></a><a class="series" href="https://site/manga/two"></a></div>
          <div class="luf"><h4>Two</h4></div>
        </div></div>
        <div class="utao styletwo"><div class="luf"><h4>No link</h4></div></div>
        <div class="utao"><div class="imgu"><a class="series" href="https://site/x"></a></div><h4>Other style</h4></div>
        </body></html>"#;
    let entries = ErosCatalogChecker::new().fetch_first_page(&site(), html).unwrap();
    assert_eq!(
        seen(&entries),
        vec![
            entry("One", "https://site/manga/one", Some("https://site/covers/one.jpg")),
            entry("Two", "https://site/manga/two", None),
        ]
    );
}

#[test]
fn madara_catalog_reads_the_items_of_each_list() {
    let html = r#"<html><body><div class="listupd">
          <div class="bs"><div class="bsx"><a href="https://site/one" title=" One "><img src="/one.jpg"></a></div></div>
        </div></body></html>"#;
    let entries = MadaraCatalogChecker::new().fetch_first_page(&site(), html).unwrap();
    // the item stands in two lists, `.listupd` and `body`, and matches both `.bs` and `.bsx`
    assert_eq!(entries.len(), 4);
    assert!(seen(&entries)
        .iter()
        .all(|e| *e == entry("One", "https://site/one", Some("https://site/one.jpg"))));
}

#[test]
fn madara_catalog_falls_back_to_the_text_of_the_page() {
    let html = r#"<html><body><script type="text/template">
        <div class="bsx"><a href="https://site/one" class="x" title="One"><img class="c" src="//cdn/one.jpg" alt=""></a></div>
        </div>
        <div class="bsx"><a href="https://site/two" title=" Two "></a></div>
        </div>
        </script></body></html>"#;
    let entries = MadaraCatalogChecker::new().fetch_first_page(&site(), html).unwrap();
    assert_eq!(
        seen(&entries),
        vec![
            entry("One", "https://site/one", Some("https://cdn/one.jpg")),
            entry("Two", "https://site/two", None),
        ]
    );
    let rows = MadaraCatalogChecker::rows_from_text(html);
    assert_eq!(rows.len(), 2);
    assert_eq!(rows[1].url.as_deref(), Some("https://site/two"));
    assert_eq!(rows[1].title.as_deref(), Some(" Two "));
    assert_eq!(rows[1].cover, None);
}

#[test]
fn madara_catalog_prefers_the_elements_of_the_page() {
    let rows = vec![row(Some("https://site/a"), Some("A"), Some("/a.jpg"))];
    let text = r#"<div class="bsx"><a href="https://site/t" title="T"><img src="/t.jpg"></a></div></div>"#;
    let entries = MadaraCatalogChecker::entries_from_page(&site(), &rows, text);
    assert_eq!(seen(&entries), vec![entry("A", "https://site/a", Some("https://site/a.jpg"))]);
    let entries = MadaraCatalogChecker::entries_from_page(&site(), &Vec::new(), text);
    assert_eq!(seen(&entries), vec![entry("T", "https://site/t", Some("https://site/t.jpg"))]);
    let entries = MadaraCatalogChecker::entries_from_page(&site(), &Vec::new(), "<p></p>");
    assert!(entries.is_empty());
}
