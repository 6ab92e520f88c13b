use guloader::models::{Chapter, ChapterPage, ChapterStatus, Manga, MangaStatus, ScanLog};
use guloader::namemap::NameMap;
use guloader::number::ChapterNumber;
use guloader::store::{latest_title, RecordStore};

fn chapter(id: &str, manga_id: &str, thousandths: u128) -> Chapter {
    Chapter::stamped(
        id.to_string(),
        1,
        manga_id.to_string(),
        "Title".to_string(),
        format!("Chapter {}", id),
        ChapterNumber { thousandths },
        format!("https://site/{}", id),
    )
}

fn manga(id: &str, url: &str) -> Manga {
    Manga::stamped(id.to_string(), 1, "Title".to_string(), "site".to_string(), url.to_string(), None)
}

fn ids(chapters: &Vec<Chapter>) -> Vec<String> {
    chapters.iter().map(|c| c.id.clone()).collect()
}

#[test]
fn name_map_replaces_and_keeps_order() {
    let mut map: NameMap<u32> = NameMap::new();
    assert_eq!(map.len(), 0);
    map.insert("a", 1);
    map.insert("b", 2);
    map.insert("a", 3);
    assert_eq!(map.len(), 2);
    assert_eq!(map.get("a"), Some(&3));
    assert_eq!(map.get("b"), Some(&2));
    assert_eq!(map.get("c"), None);
    assert!(map.contains("b") && !map.contains("B"));
    assert_eq!(map.index_of("b"), Some(1));
    assert_eq!(map.entries[0].0, "a");
}

#[test]
fn titles_are_found_by_identifier_and_address() {
    let mut store = RecordStore::new();
    store.create_manga(manga("m1", "https://site/1"));
    store.create_manga(manga("m2", "https://site/2"));
    assert_eq!(store.get_manga_by_id("m2").unwrap().url, "https://site/2");
    assert_eq!(store.get_manga_by_url("https://site/1").unwrap().id, "m1");
    assert!(store.get_manga_by_id("m3").is_none());
    assert!(store.get_manga_by_url("https://site/3").is_none());
    assert_eq!(store.manga_index("m2"), Some(1));
    assert_eq!(store.get_all_manga().len(), 2);
}

#[test]
fn update_manga_replaces_the_record() {
    let mut store = RecordStore::new();
    store.create_manga(manga("m1", "https://site/1"));
    let mut changed = manga("m1", "https://site/1");
    changed.chapter_count = 9;
    changed.status = MangaStatus::Paused;
    store.update_manga(&changed);
    assert_eq!(store.manga[0].chapter_count, 9);
    assert_eq!(store.get_active_manga().len(), 0);
    store.update_manga(&manga("unknown", "x"));
    assert_eq!(store.manga.len(), 1);
}

#[test]
fn chapters_within_the_tolerance_are_the_same_chapter() {
    let mut store = RecordStore::new();
    let first = store.create_or_get_chapter(&chapter("a", "m1", 1000));
    assert_eq!(first.id, "a");
    let again = store.create_or_get_chapter(&chapter("b", "m1", 1009));
    assert_eq!(again.id, "a");
    assert_eq!(store.chapters.len(), 1);
    let other_title = store.create_or_get_chapter(&chapter("c", "m2", 1000));
    assert_eq!(other_title.id, "c");
    let apart = store.create_or_get_chapter(&chapter("d", "m1", 1010));
    assert_eq!(apart.id, "d");
    assert_eq!(ids(&store.chapters), vec!["a", "c", "d"]);
    assert_eq!(
        store.get_chapter_by_manga_and_number("m1", ChapterNumber { thousandths: 1005 }).unwrap().id,
        "a"
    );
    assert!(store.get_chapter_by_manga_and_number("m1", ChapterNumber { thousandths: 2000 }).is_none());
    assert_eq!(store.close_index("m1", ChapterNumber { thousandths: 1015 }), Some(2));
}

#[test]
fn record_discovery_adds_only_unknown_chapters() {
    let mut store = RecordStore::new();
    store.create_or_get_chapter(&chapter("old", "m1", 1000));
    let discovered = vec![
        chapter("n1", "m1", 1000),
        chapter("n2", "m1", 2500),
        chapter("n3", "m1", 2505),
        chapter("n4", "m1", 3000),
    ];
    assert_eq!(store.record_discovery(&discovered), 2);
    assert_eq!(ids(&store.chapters), vec!["old", "n2", "n4"]);
}

#[test]
fn record_discovery_is_idempotent() {
    let mut store = RecordStore::new();
    let first = vec![chapter("a", "m1", 1000), chapter("b", "m1", 2500)];
    assert_eq!(store.record_discovery(&first), 2);
    let again = vec![chapter("x", "m1", 1000), chapter("y", "m1", 2500)];
    assert_eq!(store.record_discovery(&again), 0);
    assert_eq!(store.record_discovery(&first), 0);
    assert_eq!(ids(&store.chapters), vec!["a", "b"]);
}

#[test]
fn chapters_are_listed_by_title_and_state() {
    let mut store = RecordStore::new();
    store.record_discovery(&vec![
        chapter("a", "m1", 1000),
        chapter("b", "m2", 1000),
        chapter("c", "m1", 2000),
    ]);
    let mut failed = chapter("c", "m1", 2000);
    failed.status = ChapterStatus::Failed;
    store.update_chapter(&failed);
    assert_eq!(ids(&store.get_chapters_by_manga_id("m1")), vec!["c", "a"]);
    assert_eq!(store.count_chapters("m1"), 2);
    assert_eq!(store.count_chapters("m3"), 0);
    assert_eq!(ids(&store.get_chapters_by_status("m1", ChapterStatus::Failed)), vec!["c"]);
    assert_eq!(ids(&store.get_chapters_by_status("m1", ChapterStatus::Pending)), vec!["a"]);
    assert_eq!(store.get_chapter_by_url("https://site/b").unwrap().id, "b");
    assert!(store.get_chapter_by_url("https://site/z").is_none());
    assert_eq!(store.chapter_index("c"), Some(2));
}

#[test]
fn update_chapter_keeps_title_and_key() {
    let mut store = RecordStore::new();
    store.record_discovery(&vec![chapter("a", "m1", 1000)]);
    let mut update = chapter("a", "other", 9000);
    update.status = ChapterStatus::Downloaded;
    update.page_count = 12;
    update.downloaded_at = Some(50);
    update.updated_at = 50;
    store.update_chapter(&update);
    let stored = &store.chapters[0];
    assert_eq!(stored.manga_id, "m1");
    assert_eq!(stored.number.thousandths, 1000);
    assert_eq!(stored.status, ChapterStatus::Downloaded);
    assert_eq!(stored.page_count, 12);
    assert_eq!(stored.downloaded_at, Some(50));
    assert_eq!(stored.updated_at, 50);
    assert_eq!(stored.created_at, 1);
    store.update_chapter(&chapter("zz", "m1", 1000));
    assert_eq!(store.chapters.len(), 1);
}

#[test]
fn old_chapters_are_those_downloaded_before_the_cutoff() {
    let mut store = RecordStore::new();
    store.record_discovery(&vec![
        chapter("a", "m1", 1000),
        chapter("b", "m1", 2000),
        chapter("c", "m1", 3000),
    ]);
    for (id, at) in [("a", 10), ("b", 20)] {
        let mut update = chapter(id, "m1", 0);
        update.status = ChapterStatus::Downloaded;
        update.downloaded_at = Some(at);
        store.update_chapter(&update);
    }
    assert_eq!(ids(&store.get_old_chapters(20)), vec!["a"]);
    assert_eq!(ids(&store.get_old_chapters(21)), vec!["a", "b"]);
    store.mark_chapter_deleted("a");
    assert_eq!(store.chapters[0].status, ChapterStatus::Deleted);
    assert_eq!(store.chapters[0].downloaded_at, Some(10));
    assert_eq!(ids(&store.get_old_chapters(21)), vec!["b"]);
    store.mark_chapter_deleted("nobody");
    assert_eq!(store.chapters[1].status, ChapterStatus::Downloaded);
}

#[test]
fn pages_are_kept_by_chapter() {
    let mut store = RecordStore::new();
    for (chapter_id, n) in [("a", 1), ("b", 1), ("a", 2)] {
        store.create_chapter_page(ChapterPage::stamped(
            format!("{}{}", chapter_id, n),
            3,
            chapter_id.to_string(),
            n,
            format!("https://cdn/{}/{}.jpg", chapter_id, n),
        ));
    }
    let pages = store.get_chapter_pages("a");
    assert_eq!(pages.iter().map(|p| p.page_number).collect::<Vec<_>>(), vec![1, 2]);
    store.delete_chapter_pages("a");
    assert_eq!(store.pages.len(), 1);
    assert_eq!(store.pages[0].chapter_id, "b");
    assert!(store.get_chapter_pages("a").is_empty());
}

#[test]
fn scan_records_are_appended() {
    let mut store = RecordStore::new();
    store.create_scan_log(ScanLog::stamped("l1".to_string(), 1, "m1".to_string(), "s".to_string()));
    store.create_scan_log(ScanLog::stamped("l2".to_string(), 2, "m1".to_string(), "s".to_string()));
    assert_eq!(store.scan_logs.iter().map(|l| l.id.clone()).collect::<Vec<_>>(), vec!["l1", "l2"]);
}

#[test]
fn chapter_counts_are_refreshed_for_every_title() {
    let mut store = RecordStore::new();
    store.create_manga(manga("m1", "https://site/1"));
    store.create_manga(manga("m2", "https://site/2"));
    store.record_discovery(&vec![
        chapter("a", "m1", 1000),
        chapter("b", "m1", 2000),
        chapter("c", "m3", 1000),
    ]);
    store.refresh_chapter_counts(77);
    assert_eq!((store.manga[0].chapter_count, store.manga[0].last_updated), (2, 77));
    assert_eq!((store.manga[1].chapter_count, store.manga[1].updated_at), (0, 77));
    assert_eq!(store.manga[1].created_at, 1);
}

fn page(id: &str, chapter_id: &str, number: usize) -> ChapterPage {
    ChapterPage::stamped(
        id.to_string(),
        3,
        chapter_id.to_string(),
        number,
        format!("https://cdn/{}/{}.jpg", chapter_id, id),
    )
}

fn slots(store: &RecordStore) -> Vec<(String, usize, String)> {
    store.pages.iter().map(|p| (p.chapter_id.clone(), p.page_number, p.id.clone())).collect()
}

fn slot(chapter_id: &str, number: usize, id: &str) -> (String, usize, String) {
    (chapter_id.to_string(), number, id.to_string())
}

#[test]
fn chapters_of_a_title_are_listed_by_number_greatest_first() {
    let mut store = RecordStore::new();
    store.record_discovery(&vec![
        chapter("two", "m1", 2000),
        chapter("ten", "m1", 10000),
        chapter("other", "m2", 99000),
        chapter("half", "m1", 2500),
        chapter("one", "m1", 1000),
    ]);
    assert_eq!(ids(&store.get_chapters_by_manga_id("m1")), vec!["ten", "half", "two", "one"]);
    assert_eq!(ids(&store.get_chapters_by_manga_id("m2")), vec!["other"]);
    assert!(store.get_chapters_by_manga_id("m3").is_empty());
    assert_eq!(ids(&store.chapters), vec!["two", "ten", "other", "half", "one"]);
}

#[test]
fn latest_title_is_that_of_the_greatest_number() {
    let chapters = vec![
        chapter("two", "m1", 2000),
        chapter("ten", "m1", 10000),
        chapter("half", "m1", 2500),
    ];
    assert_eq!(latest_title(&chapters), "Chapter ten");
    assert_eq!(latest_title(&vec![chapter("a", "m1", 5), chapter("b", "m1", 5)]), "Chapter b");
    assert_eq!(latest_title(&Vec::new()), "No chapters");
    let mut store = RecordStore::new();
    store.record_discovery(&chapters);
    let listed = store.get_chapters_by_manga_id("m1");
    assert_eq!(latest_title(&listed), listed[0].title);
}

#[test]
fn a_page_takes_the_place_of_the_page_with_its_number() {
    let mut store = RecordStore::new();
    store.create_chapter_page(page("a1", "a", 1));
    store.create_chapter_page(page("b1", "b", 1));
    store.create_chapter_page(page("a2", "a", 2));
    store.create_chapter_page(page("a1x", "a", 1));
    assert_eq!(
        slots(&store),
        vec![slot("a", 1, "a1x"), slot("b", 1, "b1"), slot("a", 2, "a2")]
    );
    store.create_chapter_page(page("b2", "b", 2));
    assert_eq!(store.pages.len(), 4);
    assert_eq!(store.page_index("a", 2), Some(2));
    assert_eq!(store.page_index("a", 3), None);
    assert_eq!(store.page_index("c", 1), None);
}

#[test]
fn replacing_the_pages_of_a_chapter_numbers_them_from_one() {
    let mut store = RecordStore::new();
    store.create_chapter_page(page("a1", "a", 1));
    store.create_chapter_page(page("b1", "b", 1));
    store.create_chapter_page(page("a2", "a", 2));
    store.create_chapter_page(page("a3", "a", 3));
    store.replace_chapter_pages("a", &vec![page("x", "zz", 7), page("y", "a", 9)]);
    assert_eq!(slots(&store), vec![slot("b", 1, "b1"), slot("a", 1, "x"), slot("a", 2, "y")]);
    assert_eq!(store.pages[1].image_url, "https://cdn/zz/x.jpg");
    store.replace_chapter_pages("a", &Vec::new());
    assert_eq!(slots(&store), vec![slot("b", 1, "b1")]);
    store.replace_chapter_pages("c", &vec![page("c1", "c", 1)]);
    assert_eq!(slots(&store), vec![slot("b", 1, "b1"), slot("c", 1, "c1")]);
}
