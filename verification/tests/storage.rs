use guloader::archive::{pack, ArchiveFile};
use guloader::config::StorageConfig;
use guloader::models::{Chapter, ChapterPage};
use guloader::number::ChapterNumber;
use guloader::storage::{retention_cutoff, StorageManager};
use std::io::Read;

fn manager() -> StorageManager {
    StorageManager::new(&StorageConfig {
        base_path: "./downloads".to_string(),
        scans_path: "./scans".to_string(),
        max_size_gb: 50,
        compression: true,
        thumbnail_size: 200,
    })
}

fn chapter(thousandths: u128) -> Chapter {
    Chapter::stamped(
        "c1".to_string(),
        7,
        "m1".to_string(),
        "My/Title:2".to_string(),
        "Chapter".to_string(),
        ChapterNumber { thousandths },
        "https://site/ch".to_string(),
    )
}

fn unpack(bytes: Vec<u8>) -> Vec<(String, Vec<u8>)> {
    let mut archive = zip::ZipArchive::new(std::io::Cursor::new(bytes)).unwrap();
    let mut out = Vec::new();
    for i in 0..archive.len() {
        let mut file = archive.by_index(i).unwrap();
        let mut content = Vec::new();
        file.read_to_end(&mut content).unwrap();
        out.push((file.name().to_string(), content));
    }
    out
}

#[test]
fn new_keeps_the_roots() {
    let m = manager();
    assert_eq!(m.config.base_path, "./downloads");
    assert_eq!(m.config.scans_path, "./scans");
    assert_eq!(m.config.max_size_gb, 50);
}

#[test]
fn sanitize_replaces_hostile_characters() {
    let m = manager();
    assert_eq!(m.sanitize_filename("My/Title:2"), "My_Title_2");
    assert_eq!(m.sanitize_filename("a<b>c\"d\\e|f?g*h"), "a_b_c_d_e_f_g_h");
    assert_eq!(m.sanitize_filename("tab\there\u{7f}"), "tab_here_");
    assert_eq!(m.sanitize_filename("Plain title"), "Plain title");
    assert_eq!(m.sanitize_filename("題名/第1話"), "題名_第1話");
    assert_eq!(m.sanitize_filename("a\u{85}b\u{a0}c"), "a_b\u{a0}c");
}

#[test]
fn sanitize_strips_dots_and_spaces_at_both_ends() {
    let m = manager();
    assert_eq!(m.sanitize_filename("..name.."), "name");
    assert_eq!(m.sanitize_filename("  name  "), "name");
    assert_eq!(m.sanitize_filename(" .name. "), "name");
    assert_eq!(m.sanitize_filename("a.b c"), "a.b c");
}

#[test]
fn sanitize_never_names_the_parent_directory() {
    let m = manager();
    assert_eq!(m.sanitize_filename(".."), "");
    assert_eq!(m.sanitize_filename(" .. "), "");
    assert_eq!(m.sanitize_filename("../../etc/passwd"), "_.._etc_passwd");
    assert_eq!(m.sanitize_filename("."), "");
}

#[test]
fn paths_follow_the_layout() {
    let m = manager();
    let c = chapter(2500);
    assert_eq!(m.get_manga_path("My/Title:2"), "./downloads/My_Title_2");
    assert_eq!(m.get_chapter_path("My/Title:2", &c), "./downloads/My_Title_2/2.5");
    assert_eq!(m.get_chapter_pages_path("My/Title:2", &c), "./downloads/My_Title_2/2.5/pages");
    assert_eq!(
        m.get_chapter_page_path("My/Title:2", &c, 1),
        "./downloads/My_Title_2/2.5/pages/page_001.jpg"
    );
    assert_eq!(
        m.get_chapter_page_path("My/Title:2", &c, 1234),
        "./downloads/My_Title_2/2.5/pages/page_1234.jpg"
    );
}

#[test]
fn chapters_with_different_numbers_have_different_directories() {
    let m = manager();
    assert_eq!(m.get_chapter_path("T", &chapter(2000)), "./downloads/T/2");
    assert_eq!(m.get_chapter_path("T", &chapter(2500)), "./downloads/T/2.5");
    assert_eq!(m.get_chapter_path("T", &chapter(2050)), "./downloads/T/2.05");
    assert_eq!(m.get_chapter_path("T", &chapter(2005)), "./downloads/T/2.005");
    assert_eq!(m.get_chapter_path("T", &chapter(20000)), "./downloads/T/20");
    assert_eq!(m.get_scans_chapter_path("T", &chapter(2000)), "./scans/T/2");
    assert_eq!(m.get_scans_chapter_path("T", &chapter(2500)), "./scans/T/2.5");
    assert_eq!(m.get_chapter_path("T", &chapter(500)), "./downloads/T/0.5");
}

fn saved_page(number: usize, path: &str) -> ChapterPage {
    let mut page = ChapterPage::stamped(
        format!("p{}", number),
        3,
        "c1".to_string(),
        number,
        format!("https://cdn/{}.jpg", number),
    );
    page.local_path = Some(path.to_string());
    page.downloaded_at = Some(9);
    page
}

#[test]
fn pages_are_placed_in_the_files_of_their_places() {
    let m = manager();
    let c = chapter(2500);
    let pages = vec![
        saved_page(1, "./downloads/My_Title_2/2.5/pages/page_001.jpg"),
        saved_page(2, "./downloads/My_Title_2/2.5/pages/page_003.jpg"),
    ];
    let (placed, moves) = m.place_pages(false, &c, &pages);
    assert_eq!(
        placed.iter().map(|p| p.local_path.clone().unwrap()).collect::<Vec<_>>(),
        vec![
            "./downloads/My_Title_2/2.5/pages/page_001.jpg",
            "./downloads/My_Title_2/2.5/pages/page_002.jpg",
        ]
    );
    assert_eq!(placed.iter().map(|p| p.page_number).collect::<Vec<_>>(), vec![1, 2]);
    assert_eq!(placed[1].image_url, "https://cdn/2.jpg");
    assert_eq!(placed[1].id, "p2");
    assert_eq!(
        moves.iter().map(|m| (m.from.clone(), m.to.clone())).collect::<Vec<_>>(),
        vec![
            (
                "./downloads/My_Title_2/2.5/pages/page_001.jpg".to_string(),
                "./downloads/My_Title_2/2.5/pages/page_001.jpg".to_string()
            ),
            (
                "./downloads/My_Title_2/2.5/pages/page_003.jpg".to_string(),
                "./downloads/My_Title_2/2.5/pages/page_002.jpg".to_string()
            ),
        ]
    );
    let (placed, moves) = m.place_pages(true, &c, &pages);
    assert_eq!(
        placed[1].local_path.as_deref(),
        Some("./scans/My_Title_2/2.5/pages/page_002.jpg")
    );
    assert_eq!(moves[1].to, "./scans/My_Title_2/2.5/pages/page_002.jpg");
    let (placed, moves) = m.place_pages(false, &c, &Vec::new());
    assert!(placed.is_empty() && moves.is_empty());
}

#[test]
fn scans_paths_stand_below_the_scans_root() {
    let m = manager();
    let c = chapter(12000);
    assert_eq!(m.get_scans_manga_path("T"), "./scans/T");
    assert_eq!(m.get_scans_chapter_path("T", &c), "./scans/T/12");
    assert_eq!(m.get_scans_chapter_pages_path("T", &c), "./scans/T/12/pages");
    assert_eq!(m.get_scans_chapter_page_path("T", &c, 42), "./scans/T/12/pages/page_042.jpg");
}

#[test]
fn pack_holds_the_files_in_order() {
    let files = vec![
        ArchiveFile { name: "page_002.jpg".to_string(), content: vec![2; 3000] },
        ArchiveFile { name: "page_001.jpg".to_string(), content: vec![1, 2, 3] },
        ArchiveFile { name: "empty".to_string(), content: Vec::new() },
    ];
    let bytes = pack(&files).unwrap();
    assert_eq!(
        unpack(bytes),
        vec![
            ("page_002.jpg".to_string(), vec![2; 3000]),
            ("page_001.jpg".to_string(), vec![1, 2, 3]),
            ("empty".to_string(), Vec::new()),
        ]
    );
}

#[test]
fn pack_of_the_same_files_gives_the_same_bytes() {
    let files = vec![ArchiveFile { name: "a".to_string(), content: vec![7; 100] }];
    assert_eq!(pack(&files).unwrap(), pack(&files).unwrap());
    assert!(unpack(pack(&Vec::new()).unwrap()).is_empty());
}

#[test]
fn chapter_archives_are_named_by_the_chapter_number() {
    let m = manager();
    let files = vec![ArchiveFile { name: "page_001.jpg".to_string(), content: vec![9, 9] }];
    let archive = m.create_chapter_zip("My/Title:2", &chapter(2500), &files).unwrap();
    assert_eq!(archive.path, "./downloads/My_Title_2/2.5/Chapter_2.5.zip");
    assert_eq!(unpack(archive.bytes), vec![("page_001.jpg".to_string(), vec![9, 9])]);
    let archive = m.create_scans_chapter_zip("T", &chapter(3000), &files).unwrap();
    assert_eq!(archive.path, "./scans/T/3/Chapter_3.zip");
    assert_eq!(unpack(archive.bytes), vec![("page_001.jpg".to_string(), vec![9, 9])]);
}

#[test]
fn retention_cutoff_goes_back_whole_days() {
    assert_eq!(retention_cutoff(1_000_000_000_000, 30), 1_000_000_000_000 - 30 * 86_400_000);
    assert_eq!(retention_cutoff(5, 0), 5);
    assert_eq!(retention_cutoff(i64::MIN + 10, 1), i64::MIN);
}
