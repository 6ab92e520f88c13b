//! Chapter discovery for sites built on the Madara template.

use vstd::prelude::*;
use crate::config::SiteConfig;
use crate::dom::{ChapterRow, ChapterRowView};
use crate::error::{ErrorKind, ErrorView, GuLoaderError};
use crate::models::{Chapter, Manga};
use crate::scanners::{
    chapter_rows, discover, extract_chapter_number, key_of, lists, page_rows, row_views,
    ListedChapter,
};
use crate::text::{chars_of, string_of, strip, trim, Trim};
use crate::traits::{discovered_for, MangaScanner};

verus! {

/// The scanner of the Madara site family.
pub struct MadaraScanner {}

/// What a row of the chapter list says, if it lists a chapter: the row
/// needs a link with a title and an address, both not empty. The title is
/// the trimmed text of the title element.
pub open spec fn madara_entry(row: ChapterRowView, index: nat) -> Option<ListedChapter> {
    match row.link {
        None => None,
        Some(link) => {
            let title = strip(
                match link.title {
                    Some(t) => t,
                    None => Seq::<char>::empty(),
                },
                Trim::WhiteSpace,
            );
            let url = match link.href {
                Some(h) => h,
                None => Seq::<char>::empty(),
            };
            if title.len() > 0 && url.len() > 0 {
                Some(ListedChapter { title, number: key_of(title, index), url })
            } else {
                None
            }
        },
    }
}

/// The chapters that the rows list, in the rows' order. A chapter's
/// position counts every row before it, whether it lists a chapter or not.
pub open spec fn madara_listing(rows: Seq<ChapterRowView>) -> Seq<ListedChapter>
    decreases rows.len(),
{
    if rows.len() == 0 {
        Seq::<ListedChapter>::empty()
    } else {
        let before = madara_listing(rows.drop_last());
        match madara_entry(rows.last(), (rows.len() - 1) as nat) {
            Some(entry) => before.push(entry),
            None => before,
        }
    }
}

/// The failure of a scan whose selectors could not be used.
pub open spec fn selector_failure() -> ErrorView {
    ErrorView { kind: ErrorKind::Scraping, detail: "Invalid chapter selector"@ }
}

/// What a scan of a title page gives. Where the selectors of the chapter
/// list are selectors, the scan succeeds: it gives chapters of the title,
/// one for each chapter that the rows of the page's chapter list name.
/// Where they are not, the scan fails with the failure of the selectors.
pub open spec fn madara_scan(
    html: Seq<char>,
    manga: crate::models::MangaView,
    r: Result<Vec<Chapter>, GuLoaderError>,
) -> bool {
    match page_rows(html, "#chapterlist li"@, "a"@, ".chapternum"@) {
        Some(rows) => r matches Ok(chapters) && lists(chapters@, manga, madara_listing(rows)),
        None => r matches Err(e) && e@ == selector_failure(),
    }
}

impl MadaraScanner {
    /// The scanner of the Madara site family.
    pub fn new() -> (r: Self)
        ensures
            r == (MadaraScanner {  }),
    {
        MadaraScanner {  }
    }

    /// The chapters of `manga` that the rows of its chapter list name.
    pub fn chapters_from_rows(manga: &Manga, rows: &Vec<ChapterRow>) -> (r: Vec<Chapter>)
        ensures
            lists(r@, manga@, madara_listing(row_views(rows@))),
    {
        let mut out: Vec<Chapter> = Vec::new();
        let mut i: usize = 0;
        let ghost all = row_views(rows@);
        assert(all.take(0) =~= Seq::<ChapterRowView>::empty());
        while i < rows.len()
            invariant
                i <= rows.len(),
                all == row_views(rows@),
                lists(out@, manga@, madara_listing(all.take(i as int))),
            decreases rows.len() - i,
        {
            proof {
                assert(all.take(i + 1).drop_last() =~= all.take(i as int));
                assert(all.take(i + 1).last() == rows@[i as int]@);
            }
            match &rows[i].link {
                None => {},
                Some(link) => {
                    let raw = match &link.title {
                        Some(t) => chars_of(t.as_str()),
                        None => Vec::new(),
                    };
                    let title = string_of(&trim(&raw, Trim::WhiteSpace));
                    let url = match &link.href {
                        Some(h) => h.clone(),
                        None => String::new(),
                    };
                    if !title.as_str().is_empty() && !url.as_str().is_empty() {
                        let number = extract_chapter_number(title.as_str(), i);
                        let ghost before = out@;
                        let chapter = discover(manga, title, number, url);
                        out.push(chapter);
                        proof {
                            let listed = madara_listing(all.take(i + 1));
                            assert forall|k: int| 0 <= k < out@.len() implies (#[trigger] out@[k])@.is_discovery_of(

                                manga@.id,
                                manga@.title,
                                listed[k].title,
                                listed[k].number,
                                listed[k].url,
                            ) by {
                                if k < before.len() {
                                    assert(out@[k] == before[k]);
                                }
                            }
                        }
                    }
                },
            }
            i += 1;
        }
        assert(all.take(rows.len() as int) =~= all);
        out
    }
}

impl MangaScanner for MadaraScanner {
    /// The chapters that the title page lists under `#chapterlist li`: of
    /// each item the first link, with its address and the text of its
    /// `.chapternum` element.
    fn scan_manga(&self, config: &SiteConfig, manga: &Manga, html: &str) -> (r: Result<
        Vec<Chapter>,
        GuLoaderError,
    >)
        ensures
            madara_scan(html@, manga@, r),
    {
        match chapter_rows(html, "#chapterlist li", "a", ".chapternum") {
            None => Err(GuLoaderError::scraping("Invalid chapter selector")),
            Some(rows) => {
                let chapters = MadaraScanner::chapters_from_rows(manga, &rows);
                assert(discovered_for(chapters@, manga@));
                Ok(chapters)
            },
        }
    }
}

} // verus!
