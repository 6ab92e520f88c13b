//! Chapter discovery for the Eros site family.

use vstd::prelude::*;
use crate::config::SiteConfig;
use crate::dom::{ChapterRow, ChapterRowView};
use crate::error::{ErrorKind, ErrorView, GuLoaderError};
use crate::models::{Chapter, Manga};
use crate::number::{decimal, decimal_text};
use crate::scanners::madara::selector_failure;
use crate::scanners::{
    chapter_rows, discover, extract_chapter_number, key_of, lists, page_rows, row_views,
    ListedChapter,
};
use crate::text::{begins_with, chars_of, chain, starts_with, string_of, strip, trim, Trim};
use crate::traits::{discovered_for, MangaScanner};

verus! {

/// The scanner of the Eros site family.
pub struct ErosScanner {}

/// What a row of the chapter list says: nothing where the row has no link;
/// a failure where its link has no address; else a chapter. An address that
/// does not begin with `http` is taken below the site's base address. A
/// link without a title element is titled by its position.
pub open spec fn eros_entry(row: ChapterRowView, index: nat, base_url: Seq<char>) -> Option<
    Result<ListedChapter, ()>,
> {
    match row.link {
        None => None,
        Some(link) => match link.href {
            None => Some(Err(())),
            Some(href) => {
                let url = if starts_with(href, "http"@) {
                    href
                } else {
                    base_url + href
                };
                let title = match link.title {
                    Some(t) => strip(t, Trim::WhiteSpace),
                    None => "Chapter "@ + decimal(index + 1),
                };
                Some(Ok(ListedChapter { title, number: key_of(title, index), url }))
            },
        },
    }
}

/// The chapters that the rows list, in the rows' order, or a failure where
/// some link has no address.
pub open spec fn eros_listing(rows: Seq<ChapterRowView>, base_url: Seq<char>) -> Result<
    Seq<ListedChapter>,
    (),
>
    decreases rows.len(),
{
    if rows.len() == 0 {
        Ok(Seq::<ListedChapter>::empty())
    } else {
        match eros_listing(rows.drop_last(), base_url) {
            Err(e) => Err(e),
            Ok(before) => match eros_entry(rows.last(), (rows.len() - 1) as nat, base_url) {
                None => Ok(before),
                Some(Err(e)) => Err(e),
                Some(Ok(entry)) => Ok(before.push(entry)),
            },
        }
    }
}

/// The chapters are newly discovered chapters of `manga`, one for each
/// chapter that the rows list.
pub open spec fn eros_lists(
    chapters: Seq<Chapter>,
    manga: crate::models::MangaView,
    rows: Seq<ChapterRowView>,
    base_url: Seq<char>,
) -> bool {
    eros_listing(rows, base_url) matches Ok(listed) && lists(chapters, manga, listed)
}

/// A failure in a prefix of the rows is a failure of all the rows.
pub proof fn lemma_eros_listing_fails(rows: Seq<ChapterRowView>, base_url: Seq<char>, i: int)
    requires
        0 <= i <= rows.len(),
        eros_listing(rows.take(i), base_url) is Err,
    ensures
        eros_listing(rows, base_url) is Err,
    decreases rows.len() - i,
{
    if i == rows.len() {
        assert(rows.take(i) =~= rows);
    } else {
        assert(rows.drop_last().take(i) =~= rows.take(i));
        lemma_eros_listing_fails(rows.drop_last(), base_url, i);
    }
}

/// The failure of a scan that met a link without an address.
pub open spec fn missing_address() -> ErrorView {
    ErrorView { kind: ErrorKind::Scraping, detail: "Chapter URL not found"@ }
}

/// What a scan gives for the rows of a chapter list: chapters of the title,
/// one for each chapter that the rows name; or, where a link of the rows has
/// no address, the failure of the missing address.
pub open spec fn eros_reads(
    base_url: Seq<char>,
    manga: crate::models::MangaView,
    rows: Seq<ChapterRowView>,
    r: Result<Vec<Chapter>, GuLoaderError>,
) -> bool {
    match r {
        Ok(chapters) => eros_lists(chapters@, manga, rows, base_url),
        Err(e) => eros_listing(rows, base_url) is Err && e@ == missing_address(),
    }
}

/// What a scan of a title page gives. Where the selectors of the chapter
/// list are selectors, it gives what a scan gives for the rows of the
/// page's chapter list. Where they are not, the scan fails with the failure
/// of the selectors.
pub open spec fn eros_scan(
    html: Seq<char>,
    base_url: Seq<char>,
    manga: crate::models::MangaView,
    r: Result<Vec<Chapter>, GuLoaderError>,
) -> bool {
    match page_rows(html, "#chapterlist li"@, ".eph-num a"@, ".chapternum"@) {
        Some(rows) => eros_reads(base_url, manga, rows, r),
        None => r matches Err(e) && e@ == selector_failure(),
    }
}

impl ErosScanner {
    /// The scanner of the Eros site family.
    pub fn new() -> (r: Self)
        ensures
            r == (ErosScanner {  }),
    {
        ErosScanner {  }
    }

    /// The ordering key of the chapter titled `title` at position `index`
    /// of the list.
    pub fn extract_chapter_number(&self, title: &str, index: usize) -> (r:
        crate::number::ChapterNumber)
        ensures
            r == key_of(title@, index as nat),
    {
        extract_chapter_number(title, index)
    }

    /// The chapters of `manga` that the rows of its chapter list name.
    pub fn chapters_from_rows(config: &SiteConfig, manga: &Manga, rows: &Vec<ChapterRow>) -> (r:
        Result<Vec<Chapter>, GuLoaderError>)
        ensures
            match r {
                Ok(chapters) => eros_listing(row_views(rows@), config.base_url@) matches Ok(
                    listed,
                ) && lists(chapters@, manga@, listed),
                Err(e) => eros_listing(row_views(rows@), config.base_url@) is Err && e@
                    == missing_address(),
            },
    {
        let mut out: Vec<Chapter> = Vec::new();
        let base = chars_of(config.base_url.as_str());
        let http = chars_of("http");
        let mut i: usize = 0;
        let ghost all = row_views(rows@);
        assert(all.take(0) =~= Seq::<ChapterRowView>::empty());
        while i < rows.len()
            invariant
                i <= rows.len(),
                base@ == config.base_url@,
                http@ == "http"@,
                all == row_views(rows@),
                eros_listing(all.take(i as int), config.base_url@) matches Ok(listed) && lists(
                    out@,
                    manga@,
                    listed,
                ),
            decreases rows.len() - i,
        {
            proof {
                assert(all.take(i + 1).drop_last() =~= all.take(i as int));
                assert(all.take(i + 1).last() == rows@[i as int]@);
            }
            match &rows[i].link {
                None => {},
                Some(link) => {
                    let href = match &link.href {
                        Some(h) => chars_of(h.as_str()),
                        None => {
                            proof {
                                lemma_eros_listing_fails(all, config.base_url@, i + 1);
                            }
                            return Err(GuLoaderError::scraping("Chapter URL not found"));
                        },
                    };
                    let url = if begins_with(&href, &http) {
                        string_of(&href)
                    } else {
                        string_of(&chain(&base, &href))
                    };
                    let title = match &link.title {
                        Some(t) => string_of(&trim(&chars_of(t.as_str()), Trim::WhiteSpace)),
                        None => {
                            assert(i + 1 <= u128::MAX);
                            let place = decimal_text(i as u128 + 1);
                            string_of(&chain(&chars_of("Chapter "), &place))
                        },
                    };
                    let number = extract_chapter_number(title.as_str(), i);
                    let ghost before = out@;
                    let chapter = discover(manga, title, number, url);
                    out.push(chapter);
                    proof {
                        let listed = eros_listing(all.take(i + 1), config.base_url@)->Ok_0;
                        assert forall|k: int| 0 <= k < out@.len() implies (#[trigger] out@[k])@.is_discovery_of(

                            manga@.id,
                            manga@.title,
                            listed[k].title,
                            listed[k].number,
                            listed[k].url,
                        ) by {
                            if k < before.len() {
                                assert(out@[k] == before[k]);
                            }
                        }
                    }
                },
            }
            i += 1;
        }
        assert(all.take(rows.len() as int) =~= all);
        Ok(out)
    }
}

impl MangaScanner for ErosScanner {
    /// The chapters that the title page lists under `#chapterlist li`: of
    /// each item the first link under `.eph-num`, with its address and the
    /// text of its `.chapternum` element.
    fn scan_manga(&self, config: &SiteConfig, manga: &Manga, html: &str) -> (r: Result<
        Vec<Chapter>,
        GuLoaderError,
    >)
        ensures
            eros_scan(html@, config.base_url@, manga@, r),
    {
        match chapter_rows(html, "#chapterlist li", ".eph-num a", ".chapternum") {
            None => Err(GuLoaderError::scraping("Invalid chapter selector")),
            Some(rows) => {
                let r = ErosScanner::chapters_from_rows(config, manga, &rows);
                assert(eros_reads(config.base_url@, manga@, row_views(rows@), r));
                assert(r matches Ok(chapters) ==> discovered_for(chapters@, manga@));
                r
            },
        }
    }
}

} // verus!
