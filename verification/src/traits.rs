//! The capabilities that a site family supplies: listing a catalog,
//! discovering chapters and extracting pages. Each takes the document that
//! was fetched for it and performs no I/O of its own.

use vstd::prelude::*;
use crate::config::SiteConfig;
use crate::downloaders::{nothing_fetched, saved_pages, PageFetch};
use crate::error::GuLoaderError;
use crate::models::{
    page_views, text_of, Chapter, ChapterPage, ChapterStatus, Manga, MangaView,
};

verus! {

/// The chapters are pending chapters of `manga` without pages.
pub open spec fn discovered_for(chapters: Seq<Chapter>, manga: MangaView) -> bool {
    forall|i: int|
        0 <= i < chapters.len() ==> {
            let c = (#[trigger] chapters[i])@;
            &&& c.manga_id == manga.id
            &&& c.manga_title == manga.title
            &&& c.status == ChapterStatus::Pending
            &&& c.page_count == 0
        }
}

/// The pages belong to the chapter `chapter_id`, are not yet downloaded, and
/// are numbered from 1 without a gap, in order.
pub open spec fn extracted_for(pages: Seq<ChapterPage>, chapter_id: Seq<char>) -> bool {
    forall|i: int|
        0 <= i < pages.len() ==> {
            let p = (#[trigger] pages[i])@;
            &&& p.chapter_id == chapter_id
            &&& p.page_number == i + 1
            &&& p.local_path is None
            &&& p.downloaded_at is None
        }
}

/// Discovers the chapters of a title.
pub trait MangaScanner {
    /// The chapters that the title page `html` lists, in the page's order.
    fn scan_manga(&self, config: &SiteConfig, manga: &Manga, html: &str) -> (r: Result<
        Vec<Chapter>,
        GuLoaderError,
    >)
        ensures
            r matches Ok(chapters) ==> discovered_for(chapters@, manga@),
    ;
}

/// Extracts the pages of a chapter.
pub trait ChapterDownloader {
    /// The pages that the chapter page `html` shows, in order. A page
    /// without images is a failure, never an empty success.
    fn get_chapter_images(&self, config: &SiteConfig, html: &str, chapter: &Chapter) -> (r: Result<
        Vec<ChapterPage>,
        GuLoaderError,
    >)
        ensures
            r matches Ok(pages) ==> pages@.len() > 0 && extracted_for(pages@, chapter@.id),
    ;

    /// What the download of a chapter yields, once the images of its
    /// `pages` were fetched with the outcomes `fetches`: the pages whose
    /// images were saved, in their order. A failed page is dropped; where
    /// none is left, the download failed.
    fn download_chapter(
        &self,
        config: &SiteConfig,
        chapter: &Chapter,
        pages: &Vec<ChapterPage>,
        fetches: &Vec<PageFetch>,
    ) -> (r: Result<Vec<ChapterPage>, GuLoaderError>)
        ensures
            match r {
                Ok(kept) => page_views(kept@) == saved_pages(pages@, fetches@) && kept@.len() > 0,
                Err(e) => saved_pages(pages@, fetches@).len() == 0 && e@ == nothing_fetched(),
            },
    ;
}

/// A title as a catalog lists it.
#[derive(Debug)]
pub struct CatalogEntry {
    pub title: String,
    pub url: String,
    pub cover_url: Option<String>,
}

/// A catalog entry with its texts as sequences of characters.
pub struct CatalogEntryView {
    pub title: Seq<char>,
    pub url: Seq<char>,
    pub cover_url: Option<Seq<char>>,
}

impl View for CatalogEntry {
    type V = CatalogEntryView;

    open spec fn view(&self) -> CatalogEntryView {
        CatalogEntryView { title: self.title@, url: self.url@, cover_url: text_of(self.cover_url) }
    }
}

impl Clone for CatalogEntry {
    fn clone(&self) -> (r: Self)
        ensures
            r == *self,
    {
        CatalogEntry {
            title: self.title.clone(),
            url: self.url.clone(),
            cover_url: crate::models::copy_text(&self.cover_url),
        }
    }
}

/// The entries name a title and an address each.
pub open spec fn catalogued(entries: Seq<CatalogEntry>) -> bool {
    forall|i: int|
        0 <= i < entries.len() ==> (#[trigger] entries[i])@.title.len() > 0 && entries[i]@.url.len()
            > 0
}

/// Lists the titles that a site has updated recently.
pub trait CatalogChecker {
    /// The titles that the first page `html` of the site's catalog lists.
    /// Entries without a title or an address are left out.
    fn fetch_first_page(&self, config: &SiteConfig, html: &str) -> (r: Result<
        Vec<CatalogEntry>,
        GuLoaderError,
    >)
        ensures
            r matches Ok(entries) ==> catalogued(entries@),
    ;
}

} // verus!
