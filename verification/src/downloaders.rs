//! Page extraction, and what becomes of a chapter's pages once their images
//! were fetched.

pub mod eros;
pub mod madara;

use vstd::prelude::*;
use crate::error::{ErrorKind, ErrorView, GuLoaderError};
use crate::models::{page_views, ChapterPage, PageView};
use crate::text::strings;
use crate::traits::extracted_for;

verus! {

/// The pages are newly extracted pages of the chapter `chapter_id`, one for
/// each address and in the same order, numbered from 1.
pub open spec fn shows(pages: Seq<ChapterPage>, chapter_id: Seq<char>, urls: Seq<Seq<char>>)
    -> bool {
    &&& pages.len() == urls.len()
    &&& forall|i: int|
        0 <= i < pages.len() ==> (#[trigger] pages[i])@.is_extraction_of(
            chapter_id,
            (i + 1) as nat,
            urls[i],
        )
}

/// Pages that show a list of addresses are numbered from 1 without a gap.
pub proof fn lemma_shows_extracted(
    pages: Seq<ChapterPage>,
    chapter_id: Seq<char>,
    urls: Seq<Seq<char>>,
)
    requires
        shows(pages, chapter_id, urls),
    ensures
        extracted_for(pages, chapter_id),
{
    assert forall|i: int| 0 <= i < pages.len() implies {
        let p = (#[trigger] pages[i])@;
        &&& p.chapter_id == chapter_id
        &&& p.page_number == i + 1
        &&& p.local_path is None
        &&& p.downloaded_at is None
    } by {
        assert(pages[i]@.is_extraction_of(chapter_id, (i + 1) as nat, urls[i]));
    }
}

/// One page for each address, in order, numbered from 1.
pub fn pages_of(chapter_id: &String, urls: Vec<String>) -> (r: Vec<ChapterPage>)
    ensures
        shows(r@, chapter_id@, strings(urls@)),
{
    let mut pages: Vec<ChapterPage> = Vec::new();
    let mut i: usize = 0;
    while i < urls.len()
        invariant
            i <= urls.len(),
            pages@.len() == i,
            forall|k: int|
                0 <= k < i ==> (#[trigger] pages@[k])@.is_extraction_of(
                    chapter_id@,
                    (k + 1) as nat,
                    urls@[k]@,
                ),
        decreases urls.len() - i,
    {
        let ghost before = pages@;
        let page = ChapterPage::new(chapter_id.clone(), i + 1, urls[i].clone());
        pages.push(page);
        assert forall|k: int| 0 <= k < i + 1 implies (#[trigger] pages@[k])@.is_extraction_of(
            chapter_id@,
            (k + 1) as nat,
            urls@[k]@,
        ) by {
            if k < i {
                assert(pages@[k] == before[k]);
            }
        }
        i += 1;
    }
    pages
}

/// What became of the fetch of one page's image.
#[derive(Debug)]
pub enum PageFetch {
    /// The image was written to `local_path`.
    Saved { local_path: String, file_size_bytes: Option<i64>, downloaded_at: i64 },
    /// The image could not be fetched or written.
    Failed,
}

/// The page `page` once its image was saved, as the page numbered
/// `page_number` among the pages that were saved.
pub open spec fn saved_page(
    page: PageView,
    page_number: nat,
    local_path: Seq<char>,
    file_size_bytes: Option<i64>,
    downloaded_at: i64,
) -> PageView {
    PageView {
        page_number,
        local_path: Some(local_path),
        file_size_bytes,
        downloaded_at: Some(downloaded_at),
        ..page
    }
}

/// The pages whose images were saved, in their order, each with where and
/// when, numbered anew from 1 without a gap. `fetches` holds the outcome
/// for the page at the same index; a page without an outcome counts as
/// failed.
pub open spec fn saved_pages(pages: Seq<ChapterPage>, fetches: Seq<PageFetch>) -> Seq<PageView>
    decreases pages.len(),
{
    if pages.len() == 0 {
        Seq::<PageView>::empty()
    } else {
        let before = saved_pages(pages.drop_last(), fetches);
        let i = pages.len() - 1;
        if i < fetches.len() {
            match fetches[i] {
                PageFetch::Saved { local_path, file_size_bytes, downloaded_at } => before.push(
                    saved_page(
                        pages.last()@,
                        before.len() + 1,
                        local_path@,
                        file_size_bytes,
                        downloaded_at,
                    ),
                ),
                PageFetch::Failed => before,
            }
        } else {
            before
        }
    }
}

/// The saved pages are numbered from 1 without a gap, each has a place, and
/// there are no more of them than pages.
pub proof fn lemma_saved_pages_dense(pages: Seq<ChapterPage>, fetches: Seq<PageFetch>)
    ensures
        saved_pages(pages, fetches).len() <= pages.len(),
        forall|k: int|
            0 <= k < saved_pages(pages, fetches).len() ==> (#[trigger] saved_pages(
                pages,
                fetches,
            )[k]).page_number == k + 1 && saved_pages(pages, fetches)[k].local_path is Some,
    decreases pages.len(),
{
    if pages.len() > 0 {
        lemma_saved_pages_dense(pages.drop_last(), fetches);
    }
}

/// The failure of a chapter none of whose pages could be fetched.
pub open spec fn nothing_fetched() -> ErrorView {
    ErrorView { kind: ErrorKind::Http, detail: "No page of the chapter could be downloaded"@ }
}

/// Decides what a chapter's download yields once the images of its pages
/// were fetched: the pages whose images were saved, in their order and
/// numbered anew from 1; a page whose fetch failed is dropped. Where no
/// page is left, the download failed.
pub fn settle_pages(pages: &Vec<ChapterPage>, fetches: &Vec<PageFetch>) -> (r: Result<
    Vec<ChapterPage>,
    GuLoaderError,
>)
    ensures
        match r {
            Ok(kept) => page_views(kept@) == saved_pages(pages@, fetches@) && kept@.len() > 0,
            Err(e) => saved_pages(pages@, fetches@).len() == 0 && e@ == nothing_fetched(),
        },
{
    let mut kept: Vec<ChapterPage> = Vec::new();
    let mut i: usize = 0;
    assert(pages@.take(0) =~= Seq::<ChapterPage>::empty());
    assert(page_views(kept@) =~= saved_pages(pages@.take(0), fetches@));
    while i < pages.len()
        invariant
            i <= pages.len(),
            kept@.len() <= i,
            page_views(kept@) == saved_pages(pages@.take(i as int), fetches@),
        decreases pages.len() - i,
    {
        proof {
            assert(pages@.take(i + 1).drop_last() =~= pages@.take(i as int));
            assert(pages@.take(i + 1).last() == pages@[i as int]);
        }
        if i < fetches.len() {
            match &fetches[i] {
                PageFetch::Saved { local_path, file_size_bytes, downloaded_at } => {
                    let ghost before = kept@;
                    let page = &pages[i];
                    kept.push(
                        ChapterPage {
                            id: page.id.clone(),
                            chapter_id: page.chapter_id.clone(),
                            page_number: kept.len() + 1,
                            image_url: page.image_url.clone(),
                            local_path: Some(local_path.clone()),
                            file_size_bytes: *file_size_bytes,
                            downloaded_at: Some(*downloaded_at),
                            created_at: page.created_at,
                        },
                    );
                    assert(page_views(kept@) =~= page_views(before).push(kept@.last()@));
                },
                PageFetch::Failed => {},
            }
        }
        i += 1;
    }
    assert(pages@.take(pages.len() as int) =~= pages@);
    if kept.len() == 0 {
        Err(GuLoaderError::Http("No page of the chapter could be downloaded".to_owned()))
    } else {
        Ok(kept)
    }
}

/// The number of saved outcomes among the first `n`.
pub open spec fn saved_count(fetches: Seq<PageFetch>, n: int) -> nat
    decreases n,
{
    if n <= 0 {
        0
    } else {
        saved_count(fetches, n - 1) + if n - 1 < fetches.len() && fetches[n - 1] is Saved {
            1nat
        } else {
            0nat
        }
    }
}

/// As many pages are kept as fetches succeeded.
pub proof fn lemma_saved_pages_len(pages: Seq<ChapterPage>, fetches: Seq<PageFetch>)
    ensures
        saved_pages(pages, fetches).len() == saved_count(fetches, pages.len() as int),
    decreases pages.len(),
{
    if pages.len() > 0 {
        lemma_saved_pages_len(pages.drop_last(), fetches);
    }
}

} // verus!
