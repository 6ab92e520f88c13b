//! Page extraction for sites built on the Madara template: the images are
//! elements of the chapter page, found by a cascade of selectors.

use vstd::prelude::*;
use crate::config::SiteConfig;
use crate::dom::{
    attribute, element_attribute, is_selector, parsed_document, select, selected_in, selector,
    selector_of, ImageCandidate, ImageCandidateView,
};
use crate::downloaders::{lemma_shows_extracted, pages_of, settle_pages, shows, PageFetch};
use crate::error::{ErrorKind, ErrorView, GuLoaderError};
use crate::models::{Chapter, ChapterPage};
use crate::order::{sort_dedup, sorted_set_of};
use crate::text::{begins_with, chars_of, contains, holds, starts_with, string_of, strings, texts};
use crate::traits::ChapterDownloader;

verus! {

/// The extractor of the Madara site family.
pub struct MadaraDownloader {}

/// The address that an image element gives: its lazy-loading attribute
/// where that is present and not empty, else its plain source, else
/// nothing.
pub open spec fn candidate_address(candidate: ImageCandidateView) -> Seq<char> {
    let lazy = match candidate.data_src {
        Some(s) => s,
        None => Seq::<char>::empty(),
    };
    if lazy.len() > 0 {
        lazy
    } else {
        match candidate.src {
            Some(s) => s,
            None => Seq::<char>::empty(),
        }
    }
}

/// An address of a content image: it begins with `http`, names an image
/// format, and is no avatar, logo or icon.
pub open spec fn is_valid_image_url(url: Seq<char>) -> bool {
    &&& starts_with(url, "http"@)
    &&& contains(url, ".jpg"@) || contains(url, ".jpeg"@) || contains(url, ".png"@) || contains(
        url,
        ".webp"@,
    )
    &&& !contains(url, "avatar"@)
    &&& !contains(url, "logo"@)
    &&& !contains(url, "icon"@)
}

/// The addresses of content images among the candidates, in their order.
pub open spec fn valid_addresses(candidates: Seq<ImageCandidateView>) -> Seq<Seq<char>>
    decreases candidates.len(),
{
    if candidates.len() == 0 {
        Seq::<Seq<char>>::empty()
    } else {
        let before = valid_addresses(candidates.drop_last());
        let url = candidate_address(candidates.last());
        if url.len() > 0 && is_valid_image_url(url) {
            before.push(url)
        } else {
            before
        }
    }
}

/// The addresses of the pages, in order.
pub open spec fn page_urls(pages: Seq<ChapterPage>) -> Seq<Seq<char>> {
    Seq::new(pages.len(), |i: int| pages[i]@.image_url)
}

/// The failure of a chapter page without content images.
pub open spec fn no_images() -> ErrorView {
    ErrorView { kind: ErrorKind::Scraping, detail: "No valid image URLs found"@ }
}

/// The failure of an extraction whose selectors could not be used.
pub open spec fn selector_failure() -> ErrorView {
    ErrorView { kind: ErrorKind::Scraping, detail: "Invalid image selector"@ }
}

/// The selectors that find the image elements of a chapter page, in the
/// order in which they are tried.
pub open spec fn image_cascade() -> Seq<Seq<char>> {
    seq![
        ".reading-content img"@,
        ".entry-content img"@,
        ".chapter-content img"@,
        ".wp-manga-chapter-img"@,
        ".page-break img"@,
        "img[data-src]"@,
        "img[src*='wp-content']"@,
    ]
}

/// What an image element says: its lazy-loading attribute and its plain
/// source.
pub open spec fn candidate_reading(element: scraper::ElementRef<'_>) -> ImageCandidateView {
    ImageCandidateView {
        data_src: element_attribute(element, "data-src"@),
        src: element_attribute(element, "src"@),
    }
}

/// What the image elements say, element by element.
pub open spec fn candidates_reading<'a>(elements: Seq<scraper::ElementRef<'a>>) -> Seq<
    ImageCandidateView,
> {
    Seq::new(elements.len(), |i: int| candidate_reading(elements[i]))
}

/// What the image elements of a document say: selector by selector of the
/// cascade, the elements that it selects.
pub open spec fn cascade_reading(tree: scraper::Html, cascade: Seq<Seq<char>>) -> Seq<
    ImageCandidateView,
>
    decreases cascade.len(),
{
    if cascade.len() == 0 {
        Seq::<ImageCandidateView>::empty()
    } else {
        cascade_reading(tree, cascade.drop_last()) + candidates_reading(
            selected_in(tree, selector_of(cascade.last())->0),
        )
    }
}

/// Every selector of the cascade is a selector.
pub open spec fn cascade_parses() -> bool {
    forall|s: int| 0 <= s < image_cascade().len() ==> is_selector(#[trigger] image_cascade()[s])
}

/// The image elements of a chapter page. An element that two selectors of
/// the cascade select is read twice. `None` where a selector of the cascade
/// is none.
pub open spec fn page_candidates(html: Seq<char>) -> Option<Seq<ImageCandidateView>> {
    if cascade_parses() {
        Some(cascade_reading(parsed_document(html), image_cascade()))
    } else {
        None
    }
}

/// The views of a vector of candidates.
pub open spec fn candidate_views(candidates: Seq<ImageCandidate>) -> Seq<ImageCandidateView> {
    Seq::new(candidates.len(), |i: int| candidates[i]@)
}

/// Reads the image elements of a chapter page: the elements that each
/// selector of the cascade selects, selector by selector. `None` where one
/// of them is no selector.
pub(crate) fn image_candidates(html: &str) -> (r: Option<Vec<ImageCandidate>>)
    ensures
        match r {
            Some(found) => page_candidates(html@) == Some(candidate_views(found@)),
            None => page_candidates(html@) is None,
        },
{
    let mut cascade: Vec<&'static str> = Vec::new();
    cascade.push(".reading-content img");
    cascade.push(".entry-content img");
    cascade.push(".chapter-content img");
    cascade.push(".wp-manga-chapter-img");
    cascade.push(".page-break img");
    cascade.push("img[data-src]");
    cascade.push("img[src*='wp-content']");
    let ghost all = image_cascade();
    assert(cascade@.len() == all.len());
    assert(forall|k: int| 0 <= k < cascade@.len() ==> (#[trigger] cascade@[k])@ == all[k]);
    let tree = scraper::Html::parse_document(html);
    let mut found: Vec<ImageCandidate> = Vec::new();
    let mut s: usize = 0;
    assert(all.take(0) =~= Seq::<Seq<char>>::empty());
    assert(candidate_views(found@) =~= cascade_reading(tree, all.take(0)));
    while s < cascade.len()
        invariant
            s <= cascade.len(),
            all == image_cascade(),
            cascade@.len() == all.len(),
            tree == parsed_document(html@),
            forall|k: int| 0 <= k < cascade@.len() ==> (#[trigger] cascade@[k])@ == all[k],
            forall|k: int| 0 <= k < s ==> is_selector(#[trigger] all[k]),
            candidate_views(found@) == cascade_reading(tree, all.take(s as int)),
        decreases cascade.len() - s,
    {
        let images = match selector(cascade[s]) {
            Some(images) => images,
            None => {
                assert(!is_selector(image_cascade()[s as int]));
                return None;
            },
        };
        let elements = select(&tree, &images);
        let ghost before = candidate_views(found@);
        let ghost read = candidates_reading(elements@);
        let mut i: usize = 0;
        assert(before + read.take(0) =~= before);
        while i < elements.len()
            invariant
                i <= elements.len(),
                read == candidates_reading(elements@),
                candidate_views(found@) == before + read.take(i as int),
            decreases elements.len() - i,
        {
            let ghost earlier = candidate_views(found@);
            found.push(
                ImageCandidate {
                    data_src: attribute(&elements[i], "data-src"),
                    src: attribute(&elements[i], "src"),
                },
            );
            assert(candidate_views(found@) =~= earlier.push(read[i as int]));
            assert(before + read.take(i + 1) =~= (before + read.take(i as int)).push(
                read[i as int],
            ));
            i += 1;
        }
        proof {
            assert(read.take(elements.len() as int) =~= read);
            assert(all.take(s + 1).drop_last() =~= all.take(s as int));
            assert(all.take(s + 1).last() == all[s as int]);
        }
        s += 1;
    }
    assert(all.take(cascade.len() as int) =~= all);
    Some(found)
}

/// What extraction gives for the image elements of a chapter page: one
/// page for each address of a content image among them, each address once
/// and in ascending order; or, where there is no content image, the failure
/// of a page without content images.
pub open spec fn madara_shows(
    candidates: Seq<ImageCandidateView>,
    chapter_id: Seq<char>,
    r: Result<Vec<ChapterPage>, GuLoaderError>,
) -> bool {
    match r {
        Ok(pages) => {
            &&& sorted_set_of(page_urls(pages@), valid_addresses(candidates))
            &&& shows(pages@, chapter_id, page_urls(pages@))
            &&& pages@.len() > 0
        },
        Err(e) => valid_addresses(candidates).len() == 0 && e@ == no_images(),
    }
}

/// What extraction from a chapter page gives. Where every selector of the
/// cascade is a selector, it gives what extraction gives for the page's
/// image elements. Where one is not, it fails with the failure of the
/// selectors.
pub open spec fn madara_extraction(
    html: Seq<char>,
    chapter_id: Seq<char>,
    r: Result<Vec<ChapterPage>, GuLoaderError>,
) -> bool {
    match page_candidates(html) {
        Some(candidates) => madara_shows(candidates, chapter_id, r),
        None => r matches Err(e) && e@ == selector_failure(),
    }
}

impl MadaraDownloader {
    /// The extractor of the Madara site family.
    pub fn new() -> (r: Self)
        ensures
            r == (MadaraDownloader {  }),
    {
        MadaraDownloader {  }
    }

    /// Whether `url` is the address of a content image.
    pub fn is_valid_image_url(&self, url: &str) -> (b: bool)
        ensures
            b == is_valid_image_url(url@),
    {
        let u = chars_of(url);
        begins_with(&u, &chars_of("http")) && (holds(&u, &chars_of(".jpg")) || holds(
            &u,
            &chars_of(".jpeg"),
        ) || holds(&u, &chars_of(".png")) || holds(&u, &chars_of(".webp"))) && !holds(
            &u,
            &chars_of("avatar"),
        ) && !holds(&u, &chars_of("logo")) && !holds(&u, &chars_of("icon"))
    }

    /// The pages that the image elements of a chapter page show: the
    /// addresses of the content images among them, each once, in ascending
    /// order. No content image is a failure.
    pub fn pages_from_candidates(&self, candidates: &Vec<ImageCandidate>, chapter: &Chapter) -> (r:
        Result<Vec<ChapterPage>, GuLoaderError>)
        ensures
            match r {
                Ok(pages) => {
                    &&& sorted_set_of(
                        page_urls(pages@),
                        valid_addresses(candidate_views(candidates@)),
                    )
                    &&& shows(pages@, chapter@.id, page_urls(pages@))
                    &&& pages@.len() > 0
                },
                Err(e) => valid_addresses(candidate_views(candidates@)).len() == 0 && e@
                    == no_images(),
            },
    {
        let mut urls: Vec<Vec<char>> = Vec::new();
        let mut i: usize = 0;
        let ghost all = candidate_views(candidates@);
        assert(all.take(0) =~= Seq::<ImageCandidateView>::empty());
        assert(texts(urls@) =~= valid_addresses(all.take(0)));
        while i < candidates.len()
            invariant
                i <= candidates.len(),
                all == candidate_views(candidates@),
                texts(urls@) == valid_addresses(all.take(i as int)),
            decreases candidates.len() - i,
        {
            proof {
                assert(all.take(i + 1).drop_last() =~= all.take(i as int));
                assert(all.take(i + 1).last() == candidates@[i as int]@);
            }
            let candidate = &candidates[i];
            let lazy = match &candidate.data_src {
                Some(s) => s.clone(),
                None => String::new(),
            };
            let url = if !lazy.as_str().is_empty() {
                lazy
            } else {
                match &candidate.src {
                    Some(s) => s.clone(),
                    None => String::new(),
                }
            };
            if !url.as_str().is_empty() && self.is_valid_image_url(url.as_str()) {
                let ghost before = urls@;
                urls.push(chars_of(url.as_str()));
                assert(texts(urls@) =~= texts(before).push(url@));
            }
            i += 1;
        }
        assert(all.take(candidates.len() as int) =~= all);
        let sorted = sort_dedup(&urls);
        if sorted.len() == 0 {
            proof {
                if texts(urls@).len() > 0 {
                    assert(texts(urls@).contains(texts(urls@)[0]));
                    assert(texts(sorted@).contains(texts(urls@)[0]));
                }
            }
            return Err(GuLoaderError::scraping("No valid image URLs found"));
        }
        let mut addresses: Vec<String> = Vec::new();
        let mut k: usize = 0;
        while k < sorted.len()
            invariant
                k <= sorted.len(),
                addresses@.len() == k,
                forall|j: int| 0 <= j < k ==> (#[trigger] addresses@[j])@ == sorted@[j]@,
            decreases sorted.len() - k,
        {
            addresses.push(string_of(&sorted[k]));
            k += 1;
        }
        assert(strings(addresses@) =~= texts(sorted@));
        let pages = pages_of(&chapter.id, addresses);
        proof {
            assert(page_urls(pages@) =~= texts(sorted@)) by {
                assert forall|j: int| 0 <= j < pages@.len() implies page_urls(pages@)[j] == texts(
                    sorted@,
                )[j] by {
                    assert(pages@[j]@.is_extraction_of(
                        chapter@.id,
                        (j + 1) as nat,
                        strings(addresses@)[j],
                    ));
                }
            }
        }
        Ok(pages)
    }

    /// The pages that a chapter page shows.
    pub fn parse_images(&self, html: &str, chapter: &Chapter) -> (r: Result<
        Vec<ChapterPage>,
        GuLoaderError,
    >)
        ensures
            madara_extraction(html@, chapter@.id, r),
    {
        match image_candidates(html) {
            None => Err(GuLoaderError::scraping("Invalid image selector")),
            Some(candidates) => {
                let r = self.pages_from_candidates(&candidates, chapter);
                assert(madara_shows(candidate_views(candidates@), chapter@.id, r));
                r
            },
        }
    }
}

impl ChapterDownloader for MadaraDownloader {
    /// The pages that the chapter page shows.
    fn get_chapter_images(&self, config: &SiteConfig, html: &str, chapter: &Chapter) -> (r: Result<
        Vec<ChapterPage>,
        GuLoaderError,
    >)
        ensures
            madara_extraction(html@, chapter@.id, r),
    {
        let r = self.parse_images(html, chapter);
        proof {
            if r is Ok {
                lemma_shows_extracted(r->Ok_0@, chapter@.id, page_urls(r->Ok_0@));
            }
        }
        r
    }

    fn download_chapter(
        &self,
        config: &SiteConfig,
        chapter: &Chapter,
        pages: &Vec<ChapterPage>,
        fetches: &Vec<PageFetch>,
    ) -> (r: Result<Vec<ChapterPage>, GuLoaderError>) {
        settle_pages(pages, fetches)
    }
}

} // verus!
