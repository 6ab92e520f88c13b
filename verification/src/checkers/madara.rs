//! Catalog listing for sites built on the Madara template: the listing is
//! read from the page's elements, or, where that yields nothing, from the
//! page's text.

use vstd::prelude::*;
use crate::checkers::{
    catalog, chars_or_empty, entries_from_rows, entry_views, lemma_catalog_named, or_empty,
    row_views,
};
use crate::config::SiteConfig;
use crate::dom::{
    attribute, attribute_of_first, is_selector, parsed_document, select, select_within,
    selected_below, selected_in, selector, selector_of, CatalogRow, CatalogRowView,
};
use crate::error::{ErrorKind, ErrorView, GuLoaderError};
use crate::models::text_of;
use crate::pattern::{capture, capture_all, optional_strings, regex_capture, regex_capture_all};
use crate::text::string_of;
use crate::traits::{CatalogChecker, CatalogEntry, CatalogEntryView};

verus! {

/// A block of the listing in the page's text.
pub const BLOCK_PATTERN: &'static str = r#"<div class=\"bsx\">([\s\S]*?)</div>\s*</div>"#;

/// The link of a block: its address and its title.
pub const LINK_PATTERN: &'static str = r#"<a href=\"([^\"]+)\"[^>]*title=\"([^\"]+)\""#;

/// The image of a block: its source.
pub const IMAGE_PATTERN: &'static str = r#"<img[^>]+src=\"([^\"]+)\"[^>]*>"#;

/// The catalog checker of the Madara site family.
pub struct MadaraCatalogChecker {}

/// What the text of one block says: the address and the title that the link
/// pattern captures, and the source that the image pattern captures.
pub open spec fn block_row(block: Seq<char>) -> CatalogRowView {
    CatalogRowView {
        url: regex_capture(LINK_PATTERN@, block, 1),
        title: regex_capture(LINK_PATTERN@, block, 2),
        cover: regex_capture(IMAGE_PATTERN@, block, 1),
    }
}

/// The rows that the texts of the blocks give, block by block.
pub open spec fn block_rows(blocks: Seq<Option<Seq<char>>>) -> Seq<CatalogRowView> {
    Seq::new(blocks.len(), |i: int| block_row(or_empty(blocks[i])))
}

/// The rows that the page's text gives: one for each block that the block
/// pattern finds.
pub open spec fn text_rows(html: Seq<char>) -> Seq<CatalogRowView> {
    match regex_capture_all(BLOCK_PATTERN@, html, 1) {
        Some(blocks) => block_rows(blocks),
        None => Seq::<CatalogRowView>::empty(),
    }
}

/// The titles that a catalog page lists, given the rows of its elements:
/// what those rows list, or, where they list nothing, what the rows of the
/// page's text list.
pub open spec fn first_page(rows: Seq<CatalogRowView>, html: Seq<char>, base_url: Seq<char>) -> Seq<
    CatalogEntryView,
> {
    if catalog(rows, base_url).len() > 0 {
        catalog(rows, base_url)
    } else {
        catalog(text_rows(html), base_url)
    }
}

/// The failure of a listing whose selectors could not be used.
pub open spec fn selector_failure() -> ErrorView {
    ErrorView { kind: ErrorKind::Scraping, detail: "Invalid catalog selector"@ }
}

/// What an item of the listing says: the address and the title of its
/// first titled link, and the source of its first image.
pub open spec fn item_reading(
    item: scraper::ElementRef<'_>,
    links: scraper::Selector,
    images: scraper::Selector,
) -> CatalogRowView {
    CatalogRowView {
        url: attribute_of_first(selected_below(item, links), "href"@),
        title: attribute_of_first(selected_below(item, links), "title"@),
        cover: attribute_of_first(selected_below(item, images), "src"@),
    }
}

/// What the items say, item by item.
pub open spec fn items_reading<'a>(
    elements: Seq<scraper::ElementRef<'a>>,
    links: scraper::Selector,
    images: scraper::Selector,
) -> Seq<CatalogRowView> {
    Seq::new(elements.len(), |i: int| item_reading(elements[i], links, images))
}

/// What the items of the list containers say: container by container, the
/// items that `items` selects in it.
pub open spec fn lists_reading<'a>(
    containers: Seq<scraper::ElementRef<'a>>,
    items: scraper::Selector,
    links: scraper::Selector,
    images: scraper::Selector,
) -> Seq<CatalogRowView>
    decreases containers.len(),
{
    if containers.len() == 0 {
        Seq::<CatalogRowView>::empty()
    } else {
        lists_reading(containers.drop_last(), items, links, images) + items_reading(
            selected_below(containers.last(), items),
            links,
            images,
        )
    }
}

/// The selectors of the catalog page are selectors.
pub open spec fn selectors_parse() -> bool {
    &&& is_selector(".listupd, .list-update, .postbody, body"@)
    &&& is_selector(".bsx, .bs, .utao .bsx"@)
    &&& is_selector("a[title][href]"@)
    &&& is_selector("img[src]"@)
}

/// The items of the listing of a catalog page: for each list container of
/// the page, each item in it, in order. An item that stands in two
/// containers is read twice. `None` where a selector of the page is none.
pub open spec fn page_items(html: Seq<char>) -> Option<Seq<CatalogRowView>> {
    if selectors_parse() {
        Some(
            lists_reading(
                selected_in(
                    parsed_document(html),
                    selector_of(".listupd, .list-update, .postbody, body"@)->0,
                ),
                selector_of(".bsx, .bs, .utao .bsx"@)->0,
                selector_of("a[title][href]"@)->0,
                selector_of("img[src]"@)->0,
            ),
        )
    } else {
        None
    }
}

/// Reads the blocks of the listing out of the catalog page: for each list
/// container, each item in it, with the address and title of its first
/// titled link and the source of its first image. `None` where a selector
/// is none.
pub(crate) fn catalog_rows(html: &str) -> (r: Option<Vec<CatalogRow>>)
    ensures
        match r {
            Some(rows) => page_items(html@) == Some(row_views(rows@)),
            None => page_items(html@) is None,
        },
{
    let lists = match selector(".listupd, .list-update, .postbody, body") {
        Some(s) => s,
        None => {
            return None;
        },
    };
    let items = match selector(".bsx, .bs, .utao .bsx") {
        Some(s) => s,
        None => {
            return None;
        },
    };
    let links = match selector("a[title][href]") {
        Some(s) => s,
        None => {
            return None;
        },
    };
    let images = match selector("img[src]") {
        Some(s) => s,
        None => {
            return None;
        },
    };
    let tree = scraper::Html::parse_document(html);
    let containers = select(&tree, &lists);
    let mut rows: Vec<CatalogRow> = Vec::new();
    let mut c: usize = 0;
    assert(containers@.take(0) =~= Seq::empty());
    assert(row_views(rows@) =~= lists_reading(containers@.take(0), items, links, images));
    while c < containers.len()
        invariant
            c <= containers.len(),
            row_views(rows@) == lists_reading(containers@.take(c as int), items, links, images),
        decreases containers.len() - c,
    {
        let elements = select_within(&containers[c], &items);
        let ghost before = row_views(rows@);
        let ghost all = items_reading(elements@, links, images);
        let mut i: usize = 0;
        assert(before + all.take(0) =~= before);
        while i < elements.len()
            invariant
                i <= elements.len(),
                all == items_reading(elements@, links, images),
                row_views(rows@) == before + all.take(i as int),
            decreases elements.len() - i,
        {
            let anchors = select_within(&elements[i], &links);
            let (url, title) = if anchors.len() > 0 {
                (attribute(&anchors[0], "href"), attribute(&anchors[0], "title"))
            } else {
                (None, None)
            };
            let pictures = select_within(&elements[i], &images);
            let cover = if pictures.len() > 0 {
                attribute(&pictures[0], "src")
            } else {
                None
            };
            let ghost earlier = row_views(rows@);
            rows.push(CatalogRow { url, title, cover });
            assert(row_views(rows@) =~= earlier.push(all[i as int]));
            assert(before + all.take(i + 1) =~= (before + all.take(i as int)).push(all[i as int]));
            i += 1;
        }
        proof {
            assert(all.take(elements.len() as int) =~= all);
            assert(containers@.take(c + 1).drop_last() =~= containers@.take(c as int));
            assert(containers@.take(c + 1).last() == containers@[c as int]);
        }
        c += 1;
    }
    assert(containers@.take(containers.len() as int) =~= containers@);
    Some(rows)
}

/// What a catalog page gives. Where the page's selectors are selectors, the
/// listing succeeds: it gives the titles that the page lists, given the rows
/// of its elements. Where they are not, it fails with the failure of the
/// selectors.
pub open spec fn madara_first_page(
    html: Seq<char>,
    base_url: Seq<char>,
    r: Result<Vec<CatalogEntry>, GuLoaderError>,
) -> bool {
    match page_items(html) {
        Some(rows) => r matches Ok(entries) && entry_views(entries@) == first_page(
            rows,
            html,
            base_url,
        ),
        None => r matches Err(e) && e@ == selector_failure(),
    }
}

impl MadaraCatalogChecker {
    /// The catalog checker of the Madara site family.
    pub fn new() -> (r: Self)
        ensures
            r == (MadaraCatalogChecker {  }),
    {
        MadaraCatalogChecker {  }
    }

    /// The rows that the page's text gives.
    pub fn rows_from_text(html: &str) -> (r: Vec<CatalogRow>)
        ensures
            row_views(r@) == text_rows(html@),
    {
        let mut rows: Vec<CatalogRow> = Vec::new();
        match capture_all(BLOCK_PATTERN, html, 1) {
            None => {
                assert(row_views(rows@) =~= text_rows(html@));
            },
            Some(blocks) => {
                let mut i: usize = 0;
                while i < blocks.len()
                    invariant
                        i <= blocks.len(),
                        rows@.len() == i,
                        forall|k: int|
                            0 <= k < i ==> (#[trigger] rows@[k])@ == block_row(
                                or_empty(text_of(blocks@[k])),
                            ),
                    decreases blocks.len() - i,
                {
                    let block = string_of(&chars_or_empty(&blocks[i]));
                    rows.push(
                        CatalogRow {
                            url: capture(LINK_PATTERN, block.as_str(), 1),
                            title: capture(LINK_PATTERN, block.as_str(), 2),
                            cover: capture(IMAGE_PATTERN, block.as_str(), 1),
                        },
                    );
                    i += 1;
                }
                assert(row_views(rows@) =~= block_rows(optional_strings(blocks@)));
            },
        }
        rows
    }

    /// The titles that a catalog page lists, given the rows of its elements.
    pub fn entries_from_page(config: &SiteConfig, rows: &Vec<CatalogRow>, html: &str) -> (r: Vec<
        CatalogEntry,
    >)
        ensures
            entry_views(r@) == first_page(row_views(rows@), html@, config.base_url@),
    {
        let listed = entries_from_rows(config.base_url.as_str(), rows);
        if listed.len() > 0 {
            listed
        } else {
            let fallback = MadaraCatalogChecker::rows_from_text(html);
            entries_from_rows(config.base_url.as_str(), &fallback)
        }
    }
}

impl CatalogChecker for MadaraCatalogChecker {
    /// The titles that the listing of the catalog page names.
    fn fetch_first_page(&self, config: &SiteConfig, html: &str) -> (r: Result<
        Vec<CatalogEntry>,
        GuLoaderError,
    >)
        ensures
            madara_first_page(html@, config.base_url@, r),
    {
        match catalog_rows(html) {
            None => Err(GuLoaderError::scraping("Invalid catalog selector")),
            Some(rows) => {
                let entries = MadaraCatalogChecker::entries_from_page(config, &rows, html);
                proof {
                    lemma_catalog_named(row_views(rows@), config.base_url@);
                    lemma_catalog_named(text_rows(html@), config.base_url@);
                    assert forall|i: int| 0 <= i < entries@.len() implies (
                    #[trigger] entries@[i])@.title.len() > 0 && entries@[i]@.url.len() > 0 by {
                        assert(entry_views(entries@)[i] == entries@[i]@);
                    }
                }
                Ok(entries)
            },
        }
    }
}

} // verus!
