//! Catalog listing for the Eros site family.

use vstd::prelude::*;
use crate::checkers::{catalog, entries_from_rows, entry_views, row_views};
use crate::config::SiteConfig;
use crate::dom::{
    attribute, element_texts, first_present, is_selector, parsed_document, select,
    select_within, selected_below, selected_in, selector, selector_of, text_nodes, CatalogRow,
    CatalogRowView,
};
use crate::models::text_of;
use crate::error::{ErrorKind, ErrorView, GuLoaderError};
use crate::traits::{CatalogChecker, CatalogEntry};

verus! {

/// The catalog checker of the Eros site family.
pub struct ErosCatalogChecker {}

/// The value of the attribute `name` of the first element that has it.
fn first_attribute(elements: &Vec<scraper::ElementRef<'_>>, name: &str) -> (r: Option<String>)
    ensures
        text_of(r) == first_present(elements@, name@),
{
    let mut i: usize = 0;
    assert(elements@.skip(0) =~= elements@);
    while i < elements.len()
        invariant
            i <= elements.len(),
            first_present(elements@, name@) == first_present(elements@.skip(i as int), name@),
        decreases elements.len() - i,
    {
        assert(elements@.skip(i as int)[0] == elements@[i as int]);
        assert(elements@.skip(i as int).skip(1) =~= elements@.skip(i + 1));
        match attribute(&elements[i], name) {
            Some(value) => {
                return Some(value);
            },
            None => {},
        }
        i += 1;
    }
    None
}

/// What a block of latest updates says: the address of the first of its
/// series links that has one, the source of the first of its images that
/// has one, and the first text of its first heading.
pub open spec fn block_reading(
    block: scraper::ElementRef<'_>,
    links: scraper::Selector,
    images: scraper::Selector,
    headings: scraper::Selector,
) -> CatalogRowView {
    let found = selected_below(block, headings);
    CatalogRowView {
        url: first_present(selected_below(block, links), "href"@),
        title: if found.len() > 0 && element_texts(found[0]).len() > 0 {
            Some(element_texts(found[0])[0])
        } else {
            None
        },
        cover: first_present(selected_below(block, images), "src"@),
    }
}

/// The selectors of the catalog page are selectors.
pub open spec fn selectors_parse() -> bool {
    &&& is_selector("div.utao.styletwo"@)
    &&& is_selector(".imgu a.series"@)
    &&& is_selector(".imgu img"@)
    &&& is_selector("h4"@)
}

/// The blocks of latest updates of a catalog page: one row for each block
/// of the page, in order. `None` where a selector of the page is none.
pub open spec fn page_blocks(html: Seq<char>) -> Option<Seq<CatalogRowView>> {
    if selectors_parse() {
        let blocks = selected_in(parsed_document(html), selector_of("div.utao.styletwo"@)->0);
        Some(
            Seq::new(
                blocks.len(),
                |i: int|
                    block_reading(
                        blocks[i],
                        selector_of(".imgu a.series"@)->0,
                        selector_of(".imgu img"@)->0,
                        selector_of("h4"@)->0,
                    ),
            ),
        )
    } else {
        None
    }
}

/// Reads the blocks of latest updates out of the catalog page: of each
/// block the address of its series link, the source of its image, and the
/// first text of its heading. `None` where a selector is none.
pub(crate) fn catalog_rows(html: &str) -> (r: Option<Vec<CatalogRow>>)
    ensures
        match r {
            Some(rows) => page_blocks(html@) == Some(row_views(rows@)),
            None => page_blocks(html@) is None,
        },
{
    let blocks = match selector("div.utao.styletwo") {
        Some(s) => s,
        None => {
            return None;
        },
    };
    let links = match selector(".imgu a.series") {
        Some(s) => s,
        None => {
            return None;
        },
    };
    let images = match selector(".imgu img") {
        Some(s) => s,
        None => {
            return None;
        },
    };
    let headings = match selector("h4") {
        Some(s) => s,
        None => {
            return None;
        },
    };
    let tree = scraper::Html::parse_document(html);
    let elements = select(&tree, &blocks);
    let mut rows: Vec<CatalogRow> = Vec::new();
    let mut i: usize = 0;
    while i < elements.len()
        invariant
            i <= elements.len(),
            rows@.len() == i,
            forall|k: int|
                0 <= k < i ==> (#[trigger] rows@[k])@ == block_reading(
                    elements@[k],
                    links,
                    images,
                    headings,
                ),
        decreases elements.len() - i,
    {
        let anchors = select_within(&elements[i], &links);
        let pictures = select_within(&elements[i], &images);
        let found = select_within(&elements[i], &headings);
        let url = first_attribute(&anchors, "href");
        let cover = first_attribute(&pictures, "src");
        let title = if found.len() > 0 {
            let nodes = text_nodes(&found[0]);
            if nodes.len() > 0 {
                Some(nodes[0].clone())
            } else {
                None
            }
        } else {
            None
        };
        rows.push(CatalogRow { url, title, cover });
        i += 1;
    }
    assert(row_views(rows@) =~= page_blocks(html@)->0);
    Some(rows)
}

/// The failure of a listing whose selectors could not be used.
pub open spec fn selector_failure() -> ErrorView {
    ErrorView { kind: ErrorKind::Scraping, detail: "Invalid catalog selector"@ }
}

/// What a catalog page gives. Where the page's selectors are selectors, the
/// listing succeeds: it gives the titles that the blocks of the page list.
/// Where they are not, it fails with the failure of the selectors.
pub open spec fn eros_first_page(
    html: Seq<char>,
    base_url: Seq<char>,
    r: Result<Vec<CatalogEntry>, GuLoaderError>,
) -> bool {
    match page_blocks(html) {
        Some(rows) => r matches Ok(entries) && entry_views(entries@) == catalog(rows, base_url),
        None => r matches Err(e) && e@ == selector_failure(),
    }
}

impl ErosCatalogChecker {
    /// The catalog checker of the Eros site family.
    pub fn new() -> (r: Self)
        ensures
            r == (ErosCatalogChecker {  }),
    {
        ErosCatalogChecker {  }
    }
}

impl CatalogChecker for ErosCatalogChecker {
    /// The titles that the blocks of latest updates list.
    fn fetch_first_page(&self, config: &SiteConfig, html: &str) -> (r: Result<
        Vec<CatalogEntry>,
        GuLoaderError,
    >)
        ensures
            eros_first_page(html@, config.base_url@, r),
    {
        match catalog_rows(html) {
            None => Err(GuLoaderError::scraping("Invalid catalog selector")),
            Some(rows) => {
                let entries = entries_from_rows(config.base_url.as_str(), &rows);
                Ok(entries)
            },
        }
    }
}

} // verus!
