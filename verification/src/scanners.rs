//! Chapter discovery: from the rows of a title page's chapter list to the
//! chapters they list.

pub mod eros;
pub mod madara;

use vstd::prelude::*;
use crate::dom::{
    attribute, element_attribute, element_texts, is_selector, join, joined, parsed_document,
    select, select_within, selected_below, selected_in, selector, selector_of, text_nodes,
};
use crate::dom::{ChapterLink, ChapterLinkView, ChapterRow, ChapterRowView};
use crate::models::{text_of, Chapter, Manga, MangaView};
use crate::number::{parsed_thousandths, ChapterNumber};
use crate::pattern::{capture, regex_capture};
use crate::text::chars_of;

verus! {

/// The pattern that finds a chapter's number in its title: the word
/// `Chapter`, white space, then digits with an optional fraction.
pub const CHAPTER_PATTERN: &'static str = r"Chapter\s*([0-9]+(?:\.[0-9]+)?)";

/// What a chapter list says of one chapter.
pub struct ListedChapter {
    pub title: Seq<char>,
    pub number: ChapterNumber,
    pub url: Seq<char>,
}

/// The ordering key of a chapter, given the number text that the chapter
/// pattern captured in its title: the number that the text writes, or, where
/// nothing was captured or the text writes no number that fits, the
/// chapter's position in the list.
pub open spec fn key_from_capture(captured: Option<Seq<char>>, index: nat) -> ChapterNumber {
    match captured {
        Some(text) => match parsed_thousandths(text) {
            Some(v) => if v <= u128::MAX {
                ChapterNumber { thousandths: v as u128 }
            } else {
                ChapterNumber::at_position(index)
            },
            None => ChapterNumber::at_position(index),
        },
        None => ChapterNumber::at_position(index),
    }
}

/// The ordering key of the chapter titled `title` at position `index`.
pub open spec fn key_of(title: Seq<char>, index: nat) -> ChapterNumber {
    key_from_capture(regex_capture(CHAPTER_PATTERN@, title, 1), index)
}

/// The ordering key of a chapter, given what the chapter pattern captured.
pub fn chapter_key(captured: &Option<String>, index: usize) -> (r: ChapterNumber)
    ensures
        r == key_from_capture(text_of(*captured), index as nat),
{
    match captured {
        Some(text) => {
            let digits = chars_of(text.as_str());
            match ChapterNumber::parse(&digits) {
                Some(number) => number,
                None => ChapterNumber::from_position(index),
            }
        },
        None => ChapterNumber::from_position(index),
    }
}

/// The ordering key of the chapter titled `title` at position `index`.
pub fn extract_chapter_number(title: &str, index: usize) -> (r: ChapterNumber)
    ensures
        r == key_of(title@, index as nat),
{
    let captured = capture(CHAPTER_PATTERN, title, 1);
    chapter_key(&captured, index)
}

/// The chapters are newly discovered chapters of `manga`, one for each
/// listed chapter and in the same order.
pub open spec fn lists(chapters: Seq<Chapter>, manga: MangaView, listed: Seq<ListedChapter>)
    -> bool {
    &&& chapters.len() == listed.len()
    &&& forall|i: int|
        0 <= i < chapters.len() ==> (#[trigger] chapters[i])@.is_discovery_of(
            manga.id,
            manga.title,
            listed[i].title,
            listed[i].number,
            listed[i].url,
        )
}

/// A pending chapter of `manga` with a fresh identifier.
pub(crate) fn discover(manga: &Manga, title: String, number: ChapterNumber, url: String) -> (r:
    Chapter)
    ensures
        r@.is_discovery_of(manga@.id, manga@.title, title@, number, url@),
{
    Chapter::new(manga.id.clone(), manga.title.clone(), title, number, url)
}

/// What the link of a list item says: the link's `href` attribute, and the
/// text of the first element that `titles` selects in the link, where there
/// is one.
pub open spec fn link_reading(anchor: scraper::ElementRef<'_>, titles: scraper::Selector)
    -> ChapterLinkView {
    let holders = selected_below(anchor, titles);
    ChapterLinkView {
        href: element_attribute(anchor, "href"@),
        title: if holders.len() > 0 {
            Some(joined(element_texts(holders[0])))
        } else {
            None
        },
    }
}

/// What a list item says: what the first element that `links` selects in it
/// says, where there is one.
pub open spec fn row_reading(
    item: scraper::ElementRef<'_>,
    links: scraper::Selector,
    titles: scraper::Selector,
) -> ChapterRowView {
    let anchors = selected_below(item, links);
    ChapterRowView {
        link: if anchors.len() > 0 {
            Some(link_reading(anchors[0], titles))
        } else {
            None
        },
    }
}

/// The rows of the chapter list of a page: one row for each element that
/// `item` selects in the page, in order, each saying what its first link
/// says. `None` where one of the three texts is no selector.
pub open spec fn page_rows(html: Seq<char>, item: Seq<char>, link: Seq<char>, title: Seq<char>)
    -> Option<Seq<ChapterRowView>> {
    if is_selector(item) && is_selector(link) && is_selector(title) {
        let items = selected_in(parsed_document(html), selector_of(item)->0);
        Some(
            Seq::new(
                items.len(),
                |i: int| row_reading(items[i], selector_of(link)->0, selector_of(title)->0),
            ),
        )
    } else {
        None
    }
}

/// The views of a vector of rows.
pub open spec fn row_views(rows: Seq<ChapterRow>) -> Seq<ChapterRowView> {
    Seq::new(rows.len(), |i: int| rows[i]@)
}

/// Reads the rows of a chapter list out of a document: one row for each
/// element that `item` selects; in it the first descendant that `link`
/// selects, with its `href` and the text of its first descendant that
/// `title` selects. `None` where one of the three texts is no selector.
pub(crate) fn chapter_rows(html: &str, item: &str, link: &str, title: &str) -> (r: Option<
    Vec<ChapterRow>,
>)
    ensures
        match r {
            Some(rows) => page_rows(html@, item@, link@, title@) == Some(row_views(rows@)),
            None => page_rows(html@, item@, link@, title@) is None,
        },
{
    let items = match selector(item) {
        Some(s) => s,
        None => {
            return None;
        },
    };
    let links = match selector(link) {
        Some(s) => s,
        None => {
            return None;
        },
    };
    let titles = match selector(title) {
        Some(s) => s,
        None => {
            return None;
        },
    };
    let tree = scraper::Html::parse_document(html);
    let elements = select(&tree, &items);
    let mut rows: Vec<ChapterRow> = Vec::new();
    let mut i: usize = 0;
    while i < elements.len()
        invariant
            i <= elements.len(),
            rows@.len() == i,
            forall|k: int|
                0 <= k < i ==> (#[trigger] rows@[k])@ == row_reading(elements@[k], links, titles),
        decreases elements.len() - i,
    {
        let anchors = select_within(&elements[i], &links);
        if anchors.len() > 0 {
            let href = attribute(&anchors[0], "href");
            let holders = select_within(&anchors[0], &titles);
            let title = if holders.len() > 0 {
                Some(join(&text_nodes(&holders[0])))
            } else {
                None
            };
            rows.push(ChapterRow { link: Some(ChapterLink { href, title }) });
        } else {
            rows.push(ChapterRow { link: None });
        }
        i += 1;
    }
    assert(row_views(rows@) =~= page_rows(html@, item@, link@, title@)->0);
    Some(rows)
}

/// Two scans of one listing find the same chapters: at each place the same
/// title and the same ordering key, whatever identifiers they were given.
pub proof fn lemma_same_listing_same_keys(
    first: Seq<Chapter>,
    second: Seq<Chapter>,
    manga: MangaView,
    listed: Seq<ListedChapter>,
)
    requires
        lists(first, manga, listed),
        lists(second, manga, listed),
    ensures
        crate::store::same_keys(first, second),
{
    assert forall|k: int| 0 <= k < first.len() implies (#[trigger] first[k])@.manga_id
        == second[k]@.manga_id && first[k].number == second[k].number by {
        assert(first[k]@.is_discovery_of(
            manga.id,
            manga.title,
            listed[k].title,
            listed[k].number,
            listed[k].url,
        ));
        assert(second[k]@.is_discovery_of(
            manga.id,
            manga.title,
            listed[k].title,
            listed[k].number,
            listed[k].url,
        ));
    }
}

} // verus!
