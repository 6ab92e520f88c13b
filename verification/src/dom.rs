//! Reading parsed HTML: elements selected by CSS selectors become plain rows
//! of texts, on which the adapters decide.
//!
//! The parser and the selector engine are `scraper`'s. Its documents,
//! selectors and element handles are carried through as they are. What
//! parsing and selecting return is named, and so is what an element holds:
//! its attributes and its text nodes.

use vstd::prelude::*;
use vstd::string::StringExecFns;
use crate::models::text_of;
use crate::text::strings;

verus! {

#[verifier::external_type_specification]
#[verifier::external_body]
pub struct ExHtml(scraper::Html);

#[verifier::external_type_specification]
#[verifier::external_body]
pub struct ExSelector(scraper::Selector);

#[verifier::external_type_specification]
#[verifier::external_body]
pub struct ExElementRef<'a>(scraper::ElementRef<'a>);

/// The document that `scraper::Html::parse_document` makes of a text.
pub uninterp spec fn parsed_document(html: Seq<char>) -> scraper::Html;

/// The selector group that `scraper::Selector::parse` makes of a text, or
/// `None` where the text is no selector group.
pub uninterp spec fn selector_of(css: Seq<char>) -> Option<scraper::Selector>;

/// The elements that `scraper::Html::select` yields for a document and a
/// selector: the elements of the document that match the selector, in the
/// order in which the document holds its nodes.
pub uninterp spec fn selected_in(tree: scraper::Html, selector: scraper::Selector) -> Seq<
    scraper::ElementRef<'static>,
>;

/// The elements that `scraper::ElementRef::select` yields for an element
/// and a selector: the descendants of the element that match the selector,
/// in the order in which the element's subtree is walked.
pub uninterp spec fn selected_below(
    element: scraper::ElementRef<'_>,
    selector: scraper::Selector,
) -> Seq<scraper::ElementRef<'static>>;

/// The text is a selector group.
pub open spec fn is_selector(css: Seq<char>) -> bool {
    selector_of(css) is Some
}

/// `scraper::Html::parse_document`: parses a text as an HTML document.
/// Parsing never fails. The document is the named one: it depends on the
/// text alone.
pub assume_specification[ scraper::Html::parse_document ](document: &str) -> (tree: scraper::Html)
    ensures
        tree == parsed_document(document@),
;

/// What an element holds under an attribute name, as
/// `scraper::node::Element::attr` looks it up: the value of the attribute of
/// that name, or `None` where the element has no such attribute.
pub uninterp spec fn element_attribute(element: scraper::ElementRef<'_>, name: Seq<char>) -> Option<
    Seq<char>,
>;

/// The text nodes that an element holds, as `scraper::ElementRef::text`
/// yields them: the texts of its descendant text nodes, in document order.
pub uninterp spec fn element_texts(element: scraper::ElementRef<'_>) -> Seq<Seq<char>>;

/// `scraper::Selector::parse`: the selector group that a text writes, or
/// `None` where the text is no selector group. The result is the named
/// one: it depends on the text alone.
#[verifier::external_body]
pub(crate) fn selector(css: &str) -> (r: Option<scraper::Selector>)
    ensures
        r == selector_of(css@),
{
    scraper::Selector::parse(css).ok()
}

/// `scraper::Html::select`: the elements of the document that match the
/// selector, in the order in which the document holds its nodes. The
/// result is the named one: it depends on the document and the selector
/// alone.
#[verifier::external_body]
pub(crate) fn select<'a>(tree: &'a scraper::Html, selector: &scraper::Selector) -> (r: Vec<
    scraper::ElementRef<'a>,
>)
    ensures
        r@ == selected_in(*tree, *selector),
{
    tree.select(selector).collect()
}

/// `scraper::ElementRef::select`: the descendants of the element that match
/// the selector, in the order in which the element's subtree is walked. The
/// result is the named one: it depends on the element and the selector
/// alone.
#[verifier::external_body]
pub(crate) fn select_within<'a>(scope: &scraper::ElementRef<'a>, selector: &scraper::Selector) -> (r: Vec<
    scraper::ElementRef<'a>,
>)
    ensures
        r@ == selected_below(*scope, *selector),
{
    scope.select(selector).collect()
}

/// `scraper::node::Element::attr` on the element's value: the value of the
/// attribute of that name, if the element has one. The result is the named
/// one: it depends on the element and the name alone.
#[verifier::external_body]
pub(crate) fn attribute(element: &scraper::ElementRef<'_>, name: &str) -> (r: Option<String>)
    ensures
        text_of(r) == element_attribute(*element, name@),
{
    element.value().attr(name).map(|value| value.to_string())
}

/// `scraper::ElementRef::text`: the descendant text nodes of the element, in
/// document order. The result is the named one: it depends on the element
/// alone.
#[verifier::external_body]
pub(crate) fn text_nodes(element: &scraper::ElementRef<'_>) -> (r: Vec<String>)
    ensures
        strings(r@) == element_texts(*element),
{
    element.text().map(|node| node.to_string()).collect()
}

/// The link of one item of a chapter list, as far as it has the parts.
#[derive(Debug)]
pub struct ChapterLink {
    /// The link's `href` attribute.
    pub href: Option<String>,
    /// The text of the element that holds the chapter's title.
    pub title: Option<String>,
}

/// One item of a chapter list.
#[derive(Debug)]
pub struct ChapterRow {
    /// The item's first link, if it has one.
    pub link: Option<ChapterLink>,
}

/// A chapter link with its texts as sequences of characters.
pub struct ChapterLinkView {
    pub href: Option<Seq<char>>,
    pub title: Option<Seq<char>>,
}

/// A chapter list item with its texts as sequences of characters.
pub struct ChapterRowView {
    pub link: Option<ChapterLinkView>,
}

impl View for ChapterLink {
    type V = ChapterLinkView;

    open spec fn view(&self) -> ChapterLinkView {
        ChapterLinkView { href: text_of(self.href), title: text_of(self.title) }
    }
}

impl View for ChapterRow {
    type V = ChapterRowView;

    open spec fn view(&self) -> ChapterRowView {
        ChapterRowView {
            link: match self.link {
                Some(link) => Some(link@),
                None => None,
            },
        }
    }
}

/// One block of a catalog listing.
#[derive(Debug)]
pub struct CatalogRow {
    /// The address of the title's page.
    pub url: Option<String>,
    /// The title's name.
    pub title: Option<String>,
    /// The address of the cover image.
    pub cover: Option<String>,
}

/// A catalog block with its texts as sequences of characters.
pub struct CatalogRowView {
    pub url: Option<Seq<char>>,
    pub title: Option<Seq<char>>,
    pub cover: Option<Seq<char>>,
}

impl View for CatalogRow {
    type V = CatalogRowView;

    open spec fn view(&self) -> CatalogRowView {
        CatalogRowView {
            url: text_of(self.url),
            title: text_of(self.title),
            cover: text_of(self.cover),
        }
    }
}

/// One image element of a chapter page.
#[derive(Debug)]
pub struct ImageCandidate {
    /// The `data-src` attribute, which lazy loading fills.
    pub data_src: Option<String>,
    /// The `src` attribute.
    pub src: Option<String>,
}

/// An image element with its texts as sequences of characters.
pub struct ImageCandidateView {
    pub data_src: Option<Seq<char>>,
    pub src: Option<Seq<char>>,
}

impl View for ImageCandidate {
    type V = ImageCandidateView;

    open spec fn view(&self) -> ImageCandidateView {
        ImageCandidateView { data_src: text_of(self.data_src), src: text_of(self.src) }
    }
}

/// The texts, one after another.
pub open spec fn joined(texts: Seq<Seq<char>>) -> Seq<char>
    decreases texts.len(),
{
    if texts.len() == 0 {
        Seq::<char>::empty()
    } else {
        joined(texts.drop_last()) + texts.last()
    }
}

/// The texts of `parts`, one after another.
pub fn join(parts: &Vec<String>) -> (r: String)
    ensures
        r@ == joined(strings(parts@)),
{
    let mut r = String::new();
    let mut i: usize = 0;
    let ghost all = strings(parts@);
    assert(all.take(0) =~= Seq::<Seq<char>>::empty());
    while i < parts.len()
        invariant
            i <= parts.len(),
            all == strings(parts@),
            r@ == joined(all.take(i as int)),
        decreases parts.len() - i,
    {
        assert(all.take(i + 1).drop_last() =~= all.take(i as int));
        assert(all.take(i + 1).last() == parts@[i as int]@);
        r.append(parts[i].as_str());
        i += 1;
    }
    assert(all.take(parts.len() as int) =~= all);
    r
}

/// The value of the attribute `name` of the first of the elements that has
/// such an attribute.
pub open spec fn first_present<'a>(elements: Seq<scraper::ElementRef<'a>>, name: Seq<char>)
    -> Option<Seq<char>>
    decreases elements.len(),
{
    if elements.len() == 0 {
        None
    } else {
        match element_attribute(elements[0], name) {
            Some(value) => Some(value),
            None => first_present(elements.skip(1), name),
        }
    }
}

/// The value of the attribute `name` of the first of the elements, if
/// there is an element and it has the attribute.
pub open spec fn attribute_of_first<'a>(elements: Seq<scraper::ElementRef<'a>>, name: Seq<char>)
    -> Option<Seq<char>> {
    if elements.len() > 0 {
        element_attribute(elements[0], name)
    } else {
        None
    }
}

} // verus!
