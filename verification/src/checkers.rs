//! Catalog listing: from the blocks of a site's first catalog page to the
//! titles they list.

pub mod eros;
pub mod madara;

use vstd::prelude::*;
use crate::dom::{CatalogRow, CatalogRowView};
use crate::models::text_of;
use crate::text::{begins_with, chain, chars_of, starts_with, string_of, strip, trim, Trim};
use crate::traits::{CatalogEntry, CatalogEntryView};

verus! {

/// The address of a cover image made absolute: an address that begins with
/// two slashes gets the scheme `https:`; one that begins with one slash
/// stands below the site's base address; any other stays as it is.
pub open spec fn absolute_cover(cover: Seq<char>, base_url: Seq<char>) -> Seq<char> {
    if starts_with(cover, "//"@) {
        "https:"@ + cover
    } else if starts_with(cover, "/"@) {
        base_url + cover
    } else {
        cover
    }
}

/// The address of a cover image made absolute.
pub fn make_absolute(cover: &Vec<char>, base_url: &str) -> (r: Vec<char>)
    ensures
        r@ == absolute_cover(cover@, base_url@),
{
    if begins_with(cover, &chars_of("//")) {
        chain(&chars_of("https:"), cover)
    } else if begins_with(cover, &chars_of("/")) {
        chain(&chars_of(base_url), cover)
    } else {
        crate::order::slice_all(cover)
    }
}

/// The text of an optional string, empty where there is none.
pub open spec fn or_empty(o: Option<Seq<char>>) -> Seq<char> {
    match o {
        Some(s) => s,
        None => Seq::<char>::empty(),
    }
}

/// The characters of an optional string, none where there is no string.
pub fn chars_or_empty(o: &Option<String>) -> (r: Vec<char>)
    ensures
        r@ == or_empty(text_of(*o)),
{
    match o {
        Some(s) => chars_of(s.as_str()),
        None => Vec::new(),
    }
}

/// The views of a vector of catalog rows.
pub open spec fn row_views(rows: Seq<CatalogRow>) -> Seq<CatalogRowView> {
    Seq::new(rows.len(), |i: int| rows[i]@)
}

/// The views of a vector of catalog entries.
pub open spec fn entry_views(entries: Seq<CatalogEntry>) -> Seq<CatalogEntryView> {
    Seq::new(entries.len(), |i: int| entries[i]@)
}


/// What a block of a catalog says, if it lists a title: the block needs an
/// address and a title, both not empty; the title is trimmed. The cover is
/// optional, and made absolute where there is one.
pub open spec fn catalog_entry(row: CatalogRowView, base_url: Seq<char>) -> Option<
    CatalogEntryView,
> {
    let url = or_empty(row.url);
    let title = strip(or_empty(row.title), Trim::WhiteSpace);
    if url.len() == 0 || title.len() == 0 {
        None
    } else {
        let cover = absolute_cover(or_empty(row.cover), base_url);
        Some(
            CatalogEntryView {
                title,
                url,
                cover_url: if cover.len() == 0 {
                    None
                } else {
                    Some(cover)
                },
            },
        )
    }
}

/// The titles that the blocks list, in the blocks' order. A block without
/// title or address is left out.
pub open spec fn catalog(rows: Seq<CatalogRowView>, base_url: Seq<char>) -> Seq<CatalogEntryView>
    decreases rows.len(),
{
    if rows.len() == 0 {
        Seq::<CatalogEntryView>::empty()
    } else {
        let before = catalog(rows.drop_last(), base_url);
        match catalog_entry(rows.last(), base_url) {
            Some(entry) => before.push(entry),
            None => before,
        }
    }
}

/// Every listed title has a name and an address.
pub proof fn lemma_catalog_named(rows: Seq<CatalogRowView>, base_url: Seq<char>)
    ensures
        forall|i: int|
            0 <= i < catalog(rows, base_url).len() ==> (#[trigger] catalog(
                rows,
                base_url,
            )[i]).title.len() > 0 && catalog(rows, base_url)[i].url.len() > 0,
    decreases rows.len(),
{
    if rows.len() > 0 {
        lemma_catalog_named(rows.drop_last(), base_url);
    }
}

/// The titles that the blocks of a catalog list.
pub fn entries_from_rows(base_url: &str, rows: &Vec<CatalogRow>) -> (r: Vec<CatalogEntry>)
    ensures
        entry_views(r@) == catalog(row_views(rows@), base_url@),
        crate::traits::catalogued(r@),
{
    let mut out: Vec<CatalogEntry> = Vec::new();
    let mut i: usize = 0;
    let ghost all = row_views(rows@);
    assert(entry_views(out@) =~= catalog(all.take(0), base_url@));
    while i < rows.len()
        invariant
            i <= rows.len(),
            all == row_views(rows@),
            entry_views(out@) == catalog(all.take(i as int), base_url@),
        decreases rows.len() - i,
    {
        proof {
            assert(all.take(i + 1).drop_last() =~= all.take(i as int));
            assert(all.take(i + 1).last() == rows@[i as int]@);
        }
        let row = &rows[i];
        let url = chars_or_empty(&row.url);
        let title = trim(&chars_or_empty(&row.title), Trim::WhiteSpace);
        if url.len() > 0 && title.len() > 0 {
            let cover = make_absolute(&chars_or_empty(&row.cover), base_url);
            let ghost before = out@;
            out.push(
                CatalogEntry {
                    title: string_of(&title),
                    url: string_of(&url),
                    cover_url: if cover.len() == 0 {
                        None
                    } else {
                        Some(string_of(&cover))
                    },
                },
            );
            assert(entry_views(out@) =~= entry_views(before).push(out@.last()@));
        }
        i += 1;
    }
    assert(all.take(rows.len() as int) =~= all);
    proof {
        lemma_catalog_named(all, base_url@);
        assert forall|k: int| 0 <= k < out@.len() implies (#[trigger] out@[k])@.title.len() > 0
            && out@[k]@.url.len() > 0 by {
            assert(entry_views(out@)[k] == out@[k]@);
        }
    }
    out
}

} // verus!
