//! Page extraction for the Eros site family: the chapter page embeds the
//! reader's payload in an inline script, and the payload lists the images.

use vstd::prelude::*;
use crate::config::SiteConfig;
use crate::downloaders::{lemma_shows_extracted, pages_of, settle_pages, shows, PageFetch};
use crate::error::{ErrorKind, ErrorView, GuLoaderError};
use crate::models::{Chapter, ChapterPage};
use crate::pattern::{find_all, regex_matches};
use crate::text::{
    begins_with, chars_of, contains, discard, discard_pattern, find, first_match, holds,
    slice, split, split_on, starts_with, string_of, strings, strip, texts, trim, without,
    without_pattern, Trim,
};
use crate::traits::ChapterDownloader;

verus! {

/// The call that hands the reader its payload.
pub const READER_CALL: &'static str = "ts_reader.run(";

/// The end of the call.
pub const CALL_END: &'static str = ");";

/// The key of the payload's list of images, with the list's opening bracket.
pub const IMAGES_KEY: &'static str = "\"images\":[";

/// An escaped absolute address of an image.
pub const IMAGE_PATTERN: &'static str = r#"https:\\\\\\/[^\\"]+\.(webp|jpg|jpeg|png)"#;

/// Why a chapter page yields no pages.
#[derive(Clone, Copy, PartialEq, Eq, Structural, Debug)]
pub enum PayloadFailure {
    /// The page does not call the reader.
    NoReaderCall,
    /// The call to the reader does not end.
    NoCallEnd,
    /// The payload has no list of images.
    NoImages,
    /// The list of images is not closed.
    Unbalanced,
    /// The list holds no address of an image.
    NoPages,
}

impl PayloadFailure {
    /// The failure in words.
    pub open spec fn words(self) -> Seq<char> {
        match self {
            PayloadFailure::NoReaderCall => "ts_reader.run not found in the page"@,
            PayloadFailure::NoCallEnd => "end of ts_reader.run not found"@,
            PayloadFailure::NoImages => "images array not found"@,
            PayloadFailure::Unbalanced => "end of the images array not found"@,
            PayloadFailure::NoPages => "no pages found for the chapter"@,
        }
    }

    /// The failure as the pipeline's extraction failure.
    pub open spec fn error(self) -> ErrorView {
        ErrorView { kind: ErrorKind::Scraping, detail: self.words() }
    }

    /// The failure as the pipeline's extraction failure.
    pub fn to_error(self) -> (e: GuLoaderError)
        ensures
            e@ == self.error(),
    {
        match self {
            PayloadFailure::NoReaderCall => GuLoaderError::scraping(
                "ts_reader.run not found in the page",
            ),
            PayloadFailure::NoCallEnd => GuLoaderError::scraping("end of ts_reader.run not found"),
            PayloadFailure::NoImages => GuLoaderError::scraping("images array not found"),
            PayloadFailure::Unbalanced => GuLoaderError::scraping(
                "end of the images array not found",
            ),
            PayloadFailure::NoPages => GuLoaderError::scraping("no pages found for the chapter"),
        }
    }
}

/// The opening brackets of `s` less its closing brackets.
pub open spec fn depth(s: Seq<char>) -> int
    decreases s.len(),
{
    if s.len() == 0 {
        0
    } else {
        depth(s.drop_last()) + if s.last() == '[' {
            1int
        } else if s.last() == ']' {
            -1int
        } else {
            0int
        }
    }
}

/// The first `k` characters of `s` end with a closing bracket that brings
/// the depth back to zero.
pub open spec fn closes_at(s: Seq<char>, k: int) -> bool {
    0 < k <= s.len() && s[k - 1] == ']' && depth(s.take(k)) == 0
}

/// `k` is the least length at which `s` closes.
pub open spec fn is_closing(s: Seq<char>, k: int) -> bool {
    closes_at(s, k) && forall|j: int| 0 < j < k ==> !closes_at(s, j)
}

/// The length of the shortest prefix of `s` that ends with a closing
/// bracket at depth zero, if there is one.
pub open spec fn closing(s: Seq<char>) -> Option<int> {
    if exists|k: int| is_closing(s, k) {
        Some(choose|k: int| is_closing(s, k))
    } else {
        None
    }
}

/// The depth of a prefix is bounded by its length.
pub proof fn lemma_depth_bounds(s: Seq<char>)
    ensures
        -s.len() <= depth(s) <= s.len(),
    decreases s.len(),
{
    if s.len() > 0 {
        lemma_depth_bounds(s.drop_last());
    }
}

/// The length of the shortest prefix of `s` that ends with a closing
/// bracket at depth zero.
pub fn find_closing(s: &Vec<char>) -> (r: Option<usize>)
    ensures
        match r {
            Some(k) => closing(s@) == Some(k as int) && 0 < k <= s.len(),
            None => closing(s@) is None,
        },
{
    let mut level: i128 = 0;
    let mut i: usize = 0;
    assert(s@.take(0) =~= Seq::<char>::empty());
    while i < s.len()
        invariant
            i <= s.len(),
            level == depth(s@.take(i as int)),
            forall|j: int| 0 < j <= i ==> !closes_at(s@, j),
        decreases s.len() - i,
    {
        proof {
            assert(s@.take(i + 1).drop_last() =~= s@.take(i as int));
            assert(s@.take(i + 1).last() == s@[i as int]);
            lemma_depth_bounds(s@.take(i as int));
        }
        let c = s[i];
        if c == '[' {
            level = level + 1;
        } else if c == ']' {
            level = level - 1;
            if level == 0 {
                proof {
                    let k = i + 1;
                    assert(is_closing(s@, k));
                    let w = choose|w: int| is_closing(s@, w);
                    if w < k {
                        assert(!closes_at(s@, w));
                    } else if k < w {
                        assert(!closes_at(s@, k));
                    }
                }
                return Some(i + 1);
            }
        }
        i += 1;
    }
    None
}

/// The list of images in the page's payload, from its key to its closing
/// bracket: the text after the first reader call, up to the call's end,
/// from the first images key, up to the bracket that closes the list.
pub open spec fn images_array(html: Seq<char>) -> Result<Seq<char>, PayloadFailure> {
    match first_match(html, READER_CALL@) {
        None => Err(PayloadFailure::NoReaderCall),
        Some(start) => {
            let after = html.skip(start);
            match first_match(after, CALL_END@) {
                None => Err(PayloadFailure::NoCallEnd),
                Some(end) => {
                    let call = after.take(end);
                    match first_match(call, IMAGES_KEY@) {
                        None => Err(PayloadFailure::NoImages),
                        Some(at) => {
                            let rest = call.skip(at);
                            match closing(rest) {
                                None => Err(PayloadFailure::Unbalanced),
                                Some(close) => Ok(rest.take(close)),
                            }
                        },
                    }
                },
            }
        },
    }
}

/// The list of images in the page's payload.
pub fn locate_images(html: &Vec<char>) -> (r: Result<Vec<char>, PayloadFailure>)
    ensures
        match r {
            Ok(array) => images_array(html@) == Ok::<Seq<char>, PayloadFailure>(array@),
            Err(e) => images_array(html@) == Err::<Seq<char>, PayloadFailure>(e),
        },
{
    let start = match find(html, &chars_of(READER_CALL)) {
        Some(i) => i,
        None => {
            return Err(PayloadFailure::NoReaderCall);
        },
    };
    let after = slice(html, start, html.len());
    assert(after@ =~= html@.skip(start as int));
    let end = match find(&after, &chars_of(CALL_END)) {
        Some(i) => i,
        None => {
            return Err(PayloadFailure::NoCallEnd);
        },
    };
    let call = slice(&after, 0, end);
    assert(call@ =~= after@.take(end as int));
    let at = match find(&call, &chars_of(IMAGES_KEY)) {
        Some(i) => i,
        None => {
            return Err(PayloadFailure::NoImages);
        },
    };
    let rest = slice(&call, at, call.len());
    assert(rest@ =~= call@.skip(at as int));
    match find_closing(&rest) {
        None => Err(PayloadFailure::Unbalanced),
        Some(close) => {
            let array = slice(&rest, 0, close);
            assert(array@ =~= rest@.take(close as int));
            Ok(array)
        },
    }
}

/// The characters that the fallback removes from a piece of the list.
pub open spec fn wrapping() -> Seq<char> {
    seq!['"', '\\', ']']
}

/// A piece of the list as an address: trimmed, without quotes, backslashes
/// and closing brackets.
pub open spec fn unwrapped(piece: Seq<char>) -> Seq<char> {
    without(strip(piece, Trim::WhiteSpace), wrapping())
}

/// An address of an image over HTTPS.
pub open spec fn is_image_address(url: Seq<char>) -> bool {
    starts_with(url, "https://"@) && (contains(url, ".webp"@) || contains(url, ".jpg"@)
        || contains(url, ".jpeg"@) || contains(url, ".png"@))
}

/// The pieces that are addresses of images, unwrapped, in order.
pub open spec fn image_addresses(pieces: Seq<Seq<char>>) -> Seq<Seq<char>>
    decreases pieces.len(),
{
    if pieces.len() == 0 {
        Seq::<Seq<char>>::empty()
    } else {
        let before = image_addresses(pieces.drop_last());
        let url = unwrapped(pieces.last());
        if is_image_address(url) {
            before.push(url)
        } else {
            before
        }
    }
}

/// The addresses that the fallback reads from the list: the list without
/// its key, split at commas, each piece unwrapped and kept where it is the
/// address of an image.
pub open spec fn fallback_addresses(array: Seq<char>) -> Seq<Seq<char>> {
    image_addresses(split_on(without_pattern(array, IMAGES_KEY@), ','))
}

/// The matches of the image pattern without their backslashes.
pub open spec fn unescaped(found: Seq<Seq<char>>) -> Seq<Seq<char>> {
    Seq::new(found.len(), |i: int| without(found[i], seq!['\\']))
}

/// The addresses of the images that the list names: the matches of the
/// image pattern, unescaped; or, where the pattern finds nothing, what the
/// fallback reads.
pub open spec fn addresses(array: Seq<char>, found: Option<Seq<Seq<char>>>) -> Seq<Seq<char>> {
    match found {
        Some(matches) => if matches.len() > 0 {
            unescaped(matches)
        } else {
            fallback_addresses(array)
        },
        None => fallback_addresses(array),
    }
}

/// The extractor of the Eros site family.
pub struct ErosDownloader {}

/// Whether `url` is the address of an image over HTTPS.
pub fn image_address(url: &Vec<char>) -> (b: bool)
    ensures
        b == is_image_address(url@),
{
    begins_with(url, &chars_of("https://")) && (holds(url, &chars_of(".webp")) || holds(
        url,
        &chars_of(".jpg"),
    ) || holds(url, &chars_of(".jpeg")) || holds(url, &chars_of(".png")))
}

impl ErosDownloader {
    /// The extractor of the Eros site family.
    pub fn new() -> (r: Self)
        ensures
            r == (ErosDownloader {  }),
    {
        ErosDownloader {  }
    }

    /// The addresses that the fallback reads from the list of images.
    pub fn fallback_urls(array: &Vec<char>) -> (r: Vec<String>)
        ensures
            strings(r@) == fallback_addresses(array@),
    {
        let clean = discard_pattern(array, &chars_of(IMAGES_KEY));
        let pieces = split(&clean, ',');
        let mut junk: Vec<char> = Vec::new();
        junk.push('"');
        junk.push('\\');
        junk.push(']');
        assert(junk@ =~= wrapping());
        let mut urls: Vec<String> = Vec::new();
        let mut i: usize = 0;
        let ghost all = texts(pieces@);
        assert(all.take(0) =~= Seq::<Seq<char>>::empty());
        assert(strings(urls@) =~= image_addresses(all.take(0)));
        while i < pieces.len()
            invariant
                i <= pieces.len(),
                all == texts(pieces@),
                junk@ == wrapping(),
                strings(urls@) == image_addresses(all.take(i as int)),
            decreases pieces.len() - i,
        {
            proof {
                assert(all.take(i + 1).drop_last() =~= all.take(i as int));
                assert(all.take(i + 1).last() == pieces@[i as int]@);
            }
            let url = discard(&trim(&pieces[i], Trim::WhiteSpace), &junk);
            if image_address(&url) {
                let ghost before = urls@;
                urls.push(string_of(&url));
                assert(strings(urls@) =~= strings(before).push(url@));
            }
            i += 1;
        }
        assert(all.take(pieces.len() as int) =~= all);
        urls
    }

    /// The fallback: the pages that the list of images names, read piece by
    /// piece.
    pub fn parse_images_fallback(&self, array: &Vec<char>, chapter: &Chapter) -> (r: Result<
        Vec<ChapterPage>,
        GuLoaderError,
    >)
        ensures
            match r {
                Ok(pages) => shows(pages@, chapter@.id, fallback_addresses(array@)) && pages@.len()
                    > 0,
                Err(e) => fallback_addresses(array@).len() == 0 && e@
                    == PayloadFailure::NoPages.error(),
            },
    {
        let urls = ErosDownloader::fallback_urls(array);
        if urls.len() == 0 {
            return Err(PayloadFailure::NoPages.to_error());
        }
        Ok(pages_of(&chapter.id, urls))
    }

    /// The pages that the list of images names, given what the image
    /// pattern found in it.
    pub fn pages_from_matches(
        &self,
        array: &Vec<char>,
        found: &Option<Vec<String>>,
        chapter: &Chapter,
    ) -> (r: Result<Vec<ChapterPage>, GuLoaderError>)
        ensures
            match r {
                Ok(pages) => shows(pages@, chapter@.id, addresses(array@, found_texts(*found)))
                    && pages@.len() > 0,
                Err(e) => addresses(array@, found_texts(*found)).len() == 0 && e@
                    == PayloadFailure::NoPages.error(),
            },
    {
        match found {
            Some(matches) => {
                if matches.len() > 0 {
                    let mut slash: Vec<char> = Vec::new();
                    slash.push('\\');
                    assert(slash@ =~= seq!['\\']);
                    let mut urls: Vec<String> = Vec::new();
                    let mut i: usize = 0;
                    while i < matches.len()
                        invariant
                            i <= matches.len(),
                            slash@ == seq!['\\'],
                            urls@.len() == i,
                            forall|k: int|
                                0 <= k < i ==> (#[trigger] urls@[k])@ == without(
                                    matches@[k]@,
                                    seq!['\\'],
                                ),
                        decreases matches.len() - i,
                    {
                        let url = discard(&chars_of(matches[i].as_str()), &slash);
                        urls.push(string_of(&url));
                        i += 1;
                    }
                    assert(strings(urls@) =~= unescaped(strings(matches@)));
                    Ok(pages_of(&chapter.id, urls))
                } else {
                    self.parse_images_fallback(array, chapter)
                }
            },
            None => self.parse_images_fallback(array, chapter),
        }
    }
}

/// The views of the texts that the image pattern found.
pub open spec fn found_texts(found: Option<Vec<String>>) -> Option<Seq<Seq<char>>> {
    match found {
        Some(matches) => Some(strings(matches@)),
        None => None,
    }
}

/// What a chapter page yields: the addresses of its images in order, or the
/// reason why there are none.
pub open spec fn page_addresses(html: Seq<char>) -> Result<Seq<Seq<char>>, PayloadFailure> {
    match images_array(html) {
        Err(e) => Err(e),
        Ok(array) => {
            let urls = addresses(array, regex_matches(IMAGE_PATTERN@, array));
            if urls.len() == 0 {
                Err(PayloadFailure::NoPages)
            } else {
                Ok(urls)
            }
        },
    }
}

/// What extraction from a chapter page gives: one page for each address
/// that the page's payload names, in order; or the reason why it names
/// none.
pub open spec fn eros_extraction(
    html: Seq<char>,
    chapter_id: Seq<char>,
    r: Result<Vec<ChapterPage>, GuLoaderError>,
) -> bool {
    match r {
        Ok(pages) => page_addresses(html) matches Ok(urls) && shows(pages@, chapter_id, urls),
        Err(e) => page_addresses(html) matches Err(f) && e@ == f.error(),
    }
}

impl ChapterDownloader for ErosDownloader {
    /// The pages that the reader's payload in the chapter page names.
    fn get_chapter_images(&self, config: &SiteConfig, html: &str, chapter: &Chapter) -> (r: Result<
        Vec<ChapterPage>,
        GuLoaderError,
    >)
        ensures
            eros_extraction(html@, chapter@.id, r),
    {
        let document = chars_of(html);
        let array = match locate_images(&document) {
            Ok(array) => array,
            Err(failure) => {
                return Err(failure.to_error());
            },
        };
        let found = find_all(IMAGE_PATTERN, string_of(&array).as_str());
        let r = self.pages_from_matches(&array, &found, chapter);
        proof {
            if r is Ok {
                lemma_shows_extracted(
                    r->Ok_0@,
                    chapter@.id,
                    addresses(array@, found_texts(found)),
                );
            }
        }
        r
    }

    fn download_chapter(
        &self,
        config: &SiteConfig,
        chapter: &Chapter,
        pages: &Vec<ChapterPage>,
        fetches: &Vec<PageFetch>,
    ) -> (r: Result<Vec<ChapterPage>, GuLoaderError>) {
        settle_pages(pages, fetches)
    }
}

} // verus!
