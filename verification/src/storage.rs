//! Where a chapter's files live, and the archive that packs them.
//!
//! A chapter's pages stand under
//! `<root>/<sanitized title>/<chapter number>/pages/page_NNN.jpg`, its
//! archive beside the `pages` directory. A path is text with `/` between
//! its segments.

use vstd::prelude::*;
use crate::archive::{file_views, pack, packing_failure, packs, zip_bytes, ArchiveFile};
use crate::config::StorageConfig;
use crate::error::GuLoaderError;
use crate::models::{page_views, Chapter, ChapterPage, PageView};
use crate::number::{
    decimal3, decimal3_text, lemma_text_is_plain, lemma_text_tells_keys_apart, ChapterNumber,
};
use crate::text::{
    chars_of, chain, control, is_control, lemma_strip_ends, starts_with, string_of, strip, trim,
    Trim,
};

verus! {

/// The characters that may not stand in a path segment: the separators and
/// wildcards of the common filesystems, and the control characters.
pub open spec fn is_hostile(c: char) -> bool {
    c == '<' || c == '>' || c == ':' || c == '"' || c == '/' || c == '\\' || c == '|' || c == '?'
        || c == '*' || is_control(c)
}

/// `s` with an underscore in place of each hostile character.
pub open spec fn replaced(s: Seq<char>) -> Seq<char> {
    Seq::new(
        s.len(),
        |i: int|
            if is_hostile(s[i]) {
                '_'
            } else {
                s[i]
            },
    )
}

/// `s` as a path segment: hostile characters replaced, then full stops and
/// spaces trimmed from both ends.
pub open spec fn sanitized(s: Seq<char>) -> Seq<char> {
    strip(replaced(s), Trim::DotsAndSpaces)
}

/// A sanitized text holds no hostile character, and neither begins nor
/// ends with a full stop or a space. So it names neither the directory
/// itself nor its parent, and cannot leave the directory it stands in.
pub proof fn lemma_sanitized_is_safe(s: Seq<char>)
    ensures
        forall|i: int| 0 <= i < sanitized(s).len() ==> !is_hostile(#[trigger] sanitized(s)[i]),
        sanitized(s).len() > 0 ==> sanitized(s)[0] != '.' && sanitized(s)[0] != ' ' && sanitized(
            s,
        ).last() != '.' && sanitized(s).last() != ' ',
        sanitized(s) != seq!['.'],
        sanitized(s) != seq!['.', '.'],
{
    let r = replaced(s);
    lemma_strip_ends(r, Trim::DotsAndSpaces);
    let (a, b) = choose|a: int, b: int|
        0 <= a <= b <= r.len() && strip(r, Trim::DotsAndSpaces) == r.subrange(a, b);
    assert forall|i: int| 0 <= i < sanitized(s).len() implies !is_hostile(
        #[trigger] sanitized(s)[i],
    ) by {
        assert(sanitized(s)[i] == r[a + i]);
    }
    if sanitized(s) == seq!['.'] {
        assert(sanitized(s)[0] == '.');
    }
    if sanitized(s) == seq!['.', '.'] {
        assert(sanitized(s)[0] == '.');
    }
}

/// The directory of a title below `root`.
pub open spec fn title_dir(root: Seq<char>, title: Seq<char>) -> Seq<char> {
    root + "/"@ + sanitized(title)
}

/// The directory of a chapter below `root`: named by the chapter's number.
pub open spec fn chapter_dir(root: Seq<char>, title: Seq<char>, number: ChapterNumber) -> Seq<
    char,
> {
    title_dir(root, title) + "/"@ + number.text()
}

/// The directory of a chapter's pages.
pub open spec fn pages_dir(root: Seq<char>, title: Seq<char>, number: ChapterNumber) -> Seq<char> {
    chapter_dir(root, title, number) + "/pages"@
}

/// The file of the page numbered `page_number`.
pub open spec fn page_file(
    root: Seq<char>,
    title: Seq<char>,
    number: ChapterNumber,
    page_number: nat,
) -> Seq<char> {
    pages_dir(root, title, number) + "/page_"@ + decimal3(page_number) + ".jpg"@
}

/// The file of a chapter's archive: named by the chapter's number.
pub open spec fn archive_file(root: Seq<char>, title: Seq<char>, number: ChapterNumber) -> Seq<
    char,
> {
    chapter_dir(root, title, number) + "/Chapter_"@ + number.text() + ".zip"@
}

/// Chapters of one title with different numbers have different
/// directories, and neither directory lies within the other: what is done
/// to one chapter's directory leaves the other chapter's files alone.
pub proof fn lemma_chapter_dirs_differ(
    root: Seq<char>,
    title: Seq<char>,
    a: ChapterNumber,
    b: ChapterNumber,
)
    requires
        a != b,
    ensures
        chapter_dir(root, title, a) != chapter_dir(root, title, b),
        !starts_with(chapter_dir(root, title, b), chapter_dir(root, title, a) + "/"@),
        pages_dir(root, title, a) != pages_dir(root, title, b),
{
    reveal_strlit("/");
    reveal_strlit("/pages");
    let stem = title_dir(root, title) + "/"@;
    let n = stem.len() as int;
    let da = chapter_dir(root, title, a);
    let db = chapter_dir(root, title, b);
    assert(da.skip(n) =~= a.text());
    assert(db.skip(n) =~= b.text());
    if a.text() == b.text() {
        lemma_text_tells_keys_apart(a, b);
    }
    let within = da + "/"@;
    if starts_with(db, within) {
        let m = within.len() as int;
        assert(db.subrange(0, m) == within);
        assert(db.subrange(0, m)[m - 1] == db[m - 1]);
        assert(within[m - 1] == '/');
        lemma_text_is_plain(b);
        assert(db[m - 1] == b.text()[m - 1 - n]);
    }
    let pa = pages_dir(root, title, a);
    let pb = pages_dir(root, title, b);
    if pa == pb {
        assert(pa.len() == da.len() + 6);
        assert(pb.len() == db.len() + 6);
        assert(pa.take(da.len() as int) =~= da);
        assert(pb.take(db.len() as int) =~= db);
    }
}

/// Milliseconds in a day.
pub const DAY_MILLIS: i64 = 86_400_000;

/// The time `days` days before `now`, as far as the machine counts.
pub open spec fn days_before(now: i64, days: u32) -> i64 {
    if now - days * DAY_MILLIS >= i64::MIN {
        (now - days * DAY_MILLIS) as i64
    } else {
        i64::MIN
    }
}

/// The time before which a download is old: `days` days before `now`.
pub fn retention_cutoff(now: i64, days: u32) -> (r: i64)
    ensures
        r == days_before(now, days),
{
    let span: i64 = (days as i64) * DAY_MILLIS;
    if now >= i64::MIN + span {
        now - span
    } else {
        i64::MIN
    }
}

/// A page file to move: from where its image was saved to where the page
/// belongs.
#[derive(Debug)]
pub struct PageMove {
    pub from: String,
    pub to: String,
}

/// The moves as pairs of paths.
pub open spec fn move_views(moves: Seq<PageMove>) -> Seq<(Seq<char>, Seq<char>)> {
    Seq::new(moves.len(), |k: int| (moves[k].from@, moves[k].to@))
}

/// The pages with each page's file where it belongs: the page at place `k`
/// in the file of the page numbered `k + 1`.
pub open spec fn placed(
    pages: Seq<PageView>,
    root: Seq<char>,
    title: Seq<char>,
    number: ChapterNumber,
) -> Seq<PageView> {
    Seq::new(
        pages.len(),
        |k: int|
            PageView {
                local_path: Some(page_file(root, title, number, (k + 1) as nat)),
                ..pages[k]
            },
    )
}

/// The moves that bring each page's file to where it belongs: from where
/// the page's image was saved to the file of the page numbered `k + 1`.
pub open spec fn page_moves(
    pages: Seq<PageView>,
    root: Seq<char>,
    title: Seq<char>,
    number: ChapterNumber,
) -> Seq<(Seq<char>, Seq<char>)> {
    Seq::new(
        pages.len(),
        |k: int|
            (
                match pages[k].local_path {
                    Some(path) => path,
                    None => page_file(root, title, number, (k + 1) as nat),
                },
                page_file(root, title, number, (k + 1) as nat),
            ),
    )
}

/// Where downloads are kept, and how their paths are made.
pub struct StorageManager {
    pub config: StorageConfig,
}

/// A chapter's archive: where it belongs and what it holds.
#[derive(Debug)]
pub struct ChapterArchive {
    pub path: String,
    pub bytes: Vec<u8>,
}

impl StorageManager {
    /// A manager for the given roots.
    pub fn new(config: &StorageConfig) -> (r: Self)
        ensures
            r.config == *config,
    {
        StorageManager { config: config.clone() }
    }

    /// `filename` as a path segment.
    pub fn sanitize_filename(&self, filename: &str) -> (r: String)
        ensures
            r@ == sanitized(filename@),
            forall|i: int| 0 <= i < r@.len() ==> !is_hostile(#[trigger] r@[i]),
            r@.len() > 0 ==> r@[0] != '.' && r@[0] != ' ' && r@.last() != '.' && r@.last() != ' ',
    {
        let raw = chars_of(filename);
        let mut mapped: Vec<char> = Vec::new();
        let mut i: usize = 0;
        while i < raw.len()
            invariant
                i <= raw.len(),
                mapped@ == replaced(raw@).take(i as int),
            decreases raw.len() - i,
        {
            let c = raw[i];
            let hostile = c == '<' || c == '>' || c == ':' || c == '"' || c == '/' || c == '\\'
                || c == '|' || c == '?' || c == '*' || control(c);
            mapped.push(
                if hostile {
                    '_'
                } else {
                    c
                },
            );
            assert(mapped@ =~= replaced(raw@).take(i + 1));
            i += 1;
        }
        assert(replaced(raw@).take(raw.len() as int) =~= replaced(raw@));
        proof {
            lemma_sanitized_is_safe(filename@);
        }
        string_of(&trim(&mapped, Trim::DotsAndSpaces))
    }

    /// The directory of a title below `root`.
    fn title_path(&self, root: &str, manga_title: &str) -> (r: Vec<char>)
        ensures
            r@ == title_dir(root@, manga_title@),
    {
        let segment = self.sanitize_filename(manga_title);
        chain(&chain(&chars_of(root), &chars_of("/")), &chars_of(segment.as_str()))
    }

    /// The directory of a chapter below `root`.
    fn chapter_path_below(&self, root: &str, manga_title: &str, chapter: &Chapter) -> (r: Vec<char>)
        ensures
            r@ == chapter_dir(root@, manga_title@, chapter.number),
    {
        chain(
            &chain(&self.title_path(root, manga_title), &chars_of("/")),
            &chapter.number.to_text(),
        )
    }

    /// The file of a page below `root`.
    fn page_path_below(
        &self,
        root: &str,
        manga_title: &str,
        chapter: &Chapter,
        page_number: usize,
    ) -> (r: Vec<char>)
        ensures
            r@ == page_file(root@, manga_title@, chapter.number, page_number as nat),
    {
        let pages = chain(&self.chapter_path_below(root, manga_title, chapter), &chars_of("/pages"));
        let name = chain(
            &chain(&chars_of("/page_"), &decimal3_text(page_number as u128)),
            &chars_of(".jpg"),
        );
        let r = chain(&pages, &name);
        assert(r@ =~= page_file(root@, manga_title@, chapter.number, page_number as nat));
        r
    }

    /// The archive of a chapter below `root`, holding `files` in their
    /// order.
    fn archive_below(
        &self,
        root: &str,
        manga_title: &str,
        chapter: &Chapter,
        files: &Vec<ArchiveFile>,
    ) -> (r: Result<ChapterArchive, GuLoaderError>)
        ensures
            match r {
                Ok(archive) => {
                    &&& packs(file_views(files@))
                    &&& archive.path@ == archive_file(root@, manga_title@, chapter.number)
                    &&& zip_bytes(file_views(files@)) == Some(archive.bytes@)
                },
                Err(e) => !packs(file_views(files@)) && packing_failure(file_views(files@))
                    == Some(e@.kind),
            },
    {
        let name = chain(
            &chain(&chars_of("/Chapter_"), &chapter.number.to_text()),
            &chars_of(".zip"),
        );
        let path = chain(&self.chapter_path_below(root, manga_title, chapter), &name);
        assert(path@ =~= archive_file(root@, manga_title@, chapter.number));
        match pack(files) {
            Ok(bytes) => Ok(ChapterArchive { path: string_of(&path), bytes }),
            Err(e) => Err(e),
        }
    }

    /// The root of the automated downloads, or of the manual ones.
    pub open spec fn root(&self, scans: bool) -> Seq<char> {
        if scans {
            self.config.scans_path@
        } else {
            self.config.base_path@
        }
    }

    /// Gives each page of a chapter the file where it belongs, by its place
    /// among the pages: the pages with their files, and the moves that
    /// bring each file from where the image was saved to there.
    pub fn place_pages(&self, scans: bool, chapter: &Chapter, pages: &Vec<ChapterPage>) -> (r: (
        Vec<ChapterPage>,
        Vec<PageMove>,
    ))
        ensures
            page_views(r.0@) == placed(
                page_views(pages@),
                self.root(scans),
                chapter@.manga_title,
                chapter.number,
            ),
            move_views(r.1@) == page_moves(
                page_views(pages@),
                self.root(scans),
                chapter@.manga_title,
                chapter.number,
            ),
    {
        let mut out: Vec<ChapterPage> = Vec::new();
        let mut moves: Vec<PageMove> = Vec::new();
        let ghost all = placed(
            page_views(pages@),
            self.root(scans),
            chapter@.manga_title,
            chapter.number,
        );
        let ghost paths = page_moves(
            page_views(pages@),
            self.root(scans),
            chapter@.manga_title,
            chapter.number,
        );
        let mut k: usize = 0;
        while k < pages.len()
            invariant
                k <= pages.len(),
                out@.len() == k,
                moves@.len() == k,
                all == placed(
                    page_views(pages@),
                    self.root(scans),
                    chapter@.manga_title,
                    chapter.number,
                ),
                paths == page_moves(
                    page_views(pages@),
                    self.root(scans),
                    chapter@.manga_title,
                    chapter.number,
                ),
                forall|j: int| 0 <= j < k ==> (#[trigger] out@[j])@ == all[j],
                forall|j: int|
                    0 <= j < k ==> ((#[trigger] moves@[j]).from@, moves@[j].to@) == paths[j],
            decreases pages.len() - k,
        {
            let page = &pages[k];
            let target = if scans {
                self.get_scans_chapter_page_path(chapter.manga_title.as_str(), chapter, k + 1)
            } else {
                self.get_chapter_page_path(chapter.manga_title.as_str(), chapter, k + 1)
            };
            let from = match &page.local_path {
                Some(path) => path.clone(),
                None => target.clone(),
            };
            moves.push(PageMove { from, to: target.clone() });
            out.push(
                ChapterPage {
                    id: page.id.clone(),
                    chapter_id: page.chapter_id.clone(),
                    page_number: page.page_number,
                    image_url: page.image_url.clone(),
                    local_path: Some(target),
                    file_size_bytes: page.file_size_bytes,
                    downloaded_at: page.downloaded_at,
                    created_at: page.created_at,
                },
            );
            k += 1;
        }
        assert(page_views(out@) =~= all);
        assert(move_views(moves@) =~= paths);
        (out, moves)
    }

    /// The directory of a title among the manual downloads.
    pub fn get_manga_path(&self, manga_title: &str) -> (r: String)
        ensures
            r@ == title_dir(self.config.base_path@, manga_title@),
    {
        string_of(&self.title_path(self.config.base_path.as_str(), manga_title))
    }

    /// The directory of a title among the automated downloads.
    pub fn get_scans_manga_path(&self, manga_title: &str) -> (r: String)
        ensures
            r@ == title_dir(self.config.scans_path@, manga_title@),
    {
        string_of(&self.title_path(self.config.scans_path.as_str(), manga_title))
    }

    /// The directory of a chapter among the automated downloads.
    pub fn get_scans_chapter_path(&self, manga_title: &str, chapter: &Chapter) -> (r: String)
        ensures
            r@ == chapter_dir(self.config.scans_path@, manga_title@, chapter.number),
    {
        string_of(&self.chapter_path_below(self.config.scans_path.as_str(), manga_title, chapter))
    }

    /// The directory of a chapter's pages among the automated downloads.
    pub fn get_scans_chapter_pages_path(&self, manga_title: &str, chapter: &Chapter) -> (r: String)
        ensures
            r@ == pages_dir(self.config.scans_path@, manga_title@, chapter.number),
    {
        string_of(
            &chain(
                &self.chapter_path_below(self.config.scans_path.as_str(), manga_title, chapter),
                &chars_of("/pages"),
            ),
        )
    }

    /// The file of a page among the automated downloads.
    pub fn get_scans_chapter_page_path(
        &self,
        manga_title: &str,
        chapter: &Chapter,
        page_number: usize,
    ) -> (r: String)
        ensures
            r@ == page_file(
                self.config.scans_path@,
                manga_title@,
                chapter.number,
                page_number as nat,
            ),
    {
        string_of(
            &self.page_path_below(
                self.config.scans_path.as_str(),
                manga_title,
                chapter,
                page_number,
            ),
        )
    }

    /// The archive of a chapter among the automated downloads: its place
    /// beside the chapter's `pages` directory, and the ZIP container that
    /// holds `files`, the files of that directory, in their order.
    pub fn create_scans_chapter_zip(
        &self,
        manga_title: &str,
        chapter: &Chapter,
        files: &Vec<ArchiveFile>,
    ) -> (r: Result<ChapterArchive, GuLoaderError>)
        ensures
            match r {
                Ok(archive) => {
                    &&& packs(file_views(files@))
                    &&& archive.path@ == archive_file(
                        self.config.scans_path@,
                        manga_title@,
                        chapter.number,
                    )
                    &&& zip_bytes(file_views(files@)) == Some(archive.bytes@)
                },
                Err(e) => !packs(file_views(files@)) && packing_failure(file_views(files@))
                    == Some(e@.kind),
            },
    {
        self.archive_below(self.config.scans_path.as_str(), manga_title, chapter, files)
    }

    /// The directory of a chapter among the manual downloads.
    pub fn get_chapter_path(&self, manga_title: &str, chapter: &Chapter) -> (r: String)
        ensures
            r@ == chapter_dir(self.config.base_path@, manga_title@, chapter.number),
    {
        string_of(&self.chapter_path_below(self.config.base_path.as_str(), manga_title, chapter))
    }

    /// The directory of a chapter's pages among the manual downloads.
    pub fn get_chapter_pages_path(&self, manga_title: &str, chapter: &Chapter) -> (r: String)
        ensures
            r@ == pages_dir(self.config.base_path@, manga_title@, chapter.number),
    {
        string_of(
            &chain(
                &self.chapter_path_below(self.config.base_path.as_str(), manga_title, chapter),
                &chars_of("/pages"),
            ),
        )
    }

    /// The file of a page among the manual downloads.
    pub fn get_chapter_page_path(
        &self,
        manga_title: &str,
        chapter: &Chapter,
        page_number: usize,
    ) -> (r: String)
        ensures
            r@ == page_file(
                self.config.base_path@,
                manga_title@,
                chapter.number,
                page_number as nat,
            ),
    {
        string_of(
            &self.page_path_below(self.config.base_path.as_str(), manga_title, chapter, page_number),
        )
    }

    /// The archive of a chapter among the manual downloads: its place
    /// beside the chapter's `pages` directory, and the ZIP container that
    /// holds `files`, the files of that directory, in their order.
    pub fn create_chapter_zip(
        &self,
        manga_title: &str,
        chapter: &Chapter,
        files: &Vec<ArchiveFile>,
    ) -> (r: Result<ChapterArchive, GuLoaderError>)
        ensures
            match r {
                Ok(archive) => {
                    &&& packs(file_views(files@))
                    &&& archive.path@ == archive_file(
                        self.config.base_path@,
                        manga_title@,
                        chapter.number,
                    )
                    &&& zip_bytes(file_views(files@)) == Some(archive.bytes@)
                },
                Err(e) => !packs(file_views(files@)) && packing_failure(file_views(files@))
                    == Some(e@.kind),
            },
    {
        self.archive_below(self.config.base_path.as_str(), manga_title, chapter, files)
    }
}

} // verus!
