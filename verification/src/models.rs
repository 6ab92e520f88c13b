//! The records of the pipeline: titles, chapters, pages and scan records.
//!
//! Times are milliseconds since the Unix epoch. Every record has a view in
//! which its texts are sequences of characters; contracts speak of views.

use vstd::prelude::*;
use crate::number::ChapterNumber;
use crate::stamp::{fresh_id, now_millis};

verus! {

/// The lifecycle of a title.
#[derive(Clone, Copy, PartialEq, Eq, Structural, Debug)]
pub enum MangaStatus {
    Active,
    Paused,
    Completed,
    Error,
}

/// The lifecycle of a chapter.
#[derive(Clone, Copy, PartialEq, Eq, Structural, Debug)]
pub enum ChapterStatus {
    Pending,
    Downloading,
    Downloaded,
    Failed,
    Deleted,
}

/// The outcome of a scan.
#[derive(Clone, Copy, PartialEq, Eq, Structural, Debug)]
pub enum ScanStatus {
    Success,
    Partial,
    Failed,
}

impl MangaStatus {
    /// The status in words.
    pub open spec fn name(self) -> Seq<char> {
        match self {
            MangaStatus::Active => "Active"@,
            MangaStatus::Paused => "Paused"@,
            MangaStatus::Completed => "Completed"@,
            MangaStatus::Error => "Error"@,
        }
    }

    /// The status in words.
    pub fn label(&self) -> (r: String)
        ensures
            r@ == self.name(),
    {
        match self {
            MangaStatus::Active => "Active".to_owned(),
            MangaStatus::Paused => "Paused".to_owned(),
            MangaStatus::Completed => "Completed".to_owned(),
            MangaStatus::Error => "Error".to_owned(),
        }
    }
}

/// The view of an optional text.
pub open spec fn text_of(o: Option<String>) -> Option<Seq<char>> {
    match o {
        Some(s) => Some(s@),
        None => None,
    }
}

/// A copy of an optional text.
pub fn copy_text(o: &Option<String>) -> (r: Option<String>)
    ensures
        r == *o,
{
    match o {
        Some(s) => Some(s.clone()),
        None => None,
    }
}

/// A monitored title.
#[derive(Debug)]
pub struct Manga {
    pub id: String,
    pub title: String,
    pub site: String,
    pub url: String,
    pub description: Option<String>,
    pub cover_url: Option<String>,
    pub status: MangaStatus,
    pub chapter_count: usize,
    pub last_updated: i64,
    pub created_at: i64,
    pub updated_at: i64,
}

/// A title with its texts as sequences of characters.
pub struct MangaView {
    pub id: Seq<char>,
    pub title: Seq<char>,
    pub site: Seq<char>,
    pub url: Seq<char>,
    pub description: Option<Seq<char>>,
    pub cover_url: Option<Seq<char>>,
    pub status: MangaStatus,
    pub chapter_count: nat,
    pub last_updated: int,
    pub created_at: int,
    pub updated_at: int,
}

impl View for Manga {
    type V = MangaView;

    open spec fn view(&self) -> MangaView {
        MangaView {
            id: self.id@,
            title: self.title@,
            site: self.site@,
            url: self.url@,
            description: text_of(self.description),
            cover_url: text_of(self.cover_url),
            status: self.status,
            chapter_count: self.chapter_count as nat,
            last_updated: self.last_updated as int,
            created_at: self.created_at as int,
            updated_at: self.updated_at as int,
        }
    }
}

impl Clone for Manga {
    fn clone(&self) -> (r: Self)
        ensures
            r == *self,
    {
        Manga {
            id: self.id.clone(),
            title: self.title.clone(),
            site: self.site.clone(),
            url: self.url.clone(),
            description: copy_text(&self.description),
            cover_url: copy_text(&self.cover_url),
            status: self.status,
            chapter_count: self.chapter_count,
            last_updated: self.last_updated,
            created_at: self.created_at,
            updated_at: self.updated_at,
        }
    }
}

impl MangaView {
    /// A title as it enters the store: active, without chapters, created
    /// and updated at the same moment, without a description.
    pub open spec fn entered(
        id: Seq<char>,
        now: int,
        title: Seq<char>,
        site: Seq<char>,
        url: Seq<char>,
        cover_url: Option<Seq<char>>,
    ) -> MangaView {
        MangaView {
            id,
            title,
            site,
            url,
            description: None,
            cover_url,
            status: MangaStatus::Active,
            chapter_count: 0,
            last_updated: now,
            created_at: now,
            updated_at: now,
        }
    }

    /// The title is a newly entered one with the given contents, whatever
    /// its identifier and creation time.
    pub open spec fn is_entry_of(
        self,
        title: Seq<char>,
        site: Seq<char>,
        url: Seq<char>,
        cover_url: Option<Seq<char>>,
    ) -> bool {
        self == MangaView::entered(self.id, self.created_at, title, site, url, cover_url)
    }
}

impl Manga {
    /// An active title without chapters, with the given identifier and
    /// creation time.
    pub fn stamped(
        id: String,
        now: i64,
        title: String,
        site: String,
        url: String,
        cover_url: Option<String>,
    ) -> (r: Manga)
        ensures
            r@ == MangaView::entered(id@, now as int, title@, site@, url@, text_of(cover_url)),
    {
        Manga {
            id,
            title,
            site,
            url,
            description: None,
            cover_url,
            status: MangaStatus::Active,
            chapter_count: 0,
            last_updated: now,
            created_at: now,
            updated_at: now,
        }
    }

    /// An active title without chapters, with a fresh identifier, created
    /// now.
    pub fn new(title: String, site: String, url: String, cover_url: Option<String>) -> (r: Manga)
        ensures
            r@.is_entry_of(title@, site@, url@, text_of(cover_url)),
    {
        Manga::stamped(fresh_id(), now_millis(), title, site, url, cover_url)
    }
}

/// One discovered installment of a title.
#[derive(Debug)]
pub struct Chapter {
    pub id: String,
    pub manga_id: String,
    pub manga_title: String,
    pub title: String,
    pub number: ChapterNumber,
    pub url: String,
    pub page_count: usize,
    pub file_size_bytes: Option<i64>,
    pub status: ChapterStatus,
    pub downloaded_at: Option<i64>,
    pub created_at: i64,
    pub updated_at: i64,
}

/// A chapter with its texts as sequences of characters.
pub struct ChapterView {
    pub id: Seq<char>,
    pub manga_id: Seq<char>,
    pub manga_title: Seq<char>,
    pub title: Seq<char>,
    pub number: ChapterNumber,
    pub url: Seq<char>,
    pub page_count: nat,
    pub file_size_bytes: Option<i64>,
    pub status: ChapterStatus,
    pub downloaded_at: Option<i64>,
    pub created_at: int,
    pub updated_at: int,
}

impl View for Chapter {
    type V = ChapterView;

    open spec fn view(&self) -> ChapterView {
        ChapterView {
            id: self.id@,
            manga_id: self.manga_id@,
            manga_title: self.manga_title@,
            title: self.title@,
            number: self.number,
            url: self.url@,
            page_count: self.page_count as nat,
            file_size_bytes: self.file_size_bytes,
            status: self.status,
            downloaded_at: self.downloaded_at,
            created_at: self.created_at as int,
            updated_at: self.updated_at as int,
        }
    }
}

impl Clone for Chapter {
    fn clone(&self) -> (r: Self)
        ensures
            r == *self,
    {
        Chapter {
            id: self.id.clone(),
            manga_id: self.manga_id.clone(),
            manga_title: self.manga_title.clone(),
            title: self.title.clone(),
            number: self.number,
            url: self.url.clone(),
            page_count: self.page_count,
            file_size_bytes: self.file_size_bytes,
            status: self.status,
            downloaded_at: self.downloaded_at,
            created_at: self.created_at,
            updated_at: self.updated_at,
        }
    }
}

impl ChapterView {
    /// A chapter as discovery creates it: pending, without pages, created
    /// and updated at the same moment.
    pub open spec fn discovered(
        id: Seq<char>,
        now: int,
        manga_id: Seq<char>,
        manga_title: Seq<char>,
        title: Seq<char>,
        number: ChapterNumber,
        url: Seq<char>,
    ) -> ChapterView {
        ChapterView {
            id,
            manga_id,
            manga_title,
            title,
            number,
            url,
            page_count: 0,
            file_size_bytes: None,
            status: ChapterStatus::Pending,
            downloaded_at: None,
            created_at: now,
            updated_at: now,
        }
    }

    /// The chapter is a newly discovered one with the given contents,
    /// whatever its identifier and creation time.
    pub open spec fn is_discovery_of(
        self,
        manga_id: Seq<char>,
        manga_title: Seq<char>,
        title: Seq<char>,
        number: ChapterNumber,
        url: Seq<char>,
    ) -> bool {
        self == ChapterView::discovered(
            self.id,
            self.created_at,
            manga_id,
            manga_title,
            title,
            number,
            url,
        )
    }
}

impl Chapter {
    /// A pending chapter with the given identifier and creation time.
    pub fn stamped(
        id: String,
        now: i64,
        manga_id: String,
        manga_title: String,
        title: String,
        number: ChapterNumber,
        url: String,
    ) -> (r: Chapter)
        ensures
            r@ == ChapterView::discovered(
                id@,
                now as int,
                manga_id@,
                manga_title@,
                title@,
                number,
                url@,
            ),
    {
        Chapter {
            id,
            manga_id,
            manga_title,
            title,
            number,
            url,
            page_count: 0,
            file_size_bytes: None,
            status: ChapterStatus::Pending,
            downloaded_at: None,
            created_at: now,
            updated_at: now,
        }
    }

    /// A pending chapter with a fresh identifier, created now.
    pub fn new(
        manga_id: String,
        manga_title: String,
        title: String,
        number: ChapterNumber,
        url: String,
    ) -> (r: Chapter)
        ensures
            r@.is_discovery_of(manga_id@, manga_title@, title@, number, url@),
    {
        Chapter::stamped(fresh_id(), now_millis(), manga_id, manga_title, title, number, url)
    }
}

/// One image of a chapter.
#[derive(Debug)]
pub struct ChapterPage {
    pub id: String,
    pub chapter_id: String,
    pub page_number: usize,
    pub image_url: String,
    pub local_path: Option<String>,
    pub file_size_bytes: Option<i64>,
    pub downloaded_at: Option<i64>,
    pub created_at: i64,
}

/// A page with its texts as sequences of characters.
pub struct PageView {
    pub id: Seq<char>,
    pub chapter_id: Seq<char>,
    pub page_number: nat,
    pub image_url: Seq<char>,
    pub local_path: Option<Seq<char>>,
    pub file_size_bytes: Option<i64>,
    pub downloaded_at: Option<i64>,
    pub created_at: int,
}

impl View for ChapterPage {
    type V = PageView;

    open spec fn view(&self) -> PageView {
        PageView {
            id: self.id@,
            chapter_id: self.chapter_id@,
            page_number: self.page_number as nat,
            image_url: self.image_url@,
            local_path: text_of(self.local_path),
            file_size_bytes: self.file_size_bytes,
            downloaded_at: self.downloaded_at,
            created_at: self.created_at as int,
        }
    }
}

/// The views of a vector of pages.
pub open spec fn page_views(pages: Seq<ChapterPage>) -> Seq<PageView> {
    Seq::new(pages.len(), |i: int| pages[i]@)
}

impl Clone for ChapterPage {
    fn clone(&self) -> (r: Self)
        ensures
            r == *self,
    {
        ChapterPage {
            id: self.id.clone(),
            chapter_id: self.chapter_id.clone(),
            page_number: self.page_number,
            image_url: self.image_url.clone(),
            local_path: copy_text(&self.local_path),
            file_size_bytes: self.file_size_bytes,
            downloaded_at: self.downloaded_at,
            created_at: self.created_at,
        }
    }
}

impl PageView {
    /// A page as extraction creates it: not yet downloaded.
    pub open spec fn extracted(
        id: Seq<char>,
        now: int,
        chapter_id: Seq<char>,
        page_number: nat,
        image_url: Seq<char>,
    ) -> PageView {
        PageView {
            id,
            chapter_id,
            page_number,
            image_url,
            local_path: None,
            file_size_bytes: None,
            downloaded_at: None,
            created_at: now,
        }
    }

    /// The page is a newly extracted one with the given contents, whatever
    /// its identifier and creation time.
    pub open spec fn is_extraction_of(
        self,
        chapter_id: Seq<char>,
        page_number: nat,
        image_url: Seq<char>,
    ) -> bool {
        self == PageView::extracted(self.id, self.created_at, chapter_id, page_number, image_url)
    }
}

impl ChapterPage {
    /// A page not yet downloaded, with the given identifier and creation
    /// time.
    pub fn stamped(
        id: String,
        now: i64,
        chapter_id: String,
        page_number: usize,
        image_url: String,
    ) -> (r: ChapterPage)
        ensures
            r@ == PageView::extracted(
                id@,
                now as int,
                chapter_id@,
                page_number as nat,
                image_url@,
            ),
    {
        ChapterPage {
            id,
            chapter_id,
            page_number,
            image_url,
            local_path: None,
            file_size_bytes: None,
            downloaded_at: None,
            created_at: now,
        }
    }

    /// A page not yet downloaded, with a fresh identifier, created now.
    pub fn new(chapter_id: String, page_number: usize, image_url: String) -> (r: ChapterPage)
        ensures
            r@.is_extraction_of(chapter_id@, page_number as nat, image_url@),
    {
        ChapterPage::stamped(fresh_id(), now_millis(), chapter_id, page_number, image_url)
    }
}

/// The audit entry of one scan attempt.
#[derive(Debug)]
pub struct ScanLog {
    pub id: String,
    pub manga_id: String,
    pub site: String,
    pub status: ScanStatus,
    pub chapters_found: usize,
    pub chapters_new: usize,
    pub error_message: Option<String>,
    pub duration_ms: i64,
    pub created_at: i64,
}

/// A scan record with its texts as sequences of characters.
pub struct ScanLogView {
    pub id: Seq<char>,
    pub manga_id: Seq<char>,
    pub site: Seq<char>,
    pub status: ScanStatus,
    pub chapters_found: nat,
    pub chapters_new: nat,
    pub error_message: Option<Seq<char>>,
    pub duration_ms: int,
    pub created_at: int,
}

impl View for ScanLog {
    type V = ScanLogView;

    open spec fn view(&self) -> ScanLogView {
        ScanLogView {
            id: self.id@,
            manga_id: self.manga_id@,
            site: self.site@,
            status: self.status,
            chapters_found: self.chapters_found as nat,
            chapters_new: self.chapters_new as nat,
            error_message: text_of(self.error_message),
            duration_ms: self.duration_ms as int,
            created_at: self.created_at as int,
        }
    }
}

impl Clone for ScanLog {
    fn clone(&self) -> (r: Self)
        ensures
            r == *self,
    {
        ScanLog {
            id: self.id.clone(),
            manga_id: self.manga_id.clone(),
            site: self.site.clone(),
            status: self.status,
            chapters_found: self.chapters_found,
            chapters_new: self.chapters_new,
            error_message: copy_text(&self.error_message),
            duration_ms: self.duration_ms,
            created_at: self.created_at,
        }
    }
}

impl ScanLogView {
    /// The record of a scan before its outcome is known: a success that
    /// found nothing.
    pub open spec fn opened(id: Seq<char>, now: int, manga_id: Seq<char>, site: Seq<char>)
        -> ScanLogView {
        ScanLogView {
            id,
            manga_id,
            site,
            status: ScanStatus::Success,
            chapters_found: 0,
            chapters_new: 0,
            error_message: None,
            duration_ms: 0,
            created_at: now,
        }
    }
}

impl ScanLog {
    /// A fresh scan record with the given identifier and creation time.
    pub fn stamped(id: String, now: i64, manga_id: String, site: String) -> (r: ScanLog)
        ensures
            r@ == ScanLogView::opened(id@, now as int, manga_id@, site@),
    {
        ScanLog {
            id,
            manga_id,
            site,
            status: ScanStatus::Success,
            chapters_found: 0,
            chapters_new: 0,
            error_message: None,
            duration_ms: 0,
            created_at: now,
        }
    }

    /// A fresh scan record with a new identifier, created now.
    pub fn new(manga_id: String, site: String) -> (r: ScanLog)
        ensures
            r@ == ScanLogView::opened(r@.id, r@.created_at, manga_id@, site@),
    {
        ScanLog::stamped(fresh_id(), now_millis(), manga_id, site)
    }
}

} // verus!
