//! The adapter registries and the orchestration they drive: resolving a
//! site's adapters by their configured type, recording what a scan found,
//! and taking a chapter through its download.

use vstd::prelude::*;
use crate::checkers::eros::{eros_first_page, ErosCatalogChecker};
use crate::checkers::madara::{madara_first_page, MadaraCatalogChecker};
use crate::config::{Config, SiteConfig};
use crate::downloaders::eros::{eros_extraction, ErosDownloader};
use crate::downloaders::madara::{madara_extraction, MadaraDownloader};
use crate::downloaders::{
    lemma_saved_pages_len, nothing_fetched, saved_count, saved_pages, settle_pages, PageFetch,
};
use crate::error::{ErrorKind, ErrorView, GuLoaderError};
use crate::models::{
    page_views, Chapter, ChapterPage, ChapterStatus, ChapterView, Manga, MangaView, PageView,
    ScanLog, ScanLogView, ScanStatus,
};
use crate::storage::{move_views, page_file, page_moves, placed, PageMove, StorageManager};
use crate::namemap::NameMap;
use crate::scanners::eros::{eros_scan, ErosScanner};
use crate::scanners::madara::{madara_scan, MadaraScanner};
use crate::stamp::{fresh_id, now_millis};
use crate::store::{
    chapter_ids, chapter_updated, chapter_urls, chapters_of, filed, first_key,
    lemma_others_have_none, manga_ids, merged, pages_of_others, pages_replaced, RecordStore,
};
use crate::traits::{
    discovered_for, extracted_for, CatalogChecker, CatalogEntry, ChapterDownloader,
    MangaScanner,
};

verus! {

/// A scanner of one of the site families.
pub enum Scanner {
    Eros(ErosScanner),
    Madara(MadaraScanner),
}

/// An extractor of one of the site families.
pub enum Downloader {
    Eros(ErosDownloader),
    Madara(MadaraDownloader),
}

/// A catalog checker of one of the site families.
pub enum Checker {
    Eros(ErosCatalogChecker),
    Madara(MadaraCatalogChecker),
}

impl Scanner {
    /// What a scan of a title page by this scanner may give.
    pub open spec fn finds(
        self,
        html: Seq<char>,
        base_url: Seq<char>,
        manga: MangaView,
        r: Result<Vec<Chapter>, GuLoaderError>,
    ) -> bool {
        match self {
            Scanner::Eros(_) => eros_scan(html, base_url, manga, r),
            Scanner::Madara(_) => madara_scan(html, manga, r),
        }
    }
}

impl Downloader {
    /// What extraction from a chapter page by this extractor may give.
    pub open spec fn extracts(
        self,
        html: Seq<char>,
        chapter_id: Seq<char>,
        r: Result<Vec<ChapterPage>, GuLoaderError>,
    ) -> bool {
        match self {
            Downloader::Eros(_) => eros_extraction(html, chapter_id, r),
            Downloader::Madara(_) => madara_extraction(html, chapter_id, r),
        }
    }
}

impl Checker {
    /// What a listing of a catalog page by this checker may give.
    pub open spec fn lists(
        self,
        html: Seq<char>,
        base_url: Seq<char>,
        r: Result<Vec<CatalogEntry>, GuLoaderError>,
    ) -> bool {
        match self {
            Checker::Eros(_) => eros_first_page(html, base_url, r),
            Checker::Madara(_) => madara_first_page(html, base_url, r),
        }
    }
}

impl MangaScanner for Scanner {
    /// The chapters that the title page lists, as the scanner's family
    /// reads it.
    fn scan_manga(&self, config: &SiteConfig, manga: &Manga, html: &str) -> (r: Result<
        Vec<Chapter>,
        GuLoaderError,
    >)
        ensures
            self.finds(html@, config.base_url@, manga@, r),
            r matches Err(e) ==> e@.kind == ErrorKind::Scraping,
    {
        match self {
            Scanner::Eros(scanner) => scanner.scan_manga(config, manga, html),
            Scanner::Madara(scanner) => scanner.scan_manga(config, manga, html),
        }
    }
}

impl ChapterDownloader for Downloader {
    /// The pages that the chapter page shows, as the extractor's family
    /// reads it.
    fn get_chapter_images(&self, config: &SiteConfig, html: &str, chapter: &Chapter) -> (r: Result<
        Vec<ChapterPage>,
        GuLoaderError,
    >)
        ensures
            self.extracts(html@, chapter@.id, r),
            r matches Err(e) ==> e@.kind == ErrorKind::Scraping,
    {
        match self {
            Downloader::Eros(downloader) => downloader.get_chapter_images(config, html, chapter),
            Downloader::Madara(downloader) => downloader.get_chapter_images(config, html, chapter),
        }
    }

    fn download_chapter(
        &self,
        config: &SiteConfig,
        chapter: &Chapter,
        pages: &Vec<ChapterPage>,
        fetches: &Vec<PageFetch>,
    ) -> (r: Result<Vec<ChapterPage>, GuLoaderError>) {
        settle_pages(pages, fetches)
    }
}

impl CatalogChecker for Checker {
    /// The titles that the catalog page lists, as the checker's family
    /// reads it.
    fn fetch_first_page(&self, config: &SiteConfig, html: &str) -> (r: Result<
        Vec<CatalogEntry>,
        GuLoaderError,
    >)
        ensures
            self.lists(html@, config.base_url@, r),
            r matches Err(e) ==> e@.kind == ErrorKind::Scraping,
    {
        match self {
            Checker::Eros(checker) => checker.fetch_first_page(config, html),
            Checker::Madara(checker) => checker.fetch_first_page(config, html),
        }
    }
}

/// The scanners, by adapter type.
pub struct ScannerRegistry {
    pub scanners: NameMap<Scanner>,
}

/// The extractors, by adapter type.
pub struct DownloaderRegistry {
    pub downloaders: NameMap<Downloader>,
}

/// The catalog checkers, by site name.
pub struct CatalogRegistry {
    pub checkers: NameMap<Checker>,
}

impl CatalogRegistry {
    /// The registry of the built-in checkers: `eros`.
    pub fn new() -> (r: Self)
        ensures
            r.checkers@ == Map::<Seq<char>, Checker>::empty().insert(
                "eros"@,
                Checker::Eros(ErosCatalogChecker {  }),
            ),
    {
        let mut registry = CatalogRegistry { checkers: NameMap::new() };
        registry.register_checker("eros", Checker::Eros(ErosCatalogChecker::new()));
        registry
    }

    /// Registers `checker` under `name`, in place of what the name had.
    pub fn register_checker(&mut self, name: &str, checker: Checker)
        ensures
            final(self).checkers@ == old(self).checkers@.insert(name@, checker),
    {
        self.checkers.insert(name, checker);
    }

    /// The checker registered under `name`.
    pub fn get_checker(&self, name: &str) -> (r: Option<&Checker>)
        ensures
            match r {
                Some(checker) => self.checkers@.contains_key(name@) && *checker
                    == self.checkers@[name@],
                None => !self.checkers@.contains_key(name@),
            },
    {
        self.checkers.get(name)
    }
}

/// The failure of a lookup.
pub open spec fn lookup_failure(kind: ErrorKind, what: Seq<char>) -> ErrorView {
    ErrorView { kind, detail: what }
}

/// The title `manga` after a scan at `now` that left it `count` chapters.
pub open spec fn scanned_manga(manga: MangaView, count: nat, now: int) -> MangaView {
    MangaView { chapter_count: count, last_updated: now, updated_at: now, ..manga }
}

/// What a scan of `manga` leaves in the store: the record of the attempt,
/// always; and, where the scan succeeded, the chapters it discovered,
/// deduplicated, and the title's new chapter count and time.
pub open spec fn scan_recorded(
    before: RecordStore,
    after: RecordStore,
    manga: MangaView,
    outcome: Result<Seq<Chapter>, ErrorView>,
    log_id: Seq<char>,
    now: int,
    duration_ms: int,
) -> bool {
    &&& after.pages == before.pages
    &&& after.scan_logs@.len() == before.scan_logs@.len() + 1
    &&& after.scan_logs@.take(before.scan_logs@.len() as int) == before.scan_logs@
    &&& after.manga@.len() == before.manga@.len()
    &&& match outcome {
        Ok(discovered) => {
            &&& after.chapters@ == merged(before.chapters@, discovered)
            &&& after.scan_logs@.last()@ == (ScanLogView {
                status: ScanStatus::Success,
                chapters_found: discovered.len(),
                chapters_new: (after.chapters@.len() - before.chapters@.len()) as nat,
                duration_ms,
                ..ScanLogView::opened(log_id, now, manga.id, manga.site)
            })
            &&& forall|i: int|
                0 <= i < before.manga@.len() ==> (#[trigger] after.manga@[i])@ == if first_key(
                    manga_ids(before.manga@),
                    manga.id,
                ) == Some(i) {
                    scanned_manga(manga, chapters_of(after.chapters@, manga.id).len(), now)
                } else {
                    before.manga@[i]@
                }
        },
        Err(e) => {
            &&& after.chapters@ == before.chapters@
            &&& after.manga@ == before.manga@
            &&& after.scan_logs@.last()@ == (ScanLogView {
                status: ScanStatus::Failed,
                error_message: Some(e.kind.heading() + e.detail),
                duration_ms,
                ..ScanLogView::opened(log_id, now, manga.id, manga.site)
            })
        },
    }
}

/// The view of a scan's outcome.
pub open spec fn outcome_view(outcome: Result<Vec<Chapter>, GuLoaderError>) -> Result<
    Seq<Chapter>,
    ErrorView,
> {
    match outcome {
        Ok(chapters) => Ok(chapters@),
        Err(e) => Err(e@),
    }
}

/// Records a scan of `manga`: writes the scan record, whatever the
/// outcome; where the scan succeeded, adds the discovered chapters that the
/// title does not have yet, and stamps the title with its chapter count and
/// the time.
pub fn record_scan(
    store: &mut RecordStore,
    manga: &Manga,
    outcome: &Result<Vec<Chapter>, GuLoaderError>,
    log_id: String,
    now: i64,
    duration_ms: i64,
)
    ensures
        scan_recorded(
            *old(store),
            *final(store),
            manga@,
            outcome_view(*outcome),
            log_id@,
            now as int,
            duration_ms as int,
        ),
        old(store).wf() ==> final(store).wf(),
{
    let mut log = ScanLog::stamped(log_id, now, manga.id.clone(), manga.site.clone());
    log.duration_ms = duration_ms;
    let ghost logs = store.scan_logs@;
    match outcome {
        Ok(discovered) => {
            let added = store.record_discovery(discovered);
            log.chapters_found = discovered.len();
            log.chapters_new = added;
            log.status = ScanStatus::Success;
            let count = store.count_chapters(manga.id.as_str());
            let mut updated = manga.clone();
            updated.chapter_count = count;
            updated.last_updated = now;
            updated.updated_at = now;
            store.update_manga(&updated);
        },
        Err(e) => {
            log.status = ScanStatus::Failed;
            log.error_message = Some(e.message());
        },
    }
    store.create_scan_log(log);
    assert(store.scan_logs@.take(logs.len() as int) =~= logs);
}

/// The store `after` holds the record of a scan of `manga` by `scanner`
/// that took `duration_ms`: for some outcome, some record identifier and
/// some time, the scan is recorded. The outcome is what the scanner gives
/// for the page that was fetched; a failed fetch is the outcome.
pub open spec fn scanned(
    before: RecordStore,
    after: RecordStore,
    manga: MangaView,
    site: SiteConfig,
    scanner: Scanner,
    page: Result<String, GuLoaderError>,
    duration_ms: int,
) -> bool {
    exists|outcome: Result<Vec<Chapter>, GuLoaderError>, log_id: Seq<char>, now: int|
        {
            &&& #[trigger] scan_recorded(
                before,
                after,
                manga,
                outcome_view(outcome),
                log_id,
                now,
                duration_ms,
            )
            &&& match page {
                Ok(html) => scanner.finds(html@, site.base_url@, manga, outcome),
                Err(e) => outcome_view(outcome) == Err::<Seq<Chapter>, ErrorView>(e@),
            }
            &&& outcome matches Ok(discovered) ==> discovered_for(discovered@, manga)
        }
}

impl ScannerRegistry {
    /// The registry of the built-in scanners: `eros`, `madara`, and
    /// `thunder`, which shares the Madara template.
    pub fn new() -> (r: Self)
        ensures
            r.scanners@ == Map::<Seq<char>, Scanner>::empty().insert(
                "eros"@,
                Scanner::Eros(ErosScanner {  }),
            ).insert("madara"@, Scanner::Madara(MadaraScanner {  })).insert(
                "thunder"@,
                Scanner::Madara(MadaraScanner {  }),
            ),
    {
        let mut registry = ScannerRegistry { scanners: NameMap::new() };
        registry.register_scanner("eros", Scanner::Eros(ErosScanner::new()));
        registry.register_scanner("madara", Scanner::Madara(MadaraScanner::new()));
        registry.register_scanner("thunder", Scanner::Madara(MadaraScanner::new()));
        registry
    }

    /// Registers `scanner` under `name`, in place of what the name had.
    pub fn register_scanner(&mut self, name: &str, scanner: Scanner)
        ensures
            final(self).scanners@ == old(self).scanners@.insert(name@, scanner),
    {
        self.scanners.insert(name, scanner);
    }

    /// The scanner registered under `name`.
    pub fn get_scanner(&self, name: &str) -> (r: Option<&Scanner>)
        ensures
            match r {
                Some(scanner) => self.scanners@.contains_key(name@) && *scanner
                    == self.scanners@[name@],
                None => !self.scanners@.contains_key(name@),
            },
    {
        self.scanners.get(name)
    }

    /// Why the title `manga_id` cannot be scanned, if it cannot: the store
    /// does not have it, its site is not configured, or the site's scanner
    /// type is not registered.
    pub open spec fn scan_obstacle(
        &self,
        config: &Config,
        store: &RecordStore,
        manga_id: Seq<char>,
    ) -> Option<ErrorView> {
        match first_key(manga_ids(store.manga@), manga_id) {
            None => Some(lookup_failure(ErrorKind::MangaNotFound, manga_id)),
            Some(i) => {
                let site = store.manga@[i]@.site;
                if !config.sites@.contains_key(site) {
                    Some(lookup_failure(ErrorKind::SiteNotSupported, site))
                } else if !self.scanners@.contains_key(config.sites@[site].scanner_type@) {
                    Some(
                        lookup_failure(
                            ErrorKind::SiteNotSupported,
                            config.sites@[site].scanner_type@,
                        ),
                    )
                } else {
                    None
                }
            },
        }
    }

    /// The title with the identifier `manga_id`.
    pub open spec fn title(store: &RecordStore, manga_id: Seq<char>) -> Manga {
        store.manga@[first_key(manga_ids(store.manga@), manga_id)->0]
    }

    /// The site of the title `manga_id`.
    pub open spec fn site_of(config: &Config, store: &RecordStore, manga_id: Seq<char>)
        -> SiteConfig {
        config.sites@[ScannerRegistry::title(store, manga_id)@.site]
    }

    /// The scanner of the site of the title `manga_id`.
    pub open spec fn scanner_of(&self, config: &Config, store: &RecordStore, manga_id: Seq<char>)
        -> Scanner {
        self.scanners@[ScannerRegistry::site_of(config, store, manga_id).scanner_type@]
    }

    /// The address of the page to fetch for a scan of the title
    /// `manga_id`, or why the title cannot be scanned.
    pub fn scan_target(&self, config: &Config, store: &RecordStore, manga_id: &str) -> (r: Result<
        String,
        GuLoaderError,
    >)
        ensures
            match r {
                Ok(url) => self.scan_obstacle(config, store, manga_id@) is None && url@
                    == ScannerRegistry::title(store, manga_id@)@.url,
                Err(e) => self.scan_obstacle(config, store, manga_id@) == Some(e@),
            },
    {
        let manga = match store.get_manga_by_id(manga_id) {
            Some(manga) => manga,
            None => {
                return Err(GuLoaderError::manga_not_found(manga_id));
            },
        };
        let site = match config.get_site_config(manga.site.as_str()) {
            Some(site) => site,
            None => {
                return Err(GuLoaderError::site_not_supported(manga.site.as_str()));
            },
        };
        match self.get_scanner(site.scanner_type.as_str()) {
            Some(_) => Ok(manga.url.clone()),
            None => Err(GuLoaderError::site_not_supported(site.scanner_type.as_str())),
        }
    }

    /// Scans the title `manga_id`, given the outcome `page` of fetching its
    /// page, and records the scan.
    ///
    /// A title that cannot be scanned is a failure and leaves the store as
    /// it is. Otherwise the scan is recorded, also where the fetch or the
    /// adapter failed: the scan record then holds the failure.
    pub fn scan_manga(
        &self,
        config: &Config,
        store: &mut RecordStore,
        manga_id: &str,
        page: &Result<String, GuLoaderError>,
        duration_ms: i64,
    ) -> (r: Result<(), GuLoaderError>)
        ensures
            match r {
                Err(e) => self.scan_obstacle(config, old(store), manga_id@) == Some(e@)
                    && *final(store) == *old(store),
                Ok(()) => self.scan_obstacle(config, old(store), manga_id@) is None && scanned(
                    *old(store),
                    *final(store),
                    ScannerRegistry::title(old(store), manga_id@)@,
                    ScannerRegistry::site_of(config, old(store), manga_id@),
                    self.scanner_of(config, old(store), manga_id@),
                    *page,
                    duration_ms as int,
                ),
            },
            old(store).wf() ==> final(store).wf(),
    {
        let manga = match store.get_manga_by_id(manga_id) {
            Some(manga) => manga.clone(),
            None => {
                return Err(GuLoaderError::manga_not_found(manga_id));
            },
        };
        let site = match config.get_site_config(manga.site.as_str()) {
            Some(site) => site,
            None => {
                return Err(GuLoaderError::site_not_supported(manga.site.as_str()));
            },
        };
        let scanner = match self.get_scanner(site.scanner_type.as_str()) {
            Some(scanner) => scanner,
            None => {
                return Err(GuLoaderError::site_not_supported(site.scanner_type.as_str()));
            },
        };
        let outcome = match page {
            Ok(html) => scanner.scan_manga(site, &manga, html.as_str()),
            Err(e) => Err(e.duplicate()),
        };
        let log_id = fresh_id();
        let now = now_millis();
        record_scan(store, &manga, &outcome, log_id, now, duration_ms);
        assert(scan_recorded(
            *old(store),
            *store,
            manga@,
            outcome_view(outcome),
            log_id@,
            now as int,
            duration_ms as int,
        ));
        Ok(())
    }
}


/// The chapter `chapter` claimed for download at `now`.
pub open spec fn claimed(chapter: ChapterView, now: int) -> ChapterView {
    ChapterView { status: ChapterStatus::Downloading, updated_at: now, ..chapter }
}

/// The chapter `chapter` after a download at `now` that kept `count` pages.
pub open spec fn downloaded(chapter: ChapterView, count: nat, now: i64) -> ChapterView {
    ChapterView {
        status: ChapterStatus::Downloaded,
        page_count: count,
        downloaded_at: Some(now),
        updated_at: now as int,
        ..chapter
    }
}

/// The chapter `chapter` after a download that failed at `now`.
pub open spec fn failed(chapter: ChapterView, now: int) -> ChapterView {
    ChapterView { status: ChapterStatus::Failed, updated_at: now, ..chapter }
}

/// What a download leaves in the store. Where it kept pages, they take the
/// place of the chapter's pages, filed under the chapter and numbered from
/// 1, and the chapter is downloaded, with as many pages as were kept. Where
/// it failed, the chapter is failed and the pages are as they were.
pub open spec fn download_recorded(
    before: RecordStore,
    after: RecordStore,
    chapter: Chapter,
    outcome: Result<Seq<PageView>, ErrorView>,
    now: i64,
) -> bool {
    &&& after.manga == before.manga
    &&& after.scan_logs == before.scan_logs
    &&& exists|update: Chapter| #[trigger]
        chapter_updated(before.chapters@, after.chapters@, update) && update@ == match outcome {
            Ok(pages) => downloaded(chapter@, pages.len(), now),
            Err(_) => failed(chapter@, now as int),
        }
    &&& match outcome {
        Ok(pages) => pages_replaced(before.pages@, after.pages@, chapter@.id, pages),
        Err(_) => after.pages@ == before.pages@,
    }
}

/// The view of a download's outcome.
pub open spec fn pages_view(outcome: Result<Vec<ChapterPage>, GuLoaderError>) -> Result<
    Seq<PageView>,
    ErrorView,
> {
    match outcome {
        Ok(pages) => Ok(page_views(pages@)),
        Err(e) => Err(e@),
    }
}

/// Records the end of a chapter's download at `now`: a download that kept
/// pages makes the chapter downloaded, with their count, and puts the pages
/// in place of the chapter's pages; a failed download makes the chapter
/// failed, and its failure is handed on.
pub fn record_download(
    store: &mut RecordStore,
    chapter: &Chapter,
    outcome: Result<Vec<ChapterPage>, GuLoaderError>,
    now: i64,
) -> (r: Result<(), GuLoaderError>)
    ensures
        download_recorded(*old(store), *final(store), *chapter, pages_view(outcome), now),
        match outcome {
            Ok(_) => r is Ok,
            Err(e) => r matches Err(f) && f@ == e@,
        },
        old(store).wf() ==> final(store).wf(),
{
    let mut update = chapter.clone();
    update.updated_at = now;
    match outcome {
        Ok(pages) => {
            update.status = ChapterStatus::Downloaded;
            update.page_count = pages.len();
            update.downloaded_at = Some(now);
            store.update_chapter(&update);
            store.replace_chapter_pages(chapter.id.as_str(), &pages);
            assert(chapter_updated(old(store).chapters@, store.chapters@, update));
            Ok(())
        },
        Err(e) => {
            update.status = ChapterStatus::Failed;
            store.update_chapter(&update);
            assert(chapter_updated(old(store).chapters@, store.chapters@, update));
            Err(e)
        },
    }
}

/// What a chapter's download yields, given what extraction gave and what
/// the fetches of the extracted pages' images gave: the extraction's
/// failure; or the pages whose images were saved, numbered from 1 in their
/// order, each in the file where it belongs below `root`; or, where no
/// image was saved, the failure of a chapter without pages.
pub open spec fn download_result(
    extraction: Result<Vec<ChapterPage>, GuLoaderError>,
    fetches: Seq<PageFetch>,
    root: Seq<char>,
    chapter: ChapterView,
) -> Result<Seq<PageView>, ErrorView> {
    match extraction {
        Err(e) => Err(e@),
        Ok(pages) => {
            let saved = saved_pages(pages@, fetches);
            if saved.len() > 0 {
                Ok(placed(saved, root, chapter.manga_title, chapter.number))
            } else {
                Err(nothing_fetched())
            }
        },
    }
}

/// The moves that bring the files of the saved pages to where the pages
/// belong below `root`.
pub open spec fn download_moves(
    extraction: Result<Vec<ChapterPage>, GuLoaderError>,
    fetches: Seq<PageFetch>,
    root: Seq<char>,
    chapter: ChapterView,
) -> Seq<(Seq<char>, Seq<char>)> {
    match extraction {
        Err(_) => Seq::empty(),
        Ok(pages) => page_moves(
            saved_pages(pages@, fetches),
            root,
            chapter.manga_title,
            chapter.number,
        ),
    }
}

/// What the end of a chapter's download does: the store holds what the
/// download yields, and the result hands on the moves of the page files,
/// or the failure.
pub open spec fn download_done(
    before: RecordStore,
    after: RecordStore,
    chapter: Chapter,
    extraction: Result<Vec<ChapterPage>, GuLoaderError>,
    fetches: Seq<PageFetch>,
    root: Seq<char>,
    now: i64,
    r: Result<Vec<PageMove>, GuLoaderError>,
) -> bool {
    let result = download_result(extraction, fetches, root, chapter@);
    &&& download_recorded(before, after, chapter, result, now)
    &&& match r {
        Ok(moves) => result is Ok && move_views(moves@) == download_moves(
            extraction,
            fetches,
            root,
            chapter@,
        ),
        Err(e) => result == Err::<Seq<PageView>, ErrorView>(e@),
    }
}

impl DownloaderRegistry {
    /// The registry of the built-in extractors: `eros`, `madara`, and
    /// `thunder`, which shares the Madara template.
    pub fn new() -> (r: Self)
        ensures
            r.downloaders@ == Map::<Seq<char>, Downloader>::empty().insert(
                "eros"@,
                Downloader::Eros(ErosDownloader {  }),
            ).insert("madara"@, Downloader::Madara(MadaraDownloader {  })).insert(
                "thunder"@,
                Downloader::Madara(MadaraDownloader {  }),
            ),
    {
        let mut registry = DownloaderRegistry { downloaders: NameMap::new() };
        registry.register_downloader("eros", Downloader::Eros(ErosDownloader::new()));
        registry.register_downloader("madara", Downloader::Madara(MadaraDownloader::new()));
        registry.register_downloader("thunder", Downloader::Madara(MadaraDownloader::new()));
        registry
    }

    /// Registers `downloader` under `name`, in place of what the name had.
    pub fn register_downloader(&mut self, name: &str, downloader: Downloader)
        ensures
            final(self).downloaders@ == old(self).downloaders@.insert(name@, downloader),
    {
        self.downloaders.insert(name, downloader);
    }

    /// The extractor registered under `name`.
    pub fn get_downloader(&self, name: &str) -> (r: Option<&Downloader>)
        ensures
            match r {
                Some(downloader) => self.downloaders@.contains_key(name@) && *downloader
                    == self.downloaders@[name@],
                None => !self.downloaders@.contains_key(name@),
            },
    {
        self.downloaders.get(name)
    }

    /// Why no extractor serves the chapters of the title `manga_id`, if
    /// none does: the store does not have the title, its site is not
    /// configured, or the site's downloader type is not registered.
    pub open spec fn chapter_obstacle(
        &self,
        config: &Config,
        store: &RecordStore,
        manga_id: Seq<char>,
    ) -> Option<ErrorView> {
        match first_key(manga_ids(store.manga@), manga_id) {
            None => Some(lookup_failure(ErrorKind::MangaNotFound, manga_id)),
            Some(i) => {
                let site = store.manga@[i]@.site;
                if !config.sites@.contains_key(site) {
                    Some(lookup_failure(ErrorKind::SiteNotSupported, site))
                } else if !self.downloaders@.contains_key(config.sites@[site].downloader_type@) {
                    Some(
                        lookup_failure(
                            ErrorKind::SiteNotSupported,
                            config.sites@[site].downloader_type@,
                        ),
                    )
                } else {
                    None
                }
            },
        }
    }

    /// The extractor of the site of the title `manga_id`.
    pub open spec fn downloader_of(
        &self,
        config: &Config,
        store: &RecordStore,
        manga_id: Seq<char>,
    ) -> Downloader {
        self.downloaders@[ScannerRegistry::site_of(config, store, manga_id).downloader_type@]
    }

    /// Why the chapter at `chapter_url` cannot be downloaded, if it cannot:
    /// the store has no chapter with that address, or no extractor serves
    /// the chapter's title.
    pub open spec fn download_obstacle(
        &self,
        config: &Config,
        store: &RecordStore,
        chapter_url: Seq<char>,
    ) -> Option<ErrorView> {
        match first_key(chapter_urls(store.chapters@), chapter_url) {
            None => Some(lookup_failure(ErrorKind::ChapterNotFound, chapter_url)),
            Some(c) => self.chapter_obstacle(config, store, store.chapters@[c]@.manga_id),
        }
    }

    /// The site and the extractor that serve the chapters of the title
    /// `manga_id`.
    fn resolve<'a>(&'a self, config: &'a Config, store: &RecordStore, manga_id: &str) -> (r: Result<
        (&'a SiteConfig, &'a Downloader),
        GuLoaderError,
    >)
        ensures
            match r {
                Ok(found) => {
                    &&& self.chapter_obstacle(config, store, manga_id@) is None
                    &&& *found.0 == ScannerRegistry::site_of(config, store, manga_id@)
                    &&& *found.1 == self.downloader_of(config, store, manga_id@)
                },
                Err(e) => self.chapter_obstacle(config, store, manga_id@) == Some(e@),
            },
    {
        let manga = match store.get_manga_by_id(manga_id) {
            Some(manga) => manga,
            None => {
                return Err(GuLoaderError::manga_not_found(manga_id));
            },
        };
        let site = match config.get_site_config(manga.site.as_str()) {
            Some(site) => site,
            None => {
                return Err(GuLoaderError::site_not_supported(manga.site.as_str()));
            },
        };
        match self.get_downloader(site.downloader_type.as_str()) {
            Some(downloader) => Ok((site, downloader)),
            None => Err(GuLoaderError::site_not_supported(site.downloader_type.as_str())),
        }
    }

    /// Claims the chapter at `chapter_url` for download: the chapter
    /// becomes `Downloading` at `now`, before anything is fetched. Gives
    /// the chapter as claimed. A chapter that cannot be downloaded is a
    /// failure and leaves the store as it is.
    pub fn claim_chapter(
        &self,
        config: &Config,
        store: &mut RecordStore,
        chapter_url: &str,
        now: i64,
    ) -> (r: Result<Chapter, GuLoaderError>)
        ensures
            match r {
                Ok(chapter) => {
                    &&& self.download_obstacle(config, old(store), chapter_url@) is None
                    &&& first_key(chapter_urls(old(store).chapters@), chapter_url@) matches Some(c)
                        && chapter@ == claimed(old(store).chapters@[c]@, now as int)
                    &&& chapter_updated(old(store).chapters@, final(store).chapters@, chapter)
                    &&& final(store).manga == old(store).manga
                    &&& final(store).pages == old(store).pages
                    &&& final(store).scan_logs == old(store).scan_logs
                },
                Err(e) => self.download_obstacle(config, old(store), chapter_url@) == Some(e@)
                    && *final(store) == *old(store),
            },
            old(store).wf() ==> final(store).wf(),
    {
        let mut chapter = match store.get_chapter_by_url(chapter_url) {
            Some(chapter) => chapter.clone(),
            None => {
                return Err(GuLoaderError::chapter_not_found(chapter_url));
            },
        };
        match self.resolve(config, store, chapter.manga_id.as_str()) {
            Ok(_) => {},
            Err(e) => {
                return Err(e);
            },
        }
        chapter.status = ChapterStatus::Downloading;
        chapter.updated_at = now;
        store.update_chapter(&chapter);
        Ok(chapter)
    }

    /// The pages of `chapter`, given the outcome `page` of fetching the
    /// chapter's page: what the extractor of the chapter's site reads from
    /// it. A failed fetch is the failure; a chapter that no extractor
    /// serves is a failure; a page without images is a failure, never an
    /// empty success.
    pub fn extract_pages(
        &self,
        config: &Config,
        store: &RecordStore,
        chapter: &Chapter,
        page: &Result<String, GuLoaderError>,
    ) -> (r: Result<Vec<ChapterPage>, GuLoaderError>)
        ensures
            match r {
                Ok(pages) => {
                    &&& self.chapter_obstacle(config, store, chapter@.manga_id) is None
                    &&& page is Ok
                    &&& pages@.len() > 0
                    &&& extracted_for(pages@, chapter@.id)
                },
                Err(e) => match self.chapter_obstacle(config, store, chapter@.manga_id) {
                    Some(obstacle) => e@ == obstacle,
                    None => match page {
                        Err(f) => e@ == f@,
                        Ok(_) => e@.kind == ErrorKind::Scraping,
                    },
                },
            },
            self.chapter_obstacle(config, store, chapter@.manga_id) is None ==> (page matches Ok(
                html,
            ) ==> self.downloader_of(config, store, chapter@.manga_id).extracts(
                html@,
                chapter@.id,
                r,
            )),
    {
        let (site, downloader) = match self.resolve(config, store, chapter.manga_id.as_str()) {
            Ok(found) => found,
            Err(e) => {
                return Err(e);
            },
        };
        match page {
            Ok(html) => downloader.get_chapter_images(site, html.as_str(), chapter),
            Err(e) => Err(e.duplicate()),
        }
    }

    /// Decides and records the download of `chapter`, given what extraction
    /// gave and what the fetches of the extracted pages' images gave.
    fn conclude(
        &self,
        config: &Config,
        store: &mut RecordStore,
        chapter: &Chapter,
        extraction: Result<Vec<ChapterPage>, GuLoaderError>,
        fetches: &Vec<PageFetch>,
        scans: bool,
        now: i64,
    ) -> (r: Result<Vec<PageMove>, GuLoaderError>)
        requires
            self.chapter_obstacle(config, old(store), chapter@.manga_id) is None,
        ensures
            download_done(
                *old(store),
                *final(store),
                *chapter,
                extraction,
                fetches@,
                storage_root(config, scans),
                now,
                r,
            ),
            old(store).wf() ==> final(store).wf(),
    {
        let settled = match extraction {
            Ok(pages) => {
                match self.resolve(config, store, chapter.manga_id.as_str()) {
                    Ok((site, downloader)) => downloader.download_chapter(
                        site,
                        chapter,
                        &pages,
                        fetches,
                    ),
                    Err(e) => Err(e),
                }
            },
            Err(e) => Err(e),
        };
        match settled {
            Ok(kept) => {
                let storage = StorageManager::new(&config.storage);
                let (pages, moves) = storage.place_pages(scans, chapter, &kept);
                match record_download(store, chapter, Ok(pages), now) {
                    Ok(()) => Ok(moves),
                    Err(e) => Err(e),
                }
            },
            Err(e) => {
                match record_download(store, chapter, Err(e), now) {
                    Ok(()) => Ok(Vec::new()),
                    Err(f) => Err(f),
                }
            },
        }
    }

    /// Ends the download of the chapter at `chapter_url` at `now`, given
    /// what extraction gave and the outcomes of fetching the images of the
    /// extracted pages, page by page.
    ///
    /// A page whose fetch failed is dropped. Where a page is left, the
    /// chapter is `Downloaded` with as many pages as are left; the pages
    /// take the place of the chapter's pages, numbered from 1 in their
    /// order, each in the file of its number among the manual downloads;
    /// and the result gives the moves that bring the saved files there.
    /// Where extraction failed or no page is left, the chapter is `Failed`
    /// and the failure is handed on. A chapter that cannot be downloaded is
    /// a failure and leaves the store as it is.
    pub fn download_chapter(
        &self,
        config: &Config,
        store: &mut RecordStore,
        chapter_url: &str,
        extraction: Result<Vec<ChapterPage>, GuLoaderError>,
        fetches: &Vec<PageFetch>,
        now: i64,
    ) -> (r: Result<Vec<PageMove>, GuLoaderError>)
        ensures
            match self.download_obstacle(config, old(store), chapter_url@) {
                Some(obstacle) => r matches Err(e) && e@ == obstacle && *final(store) == *old(
                    store,
                ),
                None => download_done(
                    *old(store),
                    *final(store),
                    old(store).chapters@[first_key(
                        chapter_urls(old(store).chapters@),
                        chapter_url@,
                    )->0],
                    extraction,
                    fetches@,
                    storage_root(config, false),
                    now,
                    r,
                ),
            },
            old(store).wf() ==> final(store).wf(),
    {
        let chapter = match store.get_chapter_by_url(chapter_url) {
            Some(chapter) => chapter.clone(),
            None => {
                return Err(GuLoaderError::chapter_not_found(chapter_url));
            },
        };
        match self.resolve(config, store, chapter.manga_id.as_str()) {
            Ok(_) => {},
            Err(e) => {
                return Err(e);
            },
        }
        self.conclude(config, store, &chapter, extraction, fetches, false, now)
    }

    /// Ends the download of `chapter` into the tree of automated downloads
    /// at `now`, given what extraction gave and the outcomes of fetching
    /// the images of the extracted pages, page by page. The store changes
    /// as it does for a manual download; the page files belong among the
    /// automated downloads.
    pub fn download_chapter_to_scans(
        &self,
        config: &Config,
        store: &mut RecordStore,
        chapter: &Chapter,
        extraction: Result<Vec<ChapterPage>, GuLoaderError>,
        fetches: &Vec<PageFetch>,
        now: i64,
    ) -> (r: Result<Vec<PageMove>, GuLoaderError>)
        ensures
            match self.chapter_obstacle(config, old(store), chapter@.manga_id) {
                Some(obstacle) => r matches Err(e) && e@ == obstacle && *final(store) == *old(
                    store,
                ),
                None => download_done(
                    *old(store),
                    *final(store),
                    *chapter,
                    extraction,
                    fetches@,
                    storage_root(config, true),
                    now,
                    r,
                ),
            },
            old(store).wf() ==> final(store).wf(),
    {
        match self.resolve(config, store, chapter.manga_id.as_str()) {
            Ok(_) => {},
            Err(e) => {
                return Err(e);
            },
        }
        self.conclude(config, store, chapter, extraction, fetches, true, now)
    }
}

/// The root of the automated downloads, or of the manual ones.
pub open spec fn storage_root(config: &Config, scans: bool) -> Seq<char> {
    if scans {
        config.storage.scans_path@
    } else {
        config.storage.base_path@
    }
}

/// The state of a chapter after its download. Given the pages that
/// extraction gave and the outcomes of fetching their images: where every
/// fetch failed, the chapter is `Failed`; where at least one succeeded, the
/// chapter is `Downloaded` and its page count is the number of fetches that
/// succeeded.
pub proof fn lemma_download_settles(
    before: RecordStore,
    after: RecordStore,
    chapter: Chapter,
    pages: Vec<ChapterPage>,
    fetches: Seq<PageFetch>,
    root: Seq<char>,
    now: i64,
    i: int,
)
    requires
        download_recorded(
            before,
            after,
            chapter,
            download_result(Ok(pages), fetches, root, chapter@),
            now,
        ),
        first_key(chapter_ids(before.chapters@), chapter@.id) == Some(i),
    ensures
        saved_count(fetches, pages@.len() as int) == 0 ==> after.chapters@[i]@.status
            == ChapterStatus::Failed,
        saved_count(fetches, pages@.len() as int) > 0 ==> after.chapters@[i]@.status
            == ChapterStatus::Downloaded && after.chapters@[i]@.page_count == saved_count(
            fetches,
            pages@.len() as int,
        ),
{
    lemma_saved_pages_len(pages@, fetches);
    let result = download_result(Ok(pages), fetches, root, chapter@);
    let update = choose|update: Chapter| #[trigger]
        chapter_updated(before.chapters@, after.chapters@, update) && update@ == match result {
            Ok(saved) => downloaded(chapter@, saved.len(), now),
            Err(_) => failed(chapter@, now as int),
        };
    assert(update@.id == chapter@.id);
}

/// The pages of a chapter after its download. Where the download kept
/// pages, the store's pages of the chapter are those pages and no others:
/// they stand behind the pages of the other chapters, are numbered from 1
/// without a gap in their order, each lies in the file of its number, and
/// the chapter's page count is their number. The moves of the download
/// bring one file to the place of each page, in the same order: the files
/// that an archive of the chapter's pages holds are those of the pages 1
/// to the page count.
pub proof fn lemma_download_is_dense(
    before: RecordStore,
    after: RecordStore,
    chapter: Chapter,
    pages: Vec<ChapterPage>,
    fetches: Seq<PageFetch>,
    root: Seq<char>,
    now: i64,
    i: int,
)
    requires
        download_recorded(
            before,
            after,
            chapter,
            download_result(Ok(pages), fetches, root, chapter@),
            now,
        ),
        download_result(Ok(pages), fetches, root, chapter@) is Ok,
        first_key(chapter_ids(before.chapters@), chapter@.id) == Some(i),
    ensures
        ({
            let first = pages_of_others(before.pages@, chapter@.id).len() as int;
            let count = after.pages@.len() - first;
            &&& count > 0
            &&& after.chapters@[i]@.page_count == count
            &&& download_moves(Ok(pages), fetches, root, chapter@).len() == count
            &&& forall|k: int|
                0 <= k < count ==> (#[trigger] download_moves(
                    Ok(pages),
                    fetches,
                    root,
                    chapter@,
                )[k]).1 == page_file(
                    root,
                    chapter@.manga_title,
                    chapter.number,
                    (k + 1) as nat,
                )
            &&& forall|j: int|
                0 <= j < first ==> (#[trigger] after.pages@[j])@.chapter_id != chapter@.id
            &&& forall|j: int|
                first <= j < after.pages@.len() ==> {
                    let p = (#[trigger] after.pages@[j])@;
                    &&& p.chapter_id == chapter@.id
                    &&& p.page_number == j - first + 1
                    &&& p.local_path == Some(
                        page_file(
                            root,
                            chapter@.manga_title,
                            chapter.number,
                            (j - first + 1) as nat,
                        ),
                    )
                }
        }),
{
    let saved = saved_pages(pages@, fetches);
    let kept = placed(saved, root, chapter@.manga_title, chapter.number);
    let others = pages_of_others(before.pages@, chapter@.id);
    let first = others.len() as int;
    lemma_others_have_none(before.pages@, chapter@.id);
    let update = choose|update: Chapter| #[trigger]
        chapter_updated(before.chapters@, after.chapters@, update) && update@ == downloaded(
            chapter@,
            kept.len(),
            now,
        );
    assert(update@.id == chapter@.id);
    assert forall|j: int| 0 <= j < first implies (#[trigger] after.pages@[j])@.chapter_id
        != chapter@.id by {
        assert(after.pages@.take(first)[j] == after.pages@[j]);
    }
    assert forall|j: int| first <= j < after.pages@.len() implies {
        let p = (#[trigger] after.pages@[j])@;
        &&& p.chapter_id == chapter@.id
        &&& p.page_number == j - first + 1
        &&& p.local_path == Some(
            page_file(
                root,
                chapter@.manga_title,
                chapter.number,
                (j - first + 1) as nat,
            ),
        )
    } by {
        assert(after.pages@[first + (j - first)]@ == filed(kept, chapter@.id)[j - first]);
    }
}

/// The entries of a catalog that become new titles: each entry, in order,
/// whose address neither a title of the store has nor an earlier entry
/// that became a title.
pub open spec fn new_entries(urls: Seq<Seq<char>>, entries: Seq<CatalogEntry>) -> Seq<
    crate::traits::CatalogEntryView,
>
    decreases entries.len(),
{
    if entries.len() == 0 {
        Seq::<crate::traits::CatalogEntryView>::empty()
    } else {
        let before = new_entries(urls, entries.drop_last());
        let entry = entries.last()@;
        if urls.contains(entry.url) || entry_urls(before).contains(entry.url) {
            before
        } else {
            before.push(entry)
        }
    }
}

/// The addresses of the entries, in order.
pub open spec fn entry_urls(entries: Seq<crate::traits::CatalogEntryView>) -> Seq<Seq<char>> {
    Seq::new(entries.len(), |i: int| entries[i].url)
}

/// The titles are new titles of the site, one for each entry and in the
/// same order.
pub open spec fn enters(
    titles: Seq<Manga>,
    site: Seq<char>,
    entries: Seq<crate::traits::CatalogEntryView>,
) -> bool {
    &&& titles.len() == entries.len()
    &&& forall|i: int|
        0 <= i < titles.len() ==> (#[trigger] titles[i])@.is_entry_of(
            entries[i].title,
            site,
            entries[i].url,
            entries[i].cover_url,
        )
}

/// Takes the entries of a site's catalog into the store: each entry whose
/// address no title has yet becomes a new, active title of the site. Gives
/// the titles that were added.
pub fn record_catalog(store: &mut RecordStore, site_name: &str, entries: &Vec<CatalogEntry>) -> (added:
    Vec<Manga>)
    ensures
        enters(
            added@,
            site_name@,
            new_entries(crate::store::manga_urls(old(store).manga@), entries@),
        ),
        final(store).manga@ == old(store).manga@ + added@,
        final(store).chapters == old(store).chapters,
        final(store).pages == old(store).pages,
        final(store).scan_logs == old(store).scan_logs,
{
    let mut added: Vec<Manga> = Vec::new();
    let mut i: usize = 0;
    let ghost urls = crate::store::manga_urls(old(store).manga@);
    assert(entries@.take(0) =~= Seq::<CatalogEntry>::empty());
    assert(store.manga@ =~= old(store).manga@ + added@);
    while i < entries.len()
        invariant
            i <= entries.len(),
            urls == crate::store::manga_urls(old(store).manga@),
            enters(added@, site_name@, new_entries(urls, entries@.take(i as int))),
            store.manga@ == old(store).manga@ + added@,
            store.chapters == old(store).chapters,
            store.pages == old(store).pages,
            store.scan_logs == old(store).scan_logs,
        decreases entries.len() - i,
    {
        let entry = &entries[i];
        let ghost taken = new_entries(urls, entries@.take(i as int));
        let ghost now = crate::store::manga_urls(store.manga@);
        proof {
            assert(entries@.take(i + 1).drop_last() =~= entries@.take(i as int));
            assert(entries@.take(i + 1).last() == entries@[i as int]);
            assert(now =~= urls + entry_urls(taken)) by {
                assert forall|k: int| 0 <= k < added@.len() implies (#[trigger] added@[k])@.url
                    == taken[k].url by {
                    assert(added@[k]@.is_entry_of(
                        taken[k].title,
                        site_name@,
                        taken[k].url,
                        taken[k].cover_url,
                    ));
                }
            }
            if urls.contains(entry@.url) {
                let k = choose|k: int| 0 <= k < urls.len() && urls[k] == entry@.url;
                assert(now[k] == entry@.url);
            }
            if entry_urls(taken).contains(entry@.url) {
                let k = choose|k: int|
                    0 <= k < entry_urls(taken).len() && entry_urls(taken)[k] == entry@.url;
                assert(now[urls.len() + k] == entry@.url);
            }
            if now.contains(entry@.url) {
                let k = choose|k: int| 0 <= k < now.len() && now[k] == entry@.url;
                if k < urls.len() {
                    assert(urls[k] == entry@.url);
                } else {
                    assert(entry_urls(taken)[k - urls.len()] == entry@.url);
                }
            }
        }
        let known = store.get_manga_by_url(entry.url.as_str()).is_some();
        proof {
            if known {
                let k = crate::store::first_key(now, entry@.url)->0;
                assert(now[k] == entry@.url);
            }
        }
        if !known {
            let manga = Manga::new(
                entry.title.clone(),
                site_name.to_owned(),
                entry.url.clone(),
                crate::models::copy_text(&entry.cover_url),
            );
            let ghost before = added@;
            added.push(manga.clone());
            store.create_manga(manga);
            assert(store.manga@ =~= old(store).manga@ + added@);
            proof {
                let next = new_entries(urls, entries@.take(i + 1));
                assert(next == taken.push(entry@));
                assert forall|k: int| 0 <= k < added@.len() implies (#[trigger] added@[k])@.is_entry_of(

                    next[k].title,
                    site_name@,
                    next[k].url,
                    next[k].cover_url,
                ) by {
                    if k < before.len() {
                        assert(added@[k] == before[k]);
                    }
                }
            }
        }
        i += 1;
    }
    assert(entries@.take(entries.len() as int) =~= entries@);
    added
}


/// A second scan of an unchanged listing creates no chapter: where a scan
/// recorded the chapters `first`, and the next scan finds chapters with the
/// same titles and ordering keys, the store has the chapters it had, and
/// the second scan's record counts no new chapter.
pub proof fn lemma_second_scan_adds_nothing(
    before: RecordStore,
    between: RecordStore,
    after: RecordStore,
    manga: MangaView,
    later: MangaView,
    first: Seq<Chapter>,
    second: Seq<Chapter>,
    first_log: Seq<char>,
    second_log: Seq<char>,
    first_time: int,
    second_time: int,
    first_duration: int,
    second_duration: int,
)
    requires
        scan_recorded(before, between, manga, Ok(first), first_log, first_time, first_duration),
        scan_recorded(between, after, later, Ok(second), second_log, second_time, second_duration),
        crate::store::same_keys(first, second),
    ensures
        after.chapters@ == between.chapters@,
        after.scan_logs@.last()@.chapters_new == 0,
        after.scan_logs@.last()@.chapters_found == first.len(),
{
    crate::store::lemma_rediscovery_adds_nothing(before.chapters@, first, second);
}

} // verus!
