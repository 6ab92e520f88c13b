//! The monitoring cycle of one title: scan, download each new chapter, then
//! try once more every chapter that is failed.
//!
//! The cycle decides; its caller fetches. Each step gives the next action,
//! and the caller comes back with what the action did to the store.

use vstd::prelude::*;
use crate::config::Config;
use crate::models::{Chapter, ChapterStatus, Manga};
use crate::registry::ScannerRegistry;
use crate::store::{chapters_in, chapters_of, RecordStore};
use crate::text::{begins_with, chars_of, starts_with};

verus! {

/// The address stands for no page: it is the placeholder `temp`, empty, or
/// does not begin with `http`.
pub open spec fn is_placeholder(url: Seq<char>) -> bool {
    url == "temp"@ || url.len() == 0 || !starts_with(url, "http"@)
}

/// Whether the address of `manga` stands for no page.
pub fn has_placeholder_url(manga: &Manga) -> (b: bool)
    ensures
        b == is_placeholder(manga@.url),
{
    let url = chars_of(manga.url.as_str());
    let temp = chars_of("temp");
    let same = url.len() == temp.len() && begins_with(&url, &temp);
    proof {
        if same {
            assert(url@.subrange(0, temp@.len() as int) =~= url@);
        }
        if url@ == temp@ {
            assert(url@.subrange(0, temp@.len() as int) =~= temp@);
        }
    }
    same || url.len() == 0 || !begins_with(&url, &chars_of("http"))
}

/// One more than `n`, as far as the machine counts.
pub open spec fn one_more(n: usize) -> usize {
    if n < usize::MAX {
        (n + 1) as usize
    } else {
        n
    }
}

/// What a cycle did.
#[derive(Clone, Copy, PartialEq, Eq, Structural, Debug)]
pub struct CycleSummary {
    /// The chapters that scans added.
    pub new_chapters_found: usize,
    /// The downloads that succeeded, retries included.
    pub chapters_downloaded: usize,
    /// The downloads of new chapters that failed.
    pub failed_downloads: usize,
}

/// The sum of two counts, as far as the machine counts.
pub open spec fn capped_sum(a: usize, b: usize) -> usize {
    if a + b <= usize::MAX {
        (a + b) as usize
    } else {
        usize::MAX
    }
}

/// The sum of two counts, as far as the machine counts.
fn capped_add(a: usize, b: usize) -> (r: usize)
    ensures
        r == capped_sum(a, b),
{
    if a <= usize::MAX - b {
        a + b
    } else {
        usize::MAX
    }
}

impl CycleSummary {
    /// A cycle that did nothing.
    pub fn new() -> (r: CycleSummary)
        ensures
            r == (CycleSummary {
                new_chapters_found: 0,
                chapters_downloaded: 0,
                failed_downloads: 0,
            }),
    {
        CycleSummary { new_chapters_found: 0, chapters_downloaded: 0, failed_downloads: 0 }
    }

    /// What two cycles did together.
    pub fn plus(&self, other: &CycleSummary) -> (r: CycleSummary)
        ensures
            r == (CycleSummary {
                new_chapters_found: capped_sum(self.new_chapters_found, other.new_chapters_found),
                chapters_downloaded: capped_sum(
                    self.chapters_downloaded,
                    other.chapters_downloaded,
                ),
                failed_downloads: capped_sum(self.failed_downloads, other.failed_downloads),
            }),
    {
        CycleSummary {
            new_chapters_found: capped_add(self.new_chapters_found, other.new_chapters_found),
            chapters_downloaded: capped_add(self.chapters_downloaded, other.chapters_downloaded),
            failed_downloads: capped_add(self.failed_downloads, other.failed_downloads),
        }
    }
}

/// Where the cycle of a title stands.
#[derive(Clone, Copy, PartialEq, Eq, Structural, Debug)]
pub enum Phase {
    /// The title's page is being fetched and scanned.
    Scanning,
    /// The chapters that the scan added are being downloaded.
    Downloading,
    /// The failed chapters are being tried once more.
    Retrying,
    /// Nothing is left to do.
    Finished,
}

/// What the caller is to do next.
#[derive(Debug)]
pub enum Action {
    /// Fetch the page at `url`, scan the title with it, and come back.
    Scan { url: String },
    /// Download `chapter`, and come back with whether it succeeded.
    Download { chapter: Chapter },
    /// The cycle of this title is over.
    Finish,
}

/// The chapters of the title `manga_id` among those that came into the
/// store after its first `known` chapters, in order.
pub open spec fn added_since(chapters: Seq<Chapter>, known: int, manga_id: Seq<char>) -> Seq<
    Chapter,
> {
    if 0 <= known <= chapters.len() {
        chapters_of(chapters.skip(known), manga_id)
    } else {
        Seq::<Chapter>::empty()
    }
}

/// The cycle of one title.
pub struct TitleMonitor {
    /// The identifier of the title.
    pub manga_id: String,
    pub phase: Phase,
    /// The chapters still to download in this phase, in order.
    pub queue: Vec<Chapter>,
    /// How many chapters the store had when the scan began.
    pub known: usize,
    pub summary: CycleSummary,
}

/// One more than `n`, as far as the machine counts.
fn bump(n: usize) -> (r: usize)
    ensures
        r == one_more(n),
{
    if n < usize::MAX {
        n + 1
    } else {
        n
    }
}

impl TitleMonitor {
    /// Begins the cycle of `manga`. A title with a placeholder address, or
    /// one that cannot be scanned, is skipped before anything is fetched:
    /// its cycle is over at once. Any other is to be scanned.
    pub fn start(scanners: &ScannerRegistry, config: &Config, store: &RecordStore, manga: &Manga)
        -> (r: (TitleMonitor, Action))
        ensures
            r.0.manga_id@ == manga@.id,
            r.0.queue@.len() == 0,
            r.0.known == store.chapters@.len(),
            r.0.summary == (CycleSummary {
                new_chapters_found: 0,
                chapters_downloaded: 0,
                failed_downloads: 0,
            }),
            is_placeholder(manga@.url) || scanners.scan_obstacle(config, store, manga@.id)
                is Some ==> r.0.phase == Phase::Finished && r.1 is Finish,
            !is_placeholder(manga@.url) && scanners.scan_obstacle(config, store, manga@.id)
                is None ==> r.0.phase == Phase::Scanning && (r.1 matches Action::Scan { url }
                && url@ == ScannerRegistry::title(store, manga@.id)@.url),
    {
        let mut monitor = TitleMonitor {
            manga_id: manga.id.clone(),
            phase: Phase::Finished,
            queue: Vec::new(),
            known: store.chapters.len(),
            summary: CycleSummary::new(),
        };
        if has_placeholder_url(manga) {
            return (monitor, Action::Finish);
        }
        match scanners.scan_target(config, store, manga.id.as_str()) {
            Ok(url) => {
                monitor.phase = Phase::Scanning;
                (monitor, Action::Scan { url })
            },
            Err(_) => (monitor, Action::Finish),
        }
    }

    /// Gives the next action of a phase of downloads: the download of the
    /// chapter at the head of the queue. With an empty queue the first pass
    /// goes over to the retries, whose queue is the title's failed
    /// chapters; after the retries the cycle is over.
    fn next(&mut self, store: &RecordStore) -> (action: Action)
        requires
            old(self).phase == Phase::Downloading || old(self).phase == Phase::Retrying,
        ensures
            final(self).manga_id == old(self).manga_id,
            final(self).known == old(self).known,
            final(self).summary == old(self).summary,
            old(self).queue@.len() > 0 ==> {
                &&& final(self).phase == old(self).phase
                &&& final(self).queue@ == old(self).queue@.skip(1)
                &&& action matches Action::Download { chapter } && chapter == old(self).queue@[0]
            },
            old(self).queue@.len() == 0 && old(self).phase == Phase::Retrying ==> {
                &&& final(self).phase == Phase::Finished
                &&& final(self).queue@.len() == 0
                &&& action is Finish
            },
            old(self).queue@.len() == 0 && old(self).phase == Phase::Downloading ==> {
                let again = chapters_in(store.chapters@, old(self).manga_id@, ChapterStatus::Failed);
                if again.len() > 0 {
                    &&& final(self).phase == Phase::Retrying
                    &&& final(self).queue@ == again.skip(1)
                    &&& action matches Action::Download { chapter } && chapter == again[0]
                } else {
                    &&& final(self).phase == Phase::Finished
                    &&& final(self).queue@.len() == 0
                    &&& action is Finish
                }
            },
    {
        if self.queue.len() == 0 {
            if self.phase == Phase::Downloading {
                self.queue = store.get_chapters_by_status(
                    self.manga_id.as_str(),
                    ChapterStatus::Failed,
                );
                self.phase = Phase::Retrying;
            }
        }
        if self.queue.len() == 0 {
            self.phase = Phase::Finished;
            Action::Finish
        } else {
            let ghost before = self.queue@;
            let chapter = self.queue.remove(0);
            assert(self.queue@ =~= before.skip(1));
            Action::Download { chapter }
        }
    }

    /// Takes up the cycle after the scan: the chapters of the cycle's title
    /// that the scan added to the store are the new chapters; they are
    /// downloaded first, in their order. Chapters of other titles that came
    /// into the store meanwhile are no part of this cycle.
    pub fn scanned(&mut self, store: &RecordStore) -> (action: Action)
        ensures
            final(self).manga_id == old(self).manga_id,
            final(self).known == old(self).known,
            final(self).summary.chapters_downloaded == old(self).summary.chapters_downloaded,
            final(self).summary.failed_downloads == old(self).summary.failed_downloads,
            old(self).phase != Phase::Scanning ==> {
                &&& final(self).phase == Phase::Finished
                &&& final(self).summary == old(self).summary
                &&& action is Finish
            },
            old(self).phase == Phase::Scanning ==> final(self).summary.new_chapters_found
                == capped_sum(
                old(self).summary.new_chapters_found,
                added_since(store.chapters@, old(self).known as int, old(self).manga_id@).len() as usize,
            ),
            old(self).phase == Phase::Scanning && added_since(
                store.chapters@,
                old(self).known as int,
                old(self).manga_id@,
            ).len() > 0 ==> {
                let added = added_since(
                    store.chapters@,
                    old(self).known as int,
                    old(self).manga_id@,
                );
                &&& final(self).phase == Phase::Downloading
                &&& final(self).queue@ == added.skip(1)
                &&& action matches Action::Download { chapter } && chapter == added[0]
            },
            old(self).phase == Phase::Scanning && added_since(
                store.chapters@,
                old(self).known as int,
                old(self).manga_id@,
            ).len() == 0 ==> {
                let again = chapters_in(store.chapters@, old(self).manga_id@, ChapterStatus::Failed);
                if again.len() > 0 {
                    &&& final(self).phase == Phase::Retrying
                    &&& final(self).queue@ == again.skip(1)
                    &&& action matches Action::Download { chapter } && chapter == again[0]
                } else {
                    &&& final(self).phase == Phase::Finished
                    &&& final(self).queue@.len() == 0
                    &&& action is Finish
                }
            },
    {
        if self.phase != Phase::Scanning {
            self.phase = Phase::Finished;
            return Action::Finish;
        }
        let mut added: Vec<Chapter> = Vec::new();
        let mut i: usize = self.known;
        if i > store.chapters.len() {
            i = store.chapters.len();
        }
        let from = i;
        assert(store.chapters@.subrange(from as int, i as int) =~= Seq::<Chapter>::empty());
        while i < store.chapters.len()
            invariant
                from <= i <= store.chapters.len(),
                added@.len() <= i - from,
                added@ == chapters_of(
                    store.chapters@.subrange(from as int, i as int),
                    self.manga_id@,
                ),
            decreases store.chapters.len() - i,
        {
            assert(store.chapters@.subrange(from as int, i + 1).drop_last()
                =~= store.chapters@.subrange(from as int, i as int));
            if store.chapters[i].manga_id == self.manga_id {
                added.push(store.chapters[i].clone());
            }
            i += 1;
        }
        assert(store.chapters@.subrange(from as int, i as int) =~= store.chapters@.skip(
            from as int,
        ));
        let found = added.len();
        self.summary.new_chapters_found = capped_add(self.summary.new_chapters_found, found);
        self.queue = added;
        self.phase = Phase::Downloading;
        self.next(store)
    }

    /// Takes up the cycle after a download: counts it, and gives the next
    /// action. A success counts as a download in either phase; a failure
    /// counts as a failed download in the first pass only.
    pub fn downloaded(&mut self, store: &RecordStore, succeeded: bool) -> (action: Action)
        ensures
            final(self).manga_id == old(self).manga_id,
            final(self).known == old(self).known,
            old(self).phase != Phase::Downloading && old(self).phase != Phase::Retrying ==> {
                &&& final(self).phase == Phase::Finished
                &&& final(self).summary == old(self).summary
                &&& action is Finish
            },
            old(self).phase == Phase::Downloading || old(self).phase == Phase::Retrying
                ==> final(self).summary == (CycleSummary {
                new_chapters_found: old(self).summary.new_chapters_found,
                chapters_downloaded: if succeeded {
                    one_more(old(self).summary.chapters_downloaded)
                } else {
                    old(self).summary.chapters_downloaded
                },
                failed_downloads: if !succeeded && old(self).phase == Phase::Downloading {
                    one_more(old(self).summary.failed_downloads)
                } else {
                    old(self).summary.failed_downloads
                },
            }),
            (old(self).phase == Phase::Downloading || old(self).phase == Phase::Retrying)
                && old(self).queue@.len() > 0 ==> {
                &&& final(self).phase == old(self).phase
                &&& final(self).queue@ == old(self).queue@.skip(1)
                &&& action matches Action::Download { chapter } && chapter == old(self).queue@[0]
            },
            old(self).queue@.len() == 0 && old(self).phase == Phase::Retrying ==> {
                &&& final(self).phase == Phase::Finished
                &&& action is Finish
            },
            old(self).queue@.len() == 0 && old(self).phase == Phase::Downloading ==> {
                let again = chapters_in(store.chapters@, old(self).manga_id@, ChapterStatus::Failed);
                if again.len() > 0 {
                    &&& final(self).phase == Phase::Retrying
                    &&& final(self).queue@ == again.skip(1)
                    &&& action matches Action::Download { chapter } && chapter == again[0]
                } else {
                    &&& final(self).phase == Phase::Finished
                    &&& action is Finish
                }
            },
    {
        if self.phase != Phase::Downloading && self.phase != Phase::Retrying {
            self.phase = Phase::Finished;
            return Action::Finish;
        }
        if succeeded {
            self.summary.chapters_downloaded = bump(self.summary.chapters_downloaded);
        } else if self.phase == Phase::Downloading {
            self.summary.failed_downloads = bump(self.summary.failed_downloads);
        }
        self.next(store)
    }
}

} // verus!
