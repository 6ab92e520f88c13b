//! The record store as the pipeline sees it: titles, chapters, pages and
//! scan records, with the operations that the pipeline consumes.
//!
//! A title has at most one chapter for each ordering key, where two keys
//! within the tolerance are the same key. Insertion keeps it so.

use vstd::prelude::*;
use crate::models::{
    page_views, Chapter, ChapterPage, ChapterStatus, ChapterView, Manga, MangaStatus, MangaView,
    PageView, ScanLog,
};
use crate::number::ChapterNumber;

verus! {

/// `i` is the first index at which `keys` holds `key`.
pub open spec fn is_first_key(keys: Seq<Seq<char>>, key: Seq<char>, i: int) -> bool {
    &&& 0 <= i < keys.len()
    &&& keys[i] == key
    &&& forall|j: int| 0 <= j < i ==> keys[j] != key
}

/// The first index at which `keys` holds `key`.
pub open spec fn first_key(keys: Seq<Seq<char>>, key: Seq<char>) -> Option<int> {
    if exists|i: int| is_first_key(keys, key, i) {
        Some(choose|i: int| is_first_key(keys, key, i))
    } else {
        None
    }
}

/// A first index is the one that `first_key` names.
pub proof fn lemma_first_key_is(keys: Seq<Seq<char>>, key: Seq<char>, i: int)
    requires
        is_first_key(keys, key, i),
    ensures
        first_key(keys, key) == Some(i),
{
    let k = choose|k: int| is_first_key(keys, key, k);
    if k < i {
        assert(keys[k] != key);
    } else if i < k {
        assert(keys[i] != key);
    }
}

/// The identifiers of the titles, in order.
pub open spec fn manga_ids(manga: Seq<Manga>) -> Seq<Seq<char>> {
    Seq::new(manga.len(), |i: int| manga[i]@.id)
}

/// The addresses of the titles, in order.
pub open spec fn manga_urls(manga: Seq<Manga>) -> Seq<Seq<char>> {
    Seq::new(manga.len(), |i: int| manga[i]@.url)
}

/// The identifiers of the chapters, in order.
pub open spec fn chapter_ids(chapters: Seq<Chapter>) -> Seq<Seq<char>> {
    Seq::new(chapters.len(), |i: int| chapters[i]@.id)
}

/// The addresses of the chapters, in order.
pub open spec fn chapter_urls(chapters: Seq<Chapter>) -> Seq<Seq<char>> {
    Seq::new(chapters.len(), |i: int| chapters[i]@.url)
}

/// The chapter at `i` belongs to the title `manga_id` and its key is within
/// the tolerance of `number`.
pub open spec fn is_close_at(
    chapters: Seq<Chapter>,
    manga_id: Seq<char>,
    number: ChapterNumber,
    i: int,
) -> bool {
    0 <= i < chapters.len() && chapters[i]@.manga_id == manga_id && chapters[i].number.close_to(
        number,
    )
}

/// The title `manga_id` has a chapter whose key is within the tolerance of
/// `number`.
pub open spec fn has_close(chapters: Seq<Chapter>, manga_id: Seq<char>, number: ChapterNumber)
    -> bool {
    exists|i: int| is_close_at(chapters, manga_id, number, i)
}

/// No two chapters of one title have keys within the tolerance of each
/// other.
pub open spec fn distinct_keys(chapters: Seq<Chapter>) -> bool {
    forall|i: int, j: int|
        0 <= i < j < chapters.len() && (#[trigger] chapters[i])@.manga_id == (
        #[trigger] chapters[j])@.manga_id ==> !chapters[i].number.close_to(chapters[j].number)
}

/// The chapters of the title `manga_id`, in order.
pub open spec fn chapters_of(chapters: Seq<Chapter>, manga_id: Seq<char>) -> Seq<Chapter>
    decreases chapters.len(),
{
    if chapters.len() == 0 {
        Seq::<Chapter>::empty()
    } else if chapters.last()@.manga_id == manga_id {
        chapters_of(chapters.drop_last(), manga_id).push(chapters.last())
    } else {
        chapters_of(chapters.drop_last(), manga_id)
    }
}

/// The chapters of the title `manga_id` that are in the state `status`, in
/// order.
pub open spec fn chapters_in(chapters: Seq<Chapter>, manga_id: Seq<char>, status: ChapterStatus)
    -> Seq<Chapter>
    decreases chapters.len(),
{
    if chapters.len() == 0 {
        Seq::<Chapter>::empty()
    } else if chapters.last()@.manga_id == manga_id && chapters.last().status == status {
        chapters_in(chapters.drop_last(), manga_id, status).push(chapters.last())
    } else {
        chapters_in(chapters.drop_last(), manga_id, status)
    }
}

/// The chapters that were downloaded before `cutoff`, in order.
pub open spec fn downloaded_before(chapters: Seq<Chapter>, cutoff: i64) -> Seq<Chapter>
    decreases chapters.len(),
{
    if chapters.len() == 0 {
        Seq::<Chapter>::empty()
    } else {
        let c = chapters.last();
        let before = downloaded_before(chapters.drop_last(), cutoff);
        if c.status == ChapterStatus::Downloaded && (c.downloaded_at matches Some(at) && at
            < cutoff) {
            before.push(c)
        } else {
            before
        }
    }
}

/// The pages of the chapter `chapter_id`, in order.
pub open spec fn pages_of_chapter(pages: Seq<ChapterPage>, chapter_id: Seq<char>) -> Seq<
    ChapterPage,
>
    decreases pages.len(),
{
    if pages.len() == 0 {
        Seq::<ChapterPage>::empty()
    } else if pages.last()@.chapter_id == chapter_id {
        pages_of_chapter(pages.drop_last(), chapter_id).push(pages.last())
    } else {
        pages_of_chapter(pages.drop_last(), chapter_id)
    }
}

/// The pages of all chapters but `chapter_id`, in order.
pub open spec fn pages_of_others(pages: Seq<ChapterPage>, chapter_id: Seq<char>) -> Seq<
    ChapterPage,
>
    decreases pages.len(),
{
    if pages.len() == 0 {
        Seq::<ChapterPage>::empty()
    } else if pages.last()@.chapter_id != chapter_id {
        pages_of_others(pages.drop_last(), chapter_id).push(pages.last())
    } else {
        pages_of_others(pages.drop_last(), chapter_id)
    }
}

/// No chapter has two pages with the same sequence number.
pub open spec fn distinct_pages(pages: Seq<ChapterPage>) -> bool {
    forall|i: int, j: int|
        0 <= i < j < pages.len() && (#[trigger] pages[i])@.chapter_id == (#[trigger] pages[j])@.chapter_id
            ==> pages[i]@.page_number != pages[j]@.page_number
}

/// The pages as pages of the chapter `chapter_id`, numbered from 1 without
/// a gap in their order.
pub open spec fn filed(pages: Seq<PageView>, chapter_id: Seq<char>) -> Seq<PageView> {
    Seq::new(
        pages.len(),
        |k: int| PageView { chapter_id, page_number: (k + 1) as nat, ..pages[k] },
    )
}

/// The pages after the pages of the chapter `chapter_id` were replaced by
/// `pages`: the pages of the other chapters as they were, then `pages`,
/// filed under the chapter.
pub open spec fn pages_replaced(
    before: Seq<ChapterPage>,
    after: Seq<ChapterPage>,
    chapter_id: Seq<char>,
    pages: Seq<PageView>,
) -> bool {
    let others = pages_of_others(before, chapter_id);
    &&& after.len() == others.len() + pages.len()
    &&& after.take(others.len() as int) == others
    &&& forall|k: int|
        0 <= k < pages.len() ==> (#[trigger] after[others.len() + k])@ == filed(pages, chapter_id)[k]
}

/// The index of the page of the chapter `chapter_id` with the sequence
/// number `page_number` that stands first.
pub open spec fn is_page_slot(
    pages: Seq<ChapterPage>,
    chapter_id: Seq<char>,
    page_number: nat,
    i: int,
) -> bool {
    &&& 0 <= i < pages.len()
    &&& pages[i]@.chapter_id == chapter_id && pages[i]@.page_number == page_number
    &&& forall|j: int|
        0 <= j < i ==> !(pages[j]@.chapter_id == chapter_id && pages[j]@.page_number
            == page_number)
}

/// The sorted chapters with `c` put in: behind every chapter whose number
/// is not smaller, before those whose number is smaller.
pub open spec fn placed_by_number(sorted: Seq<Chapter>, c: Chapter) -> Seq<Chapter>
    decreases sorted.len(),
{
    if sorted.len() == 0 {
        seq![c]
    } else if sorted.last().number.thousandths >= c.number.thousandths {
        sorted.push(c)
    } else {
        placed_by_number(sorted.drop_last(), c).push(sorted.last())
    }
}

/// The chapters by number, the greatest first; chapters with one number
/// stand in the order in which they stood.
pub open spec fn by_number(chapters: Seq<Chapter>) -> Seq<Chapter>
    decreases chapters.len(),
{
    if chapters.len() == 0 {
        Seq::<Chapter>::empty()
    } else {
        placed_by_number(by_number(chapters.drop_last()), chapters.last())
    }
}

/// No chapter stands before one with a greater number.
pub open spec fn descending(chapters: Seq<Chapter>) -> bool {
    forall|i: int, j: int|
        0 <= i < j < chapters.len() ==> (#[trigger] chapters[i]).number.thousandths >= (
        #[trigger] chapters[j]).number.thousandths
}

/// The chapter with the greatest number; of several with that number, the
/// one that stands last. `None` where there is no chapter.
pub open spec fn latest(chapters: Seq<Chapter>) -> Option<Chapter>
    decreases chapters.len(),
{
    if chapters.len() == 0 {
        None
    } else {
        match latest(chapters.drop_last()) {
            Some(c) => if c.number.thousandths > chapters.last().number.thousandths {
                Some(c)
            } else {
                Some(chapters.last())
            },
            None => Some(chapters.last()),
        }
    }
}

/// The latest chapter is one of the chapters, and none has a greater
/// number.
pub proof fn lemma_latest_is_greatest(chapters: Seq<Chapter>)
    ensures
        chapters.len() == 0 <==> latest(chapters) is None,
        latest(chapters) matches Some(c) ==> chapters.contains(c) && forall|i: int|
            0 <= i < chapters.len() ==> (#[trigger] chapters[i]).number.thousandths
                <= c.number.thousandths,
    decreases chapters.len(),
{
    if chapters.len() > 0 {
        let front = chapters.drop_last();
        lemma_latest_is_greatest(front);
        let c = latest(chapters)->0;
        assert(chapters[chapters.len() - 1] == chapters.last());
        if c != chapters.last() {
            let i = choose|i: int| 0 <= i < front.len() && front[i] == c;
            assert(chapters[i] == c);
        }
        assert forall|i: int| 0 <= i < chapters.len() implies (#[trigger] chapters[i]).number.thousandths
            <= c.number.thousandths by {
            if i < front.len() {
                assert(front[i] == chapters[i]);
            }
        }
    }
}

/// What is shown as the latest chapter of a title: the title of the
/// chapter with the greatest number, or, without a chapter, the words that
/// say so.
pub open spec fn latest_title_of(chapters: Seq<Chapter>) -> Seq<char> {
    match latest(chapters) {
        Some(c) => c@.title,
        None => "No chapters"@,
    }
}

/// The title of the chapter with the greatest number among `chapters`, or
/// `No chapters` where there is none.
pub fn latest_title(chapters: &Vec<Chapter>) -> (r: String)
    ensures
        r@ == latest_title_of(chapters@),
{
    if chapters.len() == 0 {
        return "No chapters".to_owned();
    }
    let mut best: usize = 0;
    let mut i: usize = 1;
    assert(chapters@.take(1).drop_last() =~= Seq::<Chapter>::empty());
    assert(latest(chapters@.take(1).drop_last()) is None);
    while i < chapters.len()
        invariant
            1 <= i <= chapters.len(),
            best < i,
            latest(chapters@.take(i as int)) == Some(chapters@[best as int]),
        decreases chapters.len() - i,
    {
        assert(chapters@.take(i + 1).drop_last() =~= chapters@.take(i as int));
        if !(chapters[best].number.thousandths > chapters[i].number.thousandths) {
            best = i;
        }
        i += 1;
    }
    assert(chapters@.take(chapters.len() as int) =~= chapters@);
    chapters[best].title.clone()
}

/// The chapters after discovery: each discovered chapter, in order, is
/// added unless its title already has a chapter with a key within the
/// tolerance, be it an earlier record or one added just before.
pub open spec fn merged(existing: Seq<Chapter>, discovered: Seq<Chapter>) -> Seq<Chapter>
    decreases discovered.len(),
{
    if discovered.len() == 0 {
        existing
    } else {
        let before = merged(existing, discovered.drop_last());
        let c = discovered.last();
        if has_close(before, c@.manga_id, c.number) {
            before
        } else {
            before.push(c)
        }
    }
}

/// What an update leaves of a stored chapter: its identity, its title and
/// its ordering key stay; everything else is taken from `update`.
pub open spec fn updated_chapter(stored: Chapter, update: Chapter) -> ChapterView {
    ChapterView {
        id: stored@.id,
        manga_id: stored@.manga_id,
        manga_title: stored@.manga_title,
        number: stored.number,
        created_at: stored@.created_at,
        ..update@
    }
}

/// `after` is `before` with the first chapter that has the identifier of
/// `update` updated from it; without such a chapter nothing changed.
pub open spec fn chapter_updated(before: Seq<Chapter>, after: Seq<Chapter>, update: Chapter)
    -> bool {
    &&& after.len() == before.len()
    &&& match first_key(chapter_ids(before), update@.id) {
        Some(i) => after[i]@ == updated_chapter(before[i], update) && forall|j: int|
            0 <= j < before.len() && j != i ==> after[j] == before[j],
        None => after == before,
    }
}

/// The titles that are active, in order.
pub open spec fn active_titles(manga: Seq<Manga>) -> Seq<Manga>
    decreases manga.len(),
{
    if manga.len() == 0 {
        Seq::<Manga>::empty()
    } else if manga.last().status == MangaStatus::Active {
        active_titles(manga.drop_last()).push(manga.last())
    } else {
        active_titles(manga.drop_last())
    }
}

/// The records of the pipeline.
pub struct RecordStore {
    pub manga: Vec<Manga>,
    pub chapters: Vec<Chapter>,
    pub pages: Vec<ChapterPage>,
    pub scan_logs: Vec<ScanLog>,
}

impl RecordStore {
    /// No title has two chapters with the same ordering key, and no
    /// chapter has two pages with the same sequence number.
    pub open spec fn wf(&self) -> bool {
        distinct_keys(self.chapters@) && distinct_pages(self.pages@)
    }

    /// A store without records.
    pub fn new() -> (r: RecordStore)
        ensures
            r.manga@.len() == 0,
            r.chapters@.len() == 0,
            r.pages@.len() == 0,
            r.scan_logs@.len() == 0,
            r.wf(),
    {
        RecordStore {
            manga: Vec::new(),
            chapters: Vec::new(),
            pages: Vec::new(),
            scan_logs: Vec::new(),
        }
    }

    /// Adds a title.
    pub fn create_manga(&mut self, manga: Manga)
        ensures
            final(self).manga@ == old(self).manga@.push(manga),
            final(self).chapters == old(self).chapters,
            final(self).pages == old(self).pages,
            final(self).scan_logs == old(self).scan_logs,
    {
        self.manga.push(manga);
    }

    /// The index of the first title with the identifier `id`.
    pub fn manga_index(&self, id: &str) -> (r: Option<usize>)
        ensures
            match r {
                Some(i) => first_key(manga_ids(self.manga@), id@) == Some(i as int) && i
                    < self.manga.len(),
                None => first_key(manga_ids(self.manga@), id@) is None,
            },
    {
        let key = id.to_owned();
        let mut i: usize = 0;
        while i < self.manga.len()
            invariant
                i <= self.manga.len(),
                key@ == id@,
                forall|j: int| 0 <= j < i ==> manga_ids(self.manga@)[j] != id@,
            decreases self.manga.len() - i,
        {
            if self.manga[i].id == key {
                proof {
                    lemma_first_key_is(manga_ids(self.manga@), id@, i as int);
                }
                return Some(i);
            }
            i += 1;
        }
        None
    }

    /// The first title with the identifier `id`.
    pub fn get_manga_by_id(&self, id: &str) -> (r: Option<&Manga>)
        ensures
            match r {
                Some(m) => first_key(manga_ids(self.manga@), id@) matches Some(i) && *m
                    == self.manga@[i],
                None => first_key(manga_ids(self.manga@), id@) is None,
            },
    {
        match self.manga_index(id) {
            Some(i) => Some(&self.manga[i]),
            None => None,
        }
    }

    /// The first title with the address `url`.
    pub fn get_manga_by_url(&self, url: &str) -> (r: Option<&Manga>)
        ensures
            match r {
                Some(m) => first_key(manga_urls(self.manga@), url@) matches Some(i) && *m
                    == self.manga@[i],
                None => first_key(manga_urls(self.manga@), url@) is None && !manga_urls(
                    self.manga@,
                ).contains(url@),
            },
    {
        let key = url.to_owned();
        let mut i: usize = 0;
        while i < self.manga.len()
            invariant
                i <= self.manga.len(),
                key@ == url@,
                forall|j: int| 0 <= j < i ==> manga_urls(self.manga@)[j] != url@,
            decreases self.manga.len() - i,
        {
            if self.manga[i].url == key {
                proof {
                    lemma_first_key_is(manga_urls(self.manga@), url@, i as int);
                }
                return Some(&self.manga[i]);
            }
            i += 1;
        }
        None
    }

    /// All titles, in the order in which they were added.
    pub fn get_all_manga(&self) -> (r: &Vec<Manga>)
        ensures
            r == self.manga,
    {
        &self.manga
    }

    /// The active titles, in the order in which they were added.
    pub fn get_active_manga(&self) -> (r: Vec<Manga>)
        ensures
            r@ == active_titles(self.manga@),
    {
        let mut out: Vec<Manga> = Vec::new();
        let mut i: usize = 0;
        assert(self.manga@.take(0) =~= Seq::<Manga>::empty());
        while i < self.manga.len()
            invariant
                i <= self.manga.len(),
                out@ == active_titles(self.manga@.take(i as int)),
            decreases self.manga.len() - i,
        {
            assert(self.manga@.take(i + 1).drop_last() =~= self.manga@.take(i as int));
            if self.manga[i].status == MangaStatus::Active {
                out.push(self.manga[i].clone());
            }
            i += 1;
        }
        assert(self.manga@.take(self.manga.len() as int) =~= self.manga@);
        out
    }

    /// Puts `manga` in place of the first title with its identifier; a
    /// title that the store does not have changes nothing.
    pub fn update_manga(&mut self, manga: &Manga)
        ensures
            final(self).manga@ == match first_key(manga_ids(old(self).manga@), manga@.id) {
                Some(i) => old(self).manga@.update(i, *manga),
                None => old(self).manga@,
            },
            final(self).chapters == old(self).chapters,
            final(self).pages == old(self).pages,
            final(self).scan_logs == old(self).scan_logs,
    {
        match self.manga_index(manga.id.as_str()) {
            Some(i) => {
                self.manga.set(i, manga.clone());
            },
            None => {},
        }
    }

    /// Stamps every title with the number of its chapters and with the
    /// time `now`.
    pub fn refresh_chapter_counts(&mut self, now: i64)
        ensures
            final(self).chapters == old(self).chapters,
            final(self).pages == old(self).pages,
            final(self).scan_logs == old(self).scan_logs,
            final(self).manga@.len() == old(self).manga@.len(),
            forall|i: int|
                0 <= i < old(self).manga@.len() ==> (#[trigger] final(self).manga@[i])@ == (
                MangaView {
                    chapter_count: chapters_of(old(self).chapters@, old(self).manga@[i]@.id).len(),
                    last_updated: now as int,
                    updated_at: now as int,
                    ..old(self).manga@[i]@
                }),
    {
        let mut i: usize = 0;
        while i < self.manga.len()
            invariant
                i <= self.manga.len(),
                self.chapters == old(self).chapters,
                self.pages == old(self).pages,
                self.scan_logs == old(self).scan_logs,
                self.manga@.len() == old(self).manga@.len(),
                forall|k: int| i <= k < self.manga@.len() ==> self.manga@[k] == old(self).manga@[k],
                forall|k: int|
                    0 <= k < i ==> (#[trigger] self.manga@[k])@ == (MangaView {
                        chapter_count: chapters_of(
                            old(self).chapters@,
                            old(self).manga@[k]@.id,
                        ).len(),
                        last_updated: now as int,
                        updated_at: now as int,
                        ..old(self).manga@[k]@
                    }),
            decreases self.manga.len() - i,
        {
            let mut updated = self.manga[i].clone();
            updated.chapter_count = self.count_chapters(updated.id.as_str());
            updated.last_updated = now;
            updated.updated_at = now;
            self.manga.set(i, updated);
            i += 1;
        }
    }

    /// The index of the first chapter of the title `manga_id` whose key is
    /// within the tolerance of `number`.
    pub fn close_index(&self, manga_id: &str, number: ChapterNumber) -> (r: Option<usize>)
        ensures
            match r {
                Some(i) => is_close_at(self.chapters@, manga_id@, number, i as int),
                None => !has_close(self.chapters@, manga_id@, number),
            },
    {
        let key = manga_id.to_owned();
        let mut i: usize = 0;
        while i < self.chapters.len()
            invariant
                i <= self.chapters.len(),
                key@ == manga_id@,
                forall|j: int| 0 <= j < i ==> !is_close_at(self.chapters@, manga_id@, number, j),
            decreases self.chapters.len() - i,
        {
            if self.chapters[i].manga_id == key && self.chapters[i].number.is_close_to(&number) {
                return Some(i);
            }
            i += 1;
        }
        None
    }

    /// The chapter of the title `manga_id` whose key is within the
    /// tolerance of `number`, if the title has one.
    pub fn get_chapter_by_manga_and_number(&self, manga_id: &str, number: ChapterNumber) -> (r:
        Option<&Chapter>)
        ensures
            match r {
                Some(c) => exists|i: int|
                    is_close_at(self.chapters@, manga_id@, number, i) && *c == self.chapters@[i],
                None => !has_close(self.chapters@, manga_id@, number),
            },
    {
        match self.close_index(manga_id, number) {
            Some(i) => Some(&self.chapters[i]),
            None => None,
        }
    }

    /// Adds `chapter` unless its title already has a chapter with a key
    /// within the tolerance; gives the chapter that the store then has for
    /// that key.
    pub fn create_or_get_chapter(&mut self, chapter: &Chapter) -> (r: Chapter)
        ensures
            final(self).manga == old(self).manga,
            final(self).pages == old(self).pages,
            final(self).scan_logs == old(self).scan_logs,
            has_close(old(self).chapters@, chapter@.manga_id, chapter.number) ==> {
                &&& final(self).chapters@ == old(self).chapters@
                &&& exists|i: int|
                    is_close_at(old(self).chapters@, chapter@.manga_id, chapter.number, i) && r
                        == old(self).chapters@[i]
            },
            !has_close(old(self).chapters@, chapter@.manga_id, chapter.number) ==> {
                &&& final(self).chapters@ == old(self).chapters@.push(*chapter)
                &&& r == *chapter
            },
            old(self).wf() ==> final(self).wf(),
    {
        match self.close_index(chapter.manga_id.as_str(), chapter.number) {
            Some(i) => self.chapters[i].clone(),
            None => {
                proof {
                    lemma_push_distinct(self.chapters@, *chapter);
                }
                self.chapters.push(chapter.clone());
                chapter.clone()
            },
        }
    }

    /// The chapters of the title `manga_id` by number, the greatest first.
    pub fn get_chapters_by_manga_id(&self, manga_id: &str) -> (r: Vec<Chapter>)
        ensures
            r@ == by_number(chapters_of(self.chapters@, manga_id@)),
            descending(r@),
            r@.to_multiset() == chapters_of(self.chapters@, manga_id@).to_multiset(),
    {
        let key = manga_id.to_owned();
        let mut out: Vec<Chapter> = Vec::new();
        let mut i: usize = 0;
        assert(self.chapters@.take(0) =~= Seq::<Chapter>::empty());
        while i < self.chapters.len()
            invariant
                i <= self.chapters.len(),
                key@ == manga_id@,
                out@ == by_number(chapters_of(self.chapters@.take(i as int), manga_id@)),
            decreases self.chapters.len() - i,
        {
            assert(self.chapters@.take(i + 1).drop_last() =~= self.chapters@.take(i as int));
            if self.chapters[i].manga_id == key {
                let c = self.chapters[i].clone();
                let mut p: usize = out.len();
                while p > 0 && out[p - 1].number.thousandths < c.number.thousandths
                    invariant
                        p <= out.len(),
                        forall|k: int|
                            p <= k < out@.len() ==> (#[trigger] out@[k]).number.thousandths
                                < c.number.thousandths,
                    decreases p,
                {
                    p -= 1;
                }
                proof {
                    let prev = chapters_of(self.chapters@.take(i as int), manga_id@);
                    assert(prev.push(c).drop_last() =~= prev);
                    assert(chapters_of(self.chapters@.take(i + 1), manga_id@) == prev.push(c));
                    lemma_placed_is_insert(out@, c, p as int);
                }
                out.insert(p, c);
            }
            i += 1;
        }
        assert(self.chapters@.take(self.chapters.len() as int) =~= self.chapters@);
        proof {
            lemma_by_number_sorts(chapters_of(self.chapters@, manga_id@));
        }
        out
    }

    /// The number of chapters of the title `manga_id`.
    pub fn count_chapters(&self, manga_id: &str) -> (n: usize)
        ensures
            n == chapters_of(self.chapters@, manga_id@).len(),
    {
        let key = manga_id.to_owned();
        let mut n: usize = 0;
        let mut i: usize = 0;
        assert(self.chapters@.take(0) =~= Seq::<Chapter>::empty());
        while i < self.chapters.len()
            invariant
                i <= self.chapters.len(),
                key@ == manga_id@,
                n <= i,
                n == chapters_of(self.chapters@.take(i as int), manga_id@).len(),
            decreases self.chapters.len() - i,
        {
            assert(self.chapters@.take(i + 1).drop_last() =~= self.chapters@.take(i as int));
            if self.chapters[i].manga_id == key {
                n += 1;
            }
            i += 1;
        }
        assert(self.chapters@.take(self.chapters.len() as int) =~= self.chapters@);
        n
    }

    /// The chapters of the title `manga_id` in the state `status`, in the
    /// order in which they were added.
    pub fn get_chapters_by_status(&self, manga_id: &str, status: ChapterStatus) -> (r: Vec<Chapter>)
        ensures
            r@ == chapters_in(self.chapters@, manga_id@, status),
    {
        let key = manga_id.to_owned();
        let mut out: Vec<Chapter> = Vec::new();
        let mut i: usize = 0;
        assert(self.chapters@.take(0) =~= Seq::<Chapter>::empty());
        while i < self.chapters.len()
            invariant
                i <= self.chapters.len(),
                key@ == manga_id@,
                out@ == chapters_in(self.chapters@.take(i as int), manga_id@, status),
            decreases self.chapters.len() - i,
        {
            assert(self.chapters@.take(i + 1).drop_last() =~= self.chapters@.take(i as int));
            if self.chapters[i].manga_id == key && self.chapters[i].status == status {
                out.push(self.chapters[i].clone());
            }
            i += 1;
        }
        assert(self.chapters@.take(self.chapters.len() as int) =~= self.chapters@);
        out
    }

    /// The index of the first chapter with the identifier `id`.
    pub fn chapter_index(&self, id: &str) -> (r: Option<usize>)
        ensures
            match r {
                Some(i) => first_key(chapter_ids(self.chapters@), id@) == Some(i as int) && i
                    < self.chapters.len(),
                None => first_key(chapter_ids(self.chapters@), id@) is None,
            },
    {
        let key = id.to_owned();
        let mut i: usize = 0;
        while i < self.chapters.len()
            invariant
                i <= self.chapters.len(),
                key@ == id@,
                forall|j: int| 0 <= j < i ==> chapter_ids(self.chapters@)[j] != id@,
            decreases self.chapters.len() - i,
        {
            if self.chapters[i].id == key {
                proof {
                    lemma_first_key_is(chapter_ids(self.chapters@), id@, i as int);
                }
                return Some(i);
            }
            i += 1;
        }
        None
    }

    /// The first chapter with the address `url`.
    pub fn get_chapter_by_url(&self, url: &str) -> (r: Option<&Chapter>)
        ensures
            match r {
                Some(c) => first_key(chapter_urls(self.chapters@), url@) matches Some(i) && *c
                    == self.chapters@[i],
                None => first_key(chapter_urls(self.chapters@), url@) is None,
            },
    {
        let key = url.to_owned();
        let mut i: usize = 0;
        while i < self.chapters.len()
            invariant
                i <= self.chapters.len(),
                key@ == url@,
                forall|j: int| 0 <= j < i ==> chapter_urls(self.chapters@)[j] != url@,
            decreases self.chapters.len() - i,
        {
            if self.chapters[i].url == key {
                proof {
                    lemma_first_key_is(chapter_urls(self.chapters@), url@, i as int);
                }
                return Some(&self.chapters[i]);
            }
            i += 1;
        }
        None
    }

    /// Updates the first chapter with the identifier of `chapter`: its
    /// title text, address, page count, size, state and times are taken
    /// from `chapter`; its title and ordering key stay. A chapter that the
    /// store does not have changes nothing.
    pub fn update_chapter(&mut self, chapter: &Chapter)
        ensures
            final(self).manga == old(self).manga,
            final(self).pages == old(self).pages,
            final(self).scan_logs == old(self).scan_logs,
            chapter_updated(old(self).chapters@, final(self).chapters@, *chapter),
            old(self).wf() ==> final(self).wf(),
    {
        match self.chapter_index(chapter.id.as_str()) {
            Some(i) => {
                let stored = &self.chapters[i];
                let next = Chapter {
                    id: stored.id.clone(),
                    manga_id: stored.manga_id.clone(),
                    manga_title: stored.manga_title.clone(),
                    title: chapter.title.clone(),
                    number: stored.number,
                    url: chapter.url.clone(),
                    page_count: chapter.page_count,
                    file_size_bytes: chapter.file_size_bytes,
                    status: chapter.status,
                    downloaded_at: chapter.downloaded_at,
                    created_at: stored.created_at,
                    updated_at: chapter.updated_at,
                };
                let ghost before = self.chapters@;
                self.chapters.set(i, next);
                proof {
                    let after = self.chapters@;
                    if distinct_keys(before) {
                        assert forall|a: int, b: int|
                            0 <= a < b < after.len() && (#[trigger] after[a])@.manga_id == (
                            #[trigger] after[b])@.manga_id implies !after[a].number.close_to(
                            after[b].number,
                        ) by {
                            assert(after[a]@.manga_id == before[a]@.manga_id);
                            assert(after[b]@.manga_id == before[b]@.manga_id);
                            assert(after[a].number == before[a].number);
                            assert(after[b].number == before[b].number);
                        }
                    }
                }
            },
            None => {},
        }
    }

    /// The chapters that were downloaded before `cutoff`.
    pub fn get_old_chapters(&self, cutoff: i64) -> (r: Vec<Chapter>)
        ensures
            r@ == downloaded_before(self.chapters@, cutoff),
    {
        let mut out: Vec<Chapter> = Vec::new();
        let mut i: usize = 0;
        assert(self.chapters@.take(0) =~= Seq::<Chapter>::empty());
        while i < self.chapters.len()
            invariant
                i <= self.chapters.len(),
                out@ == downloaded_before(self.chapters@.take(i as int), cutoff),
            decreases self.chapters.len() - i,
        {
            assert(self.chapters@.take(i + 1).drop_last() =~= self.chapters@.take(i as int));
            let c = &self.chapters[i];
            let old = match c.downloaded_at {
                Some(at) => at < cutoff,
                None => false,
            };
            if c.status == ChapterStatus::Downloaded && old {
                out.push(c.clone());
            }
            i += 1;
        }
        assert(self.chapters@.take(self.chapters.len() as int) =~= self.chapters@);
        out
    }

    /// Marks the first chapter with the identifier `chapter_id` as deleted.
    pub fn mark_chapter_deleted(&mut self, chapter_id: &str)
        ensures
            final(self).manga == old(self).manga,
            final(self).pages == old(self).pages,
            final(self).scan_logs == old(self).scan_logs,
            final(self).chapters@.len() == old(self).chapters@.len(),
            match first_key(chapter_ids(old(self).chapters@), chapter_id@) {
                Some(i) => final(self).chapters@[i]@ == (ChapterView {
                    status: ChapterStatus::Deleted,
                    ..old(self).chapters@[i]@
                }) && forall|j: int|
                    0 <= j < old(self).chapters@.len() && j != i ==> final(self).chapters@[j]
                        == old(self).chapters@[j],
                None => final(self).chapters@ == old(self).chapters@,
            },
            old(self).wf() ==> final(self).wf(),
    {
        match self.chapter_index(chapter_id) {
            Some(i) => {
                let mut next = self.chapters[i].clone();
                next.status = ChapterStatus::Deleted;
                self.update_chapter(&next);
            },
            None => {},
        }
    }

    /// The index of the first page of the chapter `chapter_id` with the
    /// sequence number `page_number`.
    pub fn page_index(&self, chapter_id: &str, page_number: usize) -> (r: Option<usize>)
        ensures
            match r {
                Some(i) => is_page_slot(self.pages@, chapter_id@, page_number as nat, i as int),
                None => forall|j: int|
                    0 <= j < self.pages@.len() ==> !((#[trigger] self.pages@[j])@.chapter_id
                        == chapter_id@ && self.pages@[j]@.page_number == page_number),
            },
    {
        let key = chapter_id.to_owned();
        let mut i: usize = 0;
        while i < self.pages.len()
            invariant
                i <= self.pages.len(),
                key@ == chapter_id@,
                forall|j: int|
                    0 <= j < i ==> !((#[trigger] self.pages@[j])@.chapter_id == chapter_id@
                        && self.pages@[j]@.page_number == page_number),
            decreases self.pages.len() - i,
        {
            if self.pages[i].chapter_id == key && self.pages[i].page_number == page_number {
                return Some(i);
            }
            i += 1;
        }
        None
    }

    /// Puts a page into the store: in place of the page that its chapter
    /// has under its sequence number, or, where the chapter has none, behind
    /// the pages that are there.
    pub fn create_chapter_page(&mut self, page: ChapterPage)
        ensures
            final(self).manga == old(self).manga,
            final(self).chapters == old(self).chapters,
            final(self).scan_logs == old(self).scan_logs,
            (exists|i: int|
                is_page_slot(old(self).pages@, page@.chapter_id, page@.page_number, i)) ==> {
                &&& final(self).pages@.len() == old(self).pages@.len()
                &&& forall|i: int|
                    0 <= i < old(self).pages@.len() ==> #[trigger] final(self).pages@[i] == if is_page_slot(
                        old(self).pages@,
                        page@.chapter_id,
                        page@.page_number,
                        i,
                    ) {
                        page
                    } else {
                        old(self).pages@[i]
                    }
            },
            !(exists|i: int|
                is_page_slot(old(self).pages@, page@.chapter_id, page@.page_number, i))
                ==> final(self).pages@ == old(self).pages@.push(page),
            old(self).wf() ==> final(self).wf(),
    {
        match self.page_index(page.chapter_id.as_str(), page.page_number) {
            Some(i) => {
                let ghost before = self.pages@;
                self.pages.set(i, page);
                proof {
                    let after = self.pages@;
                    assert(is_page_slot(before, page@.chapter_id, page@.page_number, i as int));
                    assert forall|k: int| 0 <= k < before.len() implies #[trigger] after[k] == if is_page_slot(

                        before,
                        page@.chapter_id,
                        page@.page_number,
                        k,
                    ) {
                        page
                    } else {
                        before[k]
                    } by {
                        if k != i && is_page_slot(before, page@.chapter_id, page@.page_number, k) {
                            if k < i {
                                assert(!(before[k]@.chapter_id == page@.chapter_id
                                    && before[k]@.page_number == page@.page_number));
                            } else {
                                assert(!(before[i as int]@.chapter_id == page@.chapter_id
                                    && before[i as int]@.page_number == page@.page_number));
                            }
                        }
                    }
                    if distinct_pages(before) {
                        assert forall|a: int, b: int|
                            0 <= a < b < after.len() && (#[trigger] after[a])@.chapter_id == (
                            #[trigger] after[b])@.chapter_id implies after[a]@.page_number
                            != after[b]@.page_number by {
                            assert(after[a]@.chapter_id == before[a]@.chapter_id);
                            assert(after[b]@.chapter_id == before[b]@.chapter_id);
                            assert(after[a]@.page_number == before[a]@.page_number);
                            assert(after[b]@.page_number == before[b]@.page_number);
                        }
                    }
                }
            },
            None => {
                let ghost before = self.pages@;
                self.pages.push(page);
                proof {
                    let after = self.pages@;
                    assert forall|k: int|
                        !is_page_slot(before, page@.chapter_id, page@.page_number, k) by {
                        if 0 <= k < before.len() {
                            assert(!((#[trigger] before[k])@.chapter_id == page@.chapter_id
                                && before[k]@.page_number == page@.page_number));
                        }
                    }
                    if distinct_pages(before) {
                        assert forall|a: int, b: int|
                            0 <= a < b < after.len() && (#[trigger] after[a])@.chapter_id == (
                            #[trigger] after[b])@.chapter_id implies after[a]@.page_number
                            != after[b]@.page_number by {
                            if b < before.len() {
                                assert(after[a] == before[a] && after[b] == before[b]);
                            } else {
                                assert(after[a] == before[a]);
                            }
                        }
                    }
                }
            },
        }
    }

    /// Puts `pages` in place of the pages of the chapter `chapter_id`: the
    /// chapter's pages are removed, and `pages` are filed under the chapter,
    /// numbered from 1 without a gap in their order.
    pub fn replace_chapter_pages(&mut self, chapter_id: &str, pages: &Vec<ChapterPage>)
        ensures
            pages_replaced(
                old(self).pages@,
                final(self).pages@,
                chapter_id@,
                page_views(pages@),
            ),
            final(self).manga == old(self).manga,
            final(self).chapters == old(self).chapters,
            final(self).scan_logs == old(self).scan_logs,
            old(self).wf() ==> final(self).wf(),
    {
        self.delete_chapter_pages(chapter_id);
        let ghost others = self.pages@;
        proof {
            lemma_others_have_none(old(self).pages@, chapter_id@);
        }
        let mut k: usize = 0;
        assert(self.pages@.take(others.len() as int) =~= others);
        while k < pages.len()
            invariant
                k <= pages.len(),
                others == pages_of_others(old(self).pages@, chapter_id@),
                self.pages@.len() == others.len() + k,
                self.pages@.take(others.len() as int) == others,
                forall|j: int|
                    0 <= j < k ==> (#[trigger] self.pages@[others.len() + j])@ == filed(
                        page_views(pages@),
                        chapter_id@,
                    )[j],
                forall|j: int|
                    0 <= j < others.len() ==> (#[trigger] others[j])@.chapter_id != chapter_id@,
                self.manga == old(self).manga,
                self.chapters == old(self).chapters,
                self.scan_logs == old(self).scan_logs,
                old(self).wf() ==> distinct_pages(others),
            decreases pages.len() - k,
        {
            let page = &pages[k];
            let ghost before = self.pages@;
            self.pages.push(
                ChapterPage {
                    id: page.id.clone(),
                    chapter_id: chapter_id.to_owned(),
                    page_number: k + 1,
                    image_url: page.image_url.clone(),
                    local_path: crate::models::copy_text(&page.local_path),
                    file_size_bytes: page.file_size_bytes,
                    downloaded_at: page.downloaded_at,
                    created_at: page.created_at,
                },
            );
            proof {
                assert(self.pages@.take(others.len() as int) =~= before.take(others.len() as int));
                assert forall|j: int| 0 <= j < k + 1 implies (#[trigger] self.pages@[others.len()
                    + j])@ == filed(page_views(pages@), chapter_id@)[j] by {
                    if j < k {
                        assert(self.pages@[others.len() + j] == before[others.len() + j]);
                    }
                }
            }
            k += 1;
        }
        proof {
            let after = self.pages@;
            if old(self).wf() {
                assert forall|a: int, b: int|
                    0 <= a < b < after.len() && (#[trigger] after[a])@.chapter_id == (
                    #[trigger] after[b])@.chapter_id implies after[a]@.page_number
                    != after[b]@.page_number by {
                    let n = others.len() as int;
                    if b < n {
                        assert(after.take(n)[a] == after[a] && after.take(n)[b] == after[b]);
                    } else if a < n {
                        assert(after.take(n)[a] == after[a]);
                        assert(after[n + (b - n)]@ == filed(page_views(pages@), chapter_id@)[b - n]);
                    } else {
                        assert(after[n + (a - n)]@ == filed(page_views(pages@), chapter_id@)[a - n]);
                        assert(after[n + (b - n)]@ == filed(page_views(pages@), chapter_id@)[b - n]);
                    }
                }
            }
        }
    }

    /// The pages of the chapter `chapter_id`, in the order in which they
    /// were added.
    pub fn get_chapter_pages(&self, chapter_id: &str) -> (r: Vec<ChapterPage>)
        ensures
            r@ == pages_of_chapter(self.pages@, chapter_id@),
    {
        let key = chapter_id.to_owned();
        let mut out: Vec<ChapterPage> = Vec::new();
        let mut i: usize = 0;
        assert(self.pages@.take(0) =~= Seq::<ChapterPage>::empty());
        while i < self.pages.len()
            invariant
                i <= self.pages.len(),
                key@ == chapter_id@,
                out@ == pages_of_chapter(self.pages@.take(i as int), chapter_id@),
            decreases self.pages.len() - i,
        {
            assert(self.pages@.take(i + 1).drop_last() =~= self.pages@.take(i as int));
            if self.pages[i].chapter_id == key {
                out.push(self.pages[i].clone());
            }
            i += 1;
        }
        assert(self.pages@.take(self.pages.len() as int) =~= self.pages@);
        out
    }

    /// Removes the pages of the chapter `chapter_id`.
    pub fn delete_chapter_pages(&mut self, chapter_id: &str)
        ensures
            final(self).pages@ == pages_of_others(old(self).pages@, chapter_id@),
            final(self).manga == old(self).manga,
            final(self).chapters == old(self).chapters,
            final(self).scan_logs == old(self).scan_logs,
            old(self).wf() ==> final(self).wf(),
    {
        proof {
            lemma_others_distinct(self.pages@, chapter_id@);
        }
        let key = chapter_id.to_owned();
        let mut kept: Vec<ChapterPage> = Vec::new();
        let mut i: usize = 0;
        assert(self.pages@.take(0) =~= Seq::<ChapterPage>::empty());
        while i < self.pages.len()
            invariant
                i <= self.pages.len(),
                key@ == chapter_id@,
                *self == *old(self),
                kept@ == pages_of_others(self.pages@.take(i as int), chapter_id@),
            decreases self.pages.len() - i,
        {
            assert(self.pages@.take(i + 1).drop_last() =~= self.pages@.take(i as int));
            if !(self.pages[i].chapter_id == key) {
                kept.push(self.pages[i].clone());
            }
            i += 1;
        }
        assert(self.pages@.take(self.pages.len() as int) =~= self.pages@);
        self.pages = kept;
    }

    /// Appends a scan record.
    pub fn create_scan_log(&mut self, scan_log: ScanLog)
        ensures
            final(self).scan_logs@ == old(self).scan_logs@.push(scan_log),
            final(self).manga == old(self).manga,
            final(self).chapters == old(self).chapters,
            final(self).pages == old(self).pages,
    {
        self.scan_logs.push(scan_log);
    }

    /// Records what discovery found: adds each discovered chapter, in
    /// order, unless its title already has a chapter with a key within the
    /// tolerance. Gives the number of chapters added.
    pub fn record_discovery(&mut self, discovered: &Vec<Chapter>) -> (added: usize)
        ensures
            final(self).chapters@ == merged(old(self).chapters@, discovered@),
            added == final(self).chapters@.len() - old(self).chapters@.len(),
            final(self).manga == old(self).manga,
            final(self).pages == old(self).pages,
            final(self).scan_logs == old(self).scan_logs,
            old(self).wf() ==> final(self).wf(),
    {
        let mut added: usize = 0;
        let mut i: usize = 0;
        assert(discovered@.take(0) =~= Seq::<Chapter>::empty());
        while i < discovered.len()
            invariant
                i <= discovered.len(),
                added <= i,
                self.chapters@ == merged(old(self).chapters@, discovered@.take(i as int)),
                added == self.chapters@.len() - old(self).chapters@.len(),
                self.manga == old(self).manga,
                self.pages == old(self).pages,
                self.scan_logs == old(self).scan_logs,
                old(self).wf() ==> self.wf(),
            decreases discovered.len() - i,
        {
            assert(discovered@.take(i + 1).drop_last() =~= discovered@.take(i as int));
            let c = &discovered[i];
            match self.close_index(c.manga_id.as_str(), c.number) {
                Some(_) => {},
                None => {
                    proof {
                        lemma_push_distinct(self.chapters@, *c);
                    }
                    self.chapters.push(c.clone());
                    added += 1;
                },
            }
            i += 1;
        }
        assert(discovered@.take(discovered.len() as int) =~= discovered@);
        added
    }
}

/// Adding a chapter whose title has no chapter with a close key keeps the
/// keys of every title distinct.
pub proof fn lemma_push_distinct(chapters: Seq<Chapter>, c: Chapter)
    requires
        !has_close(chapters, c@.manga_id, c.number),
    ensures
        distinct_keys(chapters) ==> distinct_keys(chapters.push(c)),
{
    let after = chapters.push(c);
    if distinct_keys(chapters) {
        assert forall|i: int, j: int|
            0 <= i < j < after.len() && (#[trigger] after[i])@.manga_id == (
            #[trigger] after[j])@.manga_id implies !after[i].number.close_to(after[j].number) by {
            if j == chapters.len() {
                assert(!is_close_at(chapters, c@.manga_id, c.number, i));
            } else {
                assert(after[i] == chapters[i] && after[j] == chapters[j]);
            }
        }
    }
}


/// Discovery only adds: the records that were there stay where they were.
pub proof fn lemma_merged_extends(existing: Seq<Chapter>, discovered: Seq<Chapter>)
    ensures
        existing.len() <= merged(existing, discovered).len(),
        merged(existing, discovered).take(existing.len() as int) == existing,
    decreases discovered.len(),
{
    if discovered.len() == 0 {
        assert(existing.take(existing.len() as int) =~= existing);
    } else {
        let before = merged(existing, discovered.drop_last());
        lemma_merged_extends(existing, discovered.drop_last());
        assert(before.push(discovered.last()).take(existing.len() as int) =~= before.take(
            existing.len() as int,
        ));
    }
}

/// A close chapter stays close when records are added after it.
pub proof fn lemma_has_close_extends(
    shorter: Seq<Chapter>,
    longer: Seq<Chapter>,
    manga_id: Seq<char>,
    number: ChapterNumber,
)
    requires
        shorter.len() <= longer.len(),
        longer.take(shorter.len() as int) == shorter,
        has_close(shorter, manga_id, number),
    ensures
        has_close(longer, manga_id, number),
{
    let i = choose|i: int| is_close_at(shorter, manga_id, number, i);
    assert(longer.take(shorter.len() as int)[i] == longer[i]);
    assert(is_close_at(longer, manga_id, number, i));
}

/// Tolerance-based deduplication. After discovery
///
/// - the title of every discovered chapter has a chapter with a key within
///   the tolerance of the discovered one: the chapter is in the store, as
///   itself or as the record it duplicates;
/// - no chapter that discovery added has a key within the tolerance of an
///   earlier chapter of its title, so no duplicate record was created;
/// - where no title had two chapters with one key before, none has now.
pub proof fn lemma_dedup(existing: Seq<Chapter>, discovered: Seq<Chapter>)
    ensures
        forall|k: int|
            0 <= k < discovered.len() ==> has_close(
                merged(existing, discovered),
                (#[trigger] discovered[k])@.manga_id,
                discovered[k].number,
            ),
        forall|i: int, j: int|
            0 <= i < j < merged(existing, discovered).len() && existing.len() <= j && (
            #[trigger] merged(existing, discovered)[i])@.manga_id == (#[trigger] merged(
                existing,
                discovered,
            )[j])@.manga_id ==> !merged(existing, discovered)[i].number.close_to(
                merged(existing, discovered)[j].number,
            ),
        distinct_keys(existing) ==> distinct_keys(merged(existing, discovered)),
    decreases discovered.len(),
{
    let all = merged(existing, discovered);
    if discovered.len() > 0 {
        let shorter = discovered.drop_last();
        let before = merged(existing, shorter);
        let c = discovered.last();
        lemma_dedup(existing, shorter);
        lemma_merged_extends(existing, shorter);
        assert(all.len() >= before.len() && all.take(before.len() as int) =~= before);
        assert forall|k: int| 0 <= k < discovered.len() implies has_close(
            all,
            (#[trigger] discovered[k])@.manga_id,
            discovered[k].number,
        ) by {
            if k < shorter.len() {
                assert(shorter[k] == discovered[k]);
                lemma_has_close_extends(before, all, discovered[k]@.manga_id, discovered[k].number);
            } else if has_close(before, c@.manga_id, c.number) {
            } else {
                assert(is_close_at(all, c@.manga_id, c.number, before.len() as int));
            }
        }
        assert forall|i: int, j: int|
            0 <= i < j < all.len() && existing.len() <= j && (#[trigger] all[i])@.manga_id == (
            #[trigger] all[j])@.manga_id implies !all[i].number.close_to(all[j].number) by {
            if j < before.len() {
                assert(all[i] == before[i] && all[j] == before[j]);
            } else {
                assert(all[i] == before[i]);
                assert(!is_close_at(before, c@.manga_id, c.number, i));
            }
        }
        if distinct_keys(existing) {
            if !has_close(before, c@.manga_id, c.number) {
                lemma_push_distinct(before, c);
            }
        }
    }
}

/// Discovery that finds only chapters which the store already has adds
/// nothing.
pub proof fn lemma_merged_known(existing: Seq<Chapter>, discovered: Seq<Chapter>)
    requires
        forall|k: int|
            0 <= k < discovered.len() ==> has_close(
                existing,
                (#[trigger] discovered[k])@.manga_id,
                discovered[k].number,
            ),
    ensures
        merged(existing, discovered) == existing,
    decreases discovered.len(),
{
    if discovered.len() > 0 {
        let shorter = discovered.drop_last();
        assert forall|k: int| 0 <= k < shorter.len() implies has_close(
            existing,
            (#[trigger] shorter[k])@.manga_id,
            shorter[k].number,
        ) by {
            assert(shorter[k] == discovered[k]);
        }
        lemma_merged_known(existing, shorter);
        assert(discovered.last() == discovered[discovered.len() - 1]);
    }
}

/// The two lists name the same chapters: at each place the same title and
/// the same ordering key.
pub open spec fn same_keys(a: Seq<Chapter>, b: Seq<Chapter>) -> bool {
    &&& a.len() == b.len()
    &&& forall|k: int|
        0 <= k < a.len() ==> (#[trigger] a[k])@.manga_id == b[k]@.manga_id && a[k].number
            == b[k].number
}

/// Discovery is idempotent: run again on an unchanged listing, whose
/// chapters have the titles and keys that they had before, it adds no
/// chapter.
pub proof fn lemma_rediscovery_adds_nothing(
    existing: Seq<Chapter>,
    discovered: Seq<Chapter>,
    again: Seq<Chapter>,
)
    requires
        same_keys(discovered, again),
    ensures
        merged(merged(existing, discovered), again) == merged(existing, discovered),
{
    lemma_dedup(existing, discovered);
    let stored = merged(existing, discovered);
    assert forall|k: int| 0 <= k < again.len() implies has_close(
        stored,
        (#[trigger] again[k])@.manga_id,
        again[k].number,
    ) by {
        assert(has_close(stored, discovered[k]@.manga_id, discovered[k].number));
    }
    lemma_merged_known(stored, again);
}


/// What is left of the pages when a chapter's pages are taken out: none of
/// that chapter's, and each of them a page that was there.
pub proof fn lemma_others_have_none(pages: Seq<ChapterPage>, chapter_id: Seq<char>)
    ensures
        forall|j: int|
            0 <= j < pages_of_others(pages, chapter_id).len() ==> (#[trigger] pages_of_others(
                pages,
                chapter_id,
            )[j])@.chapter_id != chapter_id && pages.contains(pages_of_others(pages, chapter_id)[j]),
    decreases pages.len(),
{
    if pages.len() > 0 {
        let shorter = pages.drop_last();
        lemma_others_have_none(shorter, chapter_id);
        let rest = pages_of_others(pages, chapter_id);
        assert forall|j: int| 0 <= j < rest.len() implies (#[trigger] rest[j])@.chapter_id
            != chapter_id && pages.contains(rest[j]) by {
            if j < pages_of_others(shorter, chapter_id).len() {
                let x = pages_of_others(shorter, chapter_id)[j];
                assert(shorter.contains(x));
                let m = choose|m: int| 0 <= m < shorter.len() && shorter[m] == x;
                assert(pages[m] == x);
            } else {
                assert(rest[j] == pages[pages.len() - 1]);
            }
        }
    }
}

/// Taking a chapter's pages out leaves the sequence numbers of every
/// chapter distinct.
pub proof fn lemma_others_distinct(pages: Seq<ChapterPage>, chapter_id: Seq<char>)
    ensures
        distinct_pages(pages) ==> distinct_pages(pages_of_others(pages, chapter_id)),
    decreases pages.len(),
{
    if pages.len() > 0 && distinct_pages(pages) {
        let shorter = pages.drop_last();
        assert(distinct_pages(shorter)) by {
            assert forall|i: int, j: int|
                0 <= i < j < shorter.len() && (#[trigger] shorter[i])@.chapter_id == (
                #[trigger] shorter[j])@.chapter_id implies shorter[i]@.page_number
                != shorter[j]@.page_number by {
                assert(shorter[i] == pages[i] && shorter[j] == pages[j]);
            }
        }
        lemma_others_distinct(shorter, chapter_id);
        lemma_others_have_none(shorter, chapter_id);
        let before = pages_of_others(shorter, chapter_id);
        let rest = pages_of_others(pages, chapter_id);
        let last = pages.last();
        assert forall|i: int, j: int|
            0 <= i < j < rest.len() && (#[trigger] rest[i])@.chapter_id == (
            #[trigger] rest[j])@.chapter_id implies rest[i]@.page_number
            != rest[j]@.page_number by {
            if j < before.len() {
                assert(rest[i] == before[i] && rest[j] == before[j]);
            } else {
                assert(rest[j] == last);
                assert(rest[i] == before[i]);
                assert(shorter.contains(before[i]));
                let m = choose|m: int| 0 <= m < shorter.len() && shorter[m] == before[i];
                assert(pages[m] == before[i]);
                assert(pages[pages.len() - 1] == last);
            }
        }
    }
}

/// Putting a chapter in at the place behind which every chapter has a
/// smaller number, and before which none has, is putting it in by number.
pub proof fn lemma_placed_is_insert(sorted: Seq<Chapter>, c: Chapter, p: int)
    requires
        0 <= p <= sorted.len(),
        forall|k: int|
            p <= k < sorted.len() ==> (#[trigger] sorted[k]).number.thousandths
                < c.number.thousandths,
        p > 0 ==> sorted[p - 1].number.thousandths >= c.number.thousandths,
    ensures
        placed_by_number(sorted, c) == sorted.insert(p, c),
    decreases sorted.len() - p,
{
    if sorted.len() == 0 {
        assert(sorted.insert(p, c) =~= seq![c]);
    } else if p == sorted.len() {
        assert(sorted.insert(p, c) =~= sorted.push(c));
    } else {
        let shorter = sorted.drop_last();
        assert(sorted.last() == sorted[sorted.len() - 1]);
        assert forall|k: int| p <= k < shorter.len() implies (#[trigger] shorter[k]).number.thousandths
            < c.number.thousandths by {
            assert(shorter[k] == sorted[k]);
        }
        if p > 0 {
            assert(shorter[p - 1] == sorted[p - 1]);
        }
        lemma_placed_is_insert(shorter, c, p);
        assert(shorter.insert(p, c).push(sorted.last()) =~= sorted.insert(p, c));
    }
}

/// Putting a chapter into descending chapters by number leaves them
/// descending, and adds the chapter and nothing else.
pub proof fn lemma_placed_sorts(sorted: Seq<Chapter>, c: Chapter)
    requires
        descending(sorted),
    ensures
        descending(placed_by_number(sorted, c)),
        placed_by_number(sorted, c).to_multiset() == sorted.to_multiset().insert(c),
        placed_by_number(sorted, c).len() == sorted.len() + 1,
        forall|k: int|
            0 <= k < placed_by_number(sorted, c).len() ==> (#[trigger] placed_by_number(
                sorted,
                c,
            )[k]) == c || sorted.contains(placed_by_number(sorted, c)[k]),
    decreases sorted.len(),
{
    broadcast use vstd::seq_lib::group_to_multiset_ensures;

    let r = placed_by_number(sorted, c);
    if sorted.len() == 0 {
        assert(seq![c] =~= sorted.push(c));
    } else if sorted.last().number.thousandths >= c.number.thousandths {
        assert forall|i: int, j: int| 0 <= i < j < r.len() implies (#[trigger] r[i]).number.thousandths
            >= (#[trigger] r[j]).number.thousandths by {
            if j < sorted.len() {
                assert(r[i] == sorted[i] && r[j] == sorted[j]);
            } else {
                assert(r[i] == sorted[i]);
                assert(sorted[sorted.len() - 1] == sorted.last());
            }
        }
        assert forall|k: int| 0 <= k < r.len() implies (#[trigger] r[k]) == c || sorted.contains(
            r[k],
        ) by {
            if k < sorted.len() {
                assert(sorted[k] == r[k]);
            }
        }
    } else {
        let shorter = sorted.drop_last();
        let last = sorted.last();
        assert(descending(shorter)) by {
            assert forall|i: int, j: int| 0 <= i < j < shorter.len() implies (
            #[trigger] shorter[i]).number.thousandths >= (#[trigger] shorter[j]).number.thousandths by {
                assert(shorter[i] == sorted[i] && shorter[j] == sorted[j]);
            }
        }
        lemma_placed_sorts(shorter, c);
        let inner = placed_by_number(shorter, c);
        assert(sorted =~= shorter.push(last));
        assert(r.to_multiset() =~= sorted.to_multiset().insert(c));
        assert forall|k: int| 0 <= k < r.len() implies (#[trigger] r[k]) == c || sorted.contains(
            r[k],
        ) by {
            if k < inner.len() {
                assert(r[k] == inner[k]);
                if inner[k] != c {
                    assert(shorter.contains(inner[k]));
                    let m = choose|m: int| 0 <= m < shorter.len() && shorter[m] == inner[k];
                    assert(sorted[m] == inner[k]);
                }
            } else {
                assert(r[k] == last);
                assert(sorted[sorted.len() - 1] == last);
            }
        }
        assert forall|i: int, j: int| 0 <= i < j < r.len() implies (#[trigger] r[i]).number.thousandths
            >= (#[trigger] r[j]).number.thousandths by {
            if j < inner.len() {
                assert(r[i] == inner[i] && r[j] == inner[j]);
            } else {
                assert(r[j] == last);
                assert(r[i] == inner[i]);
                if inner[i] != c {
                    assert(shorter.contains(inner[i]));
                    let m = choose|m: int| 0 <= m < shorter.len() && shorter[m] == inner[i];
                    assert(sorted[m] == inner[i]);
                    assert(sorted[sorted.len() - 1] == last);
                }
            }
        }
    }
}

/// The listing by number is descending and holds the chapters it was given,
/// each as often as it was given.
pub proof fn lemma_by_number_sorts(chapters: Seq<Chapter>)
    ensures
        descending(by_number(chapters)),
        by_number(chapters).to_multiset() == chapters.to_multiset(),
        by_number(chapters).len() == chapters.len(),
    decreases chapters.len(),
{
    broadcast use vstd::seq_lib::group_to_multiset_ensures;

    if chapters.len() == 0 {
        assert(by_number(chapters).to_multiset() =~= chapters.to_multiset());
    } else {
        lemma_by_number_sorts(chapters.drop_last());
        lemma_placed_sorts(by_number(chapters.drop_last()), chapters.last());
        assert(chapters =~= chapters.drop_last().push(chapters.last()));
        assert(by_number(chapters).to_multiset() =~= chapters.to_multiset());
    }
}

} // verus!
