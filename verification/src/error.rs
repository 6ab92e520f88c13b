//! The failures of the acquisition pipeline.

use vstd::prelude::*;
use vstd::string::StringExecFns;

verus! {

/// A failure, with the text that describes it.
///
/// Transport, storage and filesystem failures arise where documents are
/// fetched and records are persisted; they reach the library as text.
/// Extraction and lookup failures arise in the library itself.
#[derive(Debug)]
pub enum GuLoaderError {
    /// The record store failed.
    Database(String),
    /// A fetch failed: timeout, connection failure or a non-2xx status.
    Http(String),
    /// The configuration could not be used.
    Config(String),
    /// A file or directory operation failed.
    Io(String),
    /// A value could not be serialized or deserialized.
    Serialization(String),
    /// A URL could not be parsed.
    Url(String),
    /// An image could not be processed.
    Image(String),
    /// An archive could not be assembled.
    Zip(String),
    /// The expected structure is absent from a fetched document.
    Scraping(String),
    /// No chapter has the given URL or identifier.
    ChapterNotFound(String),
    /// No title has the given identifier.
    MangaNotFound(String),
    /// No site, or no adapter, has the given name.
    SiteNotSupported(String),
}

/// The category of a failure.
#[derive(Clone, Copy, PartialEq, Eq, Structural, Debug)]
pub enum ErrorKind {
    Database,
    Http,
    Config,
    Io,
    Serialization,
    Url,
    Image,
    Zip,
    Scraping,
    ChapterNotFound,
    MangaNotFound,
    SiteNotSupported,
}

/// A failure as its category and the text it carries.
pub struct ErrorView {
    pub kind: ErrorKind,
    pub detail: Seq<char>,
}

impl View for GuLoaderError {
    type V = ErrorView;

    open spec fn view(&self) -> ErrorView {
        match self {
            GuLoaderError::Database(m) => ErrorView { kind: ErrorKind::Database, detail: m@ },
            GuLoaderError::Http(m) => ErrorView { kind: ErrorKind::Http, detail: m@ },
            GuLoaderError::Config(m) => ErrorView { kind: ErrorKind::Config, detail: m@ },
            GuLoaderError::Io(m) => ErrorView { kind: ErrorKind::Io, detail: m@ },
            GuLoaderError::Serialization(m) => ErrorView {
                kind: ErrorKind::Serialization,
                detail: m@,
            },
            GuLoaderError::Url(m) => ErrorView { kind: ErrorKind::Url, detail: m@ },
            GuLoaderError::Image(m) => ErrorView { kind: ErrorKind::Image, detail: m@ },
            GuLoaderError::Zip(m) => ErrorView { kind: ErrorKind::Zip, detail: m@ },
            GuLoaderError::Scraping(m) => ErrorView { kind: ErrorKind::Scraping, detail: m@ },
            GuLoaderError::ChapterNotFound(m) => ErrorView {
                kind: ErrorKind::ChapterNotFound,
                detail: m@,
            },
            GuLoaderError::MangaNotFound(m) => ErrorView {
                kind: ErrorKind::MangaNotFound,
                detail: m@,
            },
            GuLoaderError::SiteNotSupported(m) => ErrorView {
                kind: ErrorKind::SiteNotSupported,
                detail: m@,
            },
        }
    }
}

impl ErrorKind {
    /// The words that introduce a failure of this category.
    pub open spec fn heading(self) -> Seq<char> {
        match self {
            ErrorKind::Database => "Database error: "@,
            ErrorKind::Http => "HTTP request error: "@,
            ErrorKind::Config => "Configuration error: "@,
            ErrorKind::Io => "IO error: "@,
            ErrorKind::Serialization => "Serialization error: "@,
            ErrorKind::Url => "URL parsing error: "@,
            ErrorKind::Image => "Image processing error: "@,
            ErrorKind::Zip => "ZIP compression error: "@,
            ErrorKind::Scraping => "Scraping error: "@,
            ErrorKind::ChapterNotFound => "Chapter not found: "@,
            ErrorKind::MangaNotFound => "Manga not found: "@,
            ErrorKind::SiteNotSupported => "Site not supported: "@,
        }
    }

    /// The words that introduce a failure of this category.
    pub fn heading_text(self) -> (r: &'static str)
        ensures
            r@ == self.heading(),
    {
        match self {
            ErrorKind::Database => "Database error: ",
            ErrorKind::Http => "HTTP request error: ",
            ErrorKind::Config => "Configuration error: ",
            ErrorKind::Io => "IO error: ",
            ErrorKind::Serialization => "Serialization error: ",
            ErrorKind::Url => "URL parsing error: ",
            ErrorKind::Image => "Image processing error: ",
            ErrorKind::Zip => "ZIP compression error: ",
            ErrorKind::Scraping => "Scraping error: ",
            ErrorKind::ChapterNotFound => "Chapter not found: ",
            ErrorKind::MangaNotFound => "Manga not found: ",
            ErrorKind::SiteNotSupported => "Site not supported: ",
        }
    }
}

impl GuLoaderError {
    /// An extraction failure.
    pub fn scraping(msg: &str) -> (e: GuLoaderError)
        ensures
            e@ == (ErrorView { kind: ErrorKind::Scraping, detail: msg@ }),
    {
        GuLoaderError::Scraping(msg.to_owned())
    }

    /// A lookup failure for a chapter.
    pub fn chapter_not_found(chapter_id: &str) -> (e: GuLoaderError)
        ensures
            e@ == (ErrorView { kind: ErrorKind::ChapterNotFound, detail: chapter_id@ }),
    {
        GuLoaderError::ChapterNotFound(chapter_id.to_owned())
    }

    /// A lookup failure for a title.
    pub fn manga_not_found(manga_id: &str) -> (e: GuLoaderError)
        ensures
            e@ == (ErrorView { kind: ErrorKind::MangaNotFound, detail: manga_id@ }),
    {
        GuLoaderError::MangaNotFound(manga_id.to_owned())
    }

    /// A lookup failure for a site or an adapter.
    pub fn site_not_supported(site: &str) -> (e: GuLoaderError)
        ensures
            e@ == (ErrorView { kind: ErrorKind::SiteNotSupported, detail: site@ }),
    {
        GuLoaderError::SiteNotSupported(site.to_owned())
    }

    /// The category of the failure.
    pub fn kind(&self) -> (k: ErrorKind)
        ensures
            k == self@.kind,
    {
        match self {
            GuLoaderError::Database(_) => ErrorKind::Database,
            GuLoaderError::Http(_) => ErrorKind::Http,
            GuLoaderError::Config(_) => ErrorKind::Config,
            GuLoaderError::Io(_) => ErrorKind::Io,
            GuLoaderError::Serialization(_) => ErrorKind::Serialization,
            GuLoaderError::Url(_) => ErrorKind::Url,
            GuLoaderError::Image(_) => ErrorKind::Image,
            GuLoaderError::Zip(_) => ErrorKind::Zip,
            GuLoaderError::Scraping(_) => ErrorKind::Scraping,
            GuLoaderError::ChapterNotFound(_) => ErrorKind::ChapterNotFound,
            GuLoaderError::MangaNotFound(_) => ErrorKind::MangaNotFound,
            GuLoaderError::SiteNotSupported(_) => ErrorKind::SiteNotSupported,
        }
    }

    /// The text that the failure carries.
    pub fn detail(&self) -> (d: &String)
        ensures
            d@ == self@.detail,
    {
        match self {
            GuLoaderError::Database(m) => m,
            GuLoaderError::Http(m) => m,
            GuLoaderError::Config(m) => m,
            GuLoaderError::Io(m) => m,
            GuLoaderError::Serialization(m) => m,
            GuLoaderError::Url(m) => m,
            GuLoaderError::Image(m) => m,
            GuLoaderError::Zip(m) => m,
            GuLoaderError::Scraping(m) => m,
            GuLoaderError::ChapterNotFound(m) => m,
            GuLoaderError::MangaNotFound(m) => m,
            GuLoaderError::SiteNotSupported(m) => m,
        }
    }

    /// The failure in words: the heading of its category, then its text.
    pub fn message(&self) -> (m: String)
        ensures
            m@ == self@.kind.heading() + self@.detail,
    {
        let mut m = self.kind().heading_text().to_owned();
        m.append(self.detail().as_str());
        m
    }

    /// A failure of the same category with the same text.
    pub fn duplicate(&self) -> (e: GuLoaderError)
        ensures
            e@ == self@,
    {
        match self {
            GuLoaderError::Database(m) => GuLoaderError::Database(m.clone()),
            GuLoaderError::Http(m) => GuLoaderError::Http(m.clone()),
            GuLoaderError::Config(m) => GuLoaderError::Config(m.clone()),
            GuLoaderError::Io(m) => GuLoaderError::Io(m.clone()),
            GuLoaderError::Serialization(m) => GuLoaderError::Serialization(m.clone()),
            GuLoaderError::Url(m) => GuLoaderError::Url(m.clone()),
            GuLoaderError::Image(m) => GuLoaderError::Image(m.clone()),
            GuLoaderError::Zip(m) => GuLoaderError::Zip(m.clone()),
            GuLoaderError::Scraping(m) => GuLoaderError::Scraping(m.clone()),
            GuLoaderError::ChapterNotFound(m) => GuLoaderError::ChapterNotFound(m.clone()),
            GuLoaderError::MangaNotFound(m) => GuLoaderError::MangaNotFound(m.clone()),
            GuLoaderError::SiteNotSupported(m) => GuLoaderError::SiteNotSupported(m.clone()),
        }
    }
}

} // verus!
