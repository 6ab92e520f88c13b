//! The configuration that the pipeline consumes: the sites with their
//! adapter types, the storage roots and the titles to monitor.

use vstd::prelude::*;
use crate::namemap::NameMap;

verus! {

/// The whole configuration.
pub struct Config {
    pub database: DatabaseConfig,
    pub storage: StorageConfig,
    /// The sites, by site name.
    pub sites: NameMap<SiteConfig>,
    pub scanner: ScannerConfig,
    pub notifications: NotificationConfig,
    pub manga: Vec<MangaConfig>,
}

/// Where the record store lives.
pub struct DatabaseConfig {
    pub url: String,
    pub max_connections: u32,
}

/// Where downloads are kept.
pub struct StorageConfig {
    /// The root of manual downloads.
    pub base_path: String,
    /// The root of automated downloads.
    pub scans_path: String,
    pub max_size_gb: u64,
    pub compression: bool,
    pub thumbnail_size: u32,
}

/// One site: its address, the types of its adapters and how to ask it.
pub struct SiteConfig {
    pub name: String,
    pub base_url: String,
    /// The type of the adapter that discovers chapters.
    pub scanner_type: String,
    /// The type of the adapter that extracts pages.
    pub downloader_type: String,
    pub rate_limit_ms: u64,
    pub user_agent: Option<String>,
    /// Request headers, by header name.
    pub headers: Option<NameMap<String>>,
    pub selectors: SelectorsConfig,
}

/// The CSS selectors of a site.
pub struct SelectorsConfig {
    pub manga_list: String,
    pub chapter_list: String,
    pub chapter_title: String,
    pub chapter_url: String,
    pub image_container: String,
    pub image_url: String,
    pub next_page: Option<String>,
}

/// A title to monitor.
pub struct MangaConfig {
    pub title: String,
    pub site: String,
    pub url: String,
    pub active: bool,
}

/// How scans are scheduled.
pub struct ScannerConfig {
    pub interval_minutes: u64,
    pub max_concurrent_scans: usize,
    pub retry_attempts: u32,
    pub retry_delay_ms: u64,
}

/// Where notifications go.
pub struct NotificationConfig {
    pub discord_webhook: Option<String>,
    pub telegram_bot_token: Option<String>,
    pub telegram_chat_id: Option<String>,
    pub email_smtp: Option<SmtpConfig>,
}

/// A mail server.
pub struct SmtpConfig {
    pub server: String,
    pub port: u16,
    pub username: String,
    pub password: String,
    pub from: String,
    pub to: Vec<String>,
}

impl Clone for StorageConfig {
    fn clone(&self) -> (r: Self)
        ensures
            r == *self,
    {
        StorageConfig {
            base_path: self.base_path.clone(),
            scans_path: self.scans_path.clone(),
            max_size_gb: self.max_size_gb,
            compression: self.compression,
            thumbnail_size: self.thumbnail_size,
        }
    }
}

impl Config {
    /// The configuration of the site named `site_name`, if there is one.
    pub fn get_site_config(&self, site_name: &str) -> (r: Option<&SiteConfig>)
        ensures
            match r {
                Some(site) => self.sites@.contains_key(site_name@) && *site
                    == self.sites@[site_name@],
                None => !self.sites@.contains_key(site_name@),
            },
    {
        self.sites.get(site_name)
    }
}


impl SiteConfig {
    /// The site is the built-in Eros site, with its selectors.
    pub open spec fn is_eros(&self) -> bool {
        &&& self.name@ == "Eros Moon"@
        &&& self.base_url@ == "https://eros-moon.xyz"@
        &&& self.scanner_type@ == "eros"@
        &&& self.downloader_type@ == "eros"@
        &&& self.rate_limit_ms == 1500
        &&& self.user_agent matches Some(agent) && agent@
            == "Mozilla/5.0 (Windows NT 10.0; Win64; x64) AppleWebKit/537.36 (KHTML, like Gecko) Chrome/91.0.4472.124 Safari/537.36"@
        &&& self.headers is None
        &&& self.selectors.manga_list@ == ".story_item"@
        &&& self.selectors.chapter_list@ == "#chapterlist li"@
        &&& self.selectors.chapter_title@ == ".chapternum"@
        &&& self.selectors.chapter_url@ == ".eph-num a"@
        &&& self.selectors.image_container@ == ".reader-main"@
        &&& self.selectors.image_url@ == ".reader-main img"@
        &&& self.selectors.next_page matches Some(next) && next@ == ".nav-next a"@
    }
}

impl Config {
    /// The configuration is the built-in one: the Eros site alone, a local
    /// SQLite store, downloads and scans below the working directory, a
    /// scan every ten minutes, no notifications and no titles.
    pub open spec fn is_default(&self) -> bool {
        &&& self.database.url@ == "sqlite:data/guloader.db"@
        &&& self.database.max_connections == 10
        &&& self.storage.base_path@ == "./downloads"@
        &&& self.storage.scans_path@ == "./scans"@
        &&& self.storage.max_size_gb == 50
        &&& self.storage.compression
        &&& self.storage.thumbnail_size == 200
        &&& self.sites@.dom() == Set::<Seq<char>>::empty().insert("eros"@)
        &&& self.sites@["eros"@].is_eros()
        &&& self.scanner.interval_minutes == 10
        &&& self.scanner.max_concurrent_scans == 5
        &&& self.scanner.retry_attempts == 3
        &&& self.scanner.retry_delay_ms == 5000
        &&& self.notifications.discord_webhook is None
        &&& self.notifications.telegram_bot_token is None
        &&& self.notifications.telegram_chat_id is None
        &&& self.notifications.email_smtp is None
        &&& self.manga@.len() == 0
    }

    /// Some title to monitor has the address `url`.
    pub open spec fn tracks(&self, url: Seq<char>) -> bool {
        exists|i: int| 0 <= i < self.manga@.len() && #[trigger] self.manga@[i].url@ == url
    }

    /// Adds a title to the titles to monitor, as an active one, unless a
    /// title with its address is among them already. Tells whether it was
    /// added.
    pub fn track(&mut self, title: &str, site: &str, url: &str) -> (added: bool)
        ensures
            added == !old(self).tracks(url@),
            !added ==> *final(self) == *old(self),
            added ==> {
                &&& final(self).manga@.len() == old(self).manga@.len() + 1
                &&& final(self).manga@.take(old(self).manga@.len() as int) == old(self).manga@
                &&& final(self).manga@.last().title@ == title@
                &&& final(self).manga@.last().site@ == site@
                &&& final(self).manga@.last().url@ == url@
                &&& final(self).manga@.last().active
                &&& final(self).database == old(self).database
                &&& final(self).storage == old(self).storage
                &&& final(self).sites == old(self).sites
                &&& final(self).scanner == old(self).scanner
                &&& final(self).notifications == old(self).notifications
            },
    {
        let key = url.to_owned();
        let mut i: usize = 0;
        while i < self.manga.len()
            invariant
                i <= self.manga.len(),
                key@ == url@,
                *self == *old(self),
                forall|j: int| 0 <= j < i ==> self.manga@[j].url@ != url@,
            decreases self.manga.len() - i,
        {
            if self.manga[i].url == key {
                return false;
            }
            i += 1;
        }
        self.manga.push(
            MangaConfig { title: title.to_owned(), site: site.to_owned(), url: key, active: true },
        );
        assert(self.manga@.take(old(self).manga@.len() as int) =~= old(self).manga@);
        true
    }
}

impl Default for Config {
    /// The built-in configuration.
    fn default() -> (r: Self)
        ensures
            r.is_default(),
    {
        let mut sites: NameMap<SiteConfig> = NameMap::new();
        sites.insert(
            "eros",
            SiteConfig {
                name: "Eros Moon".to_owned(),
                base_url: "https://eros-moon.xyz".to_owned(),
                scanner_type: "eros".to_owned(),
                downloader_type: "eros".to_owned(),
                rate_limit_ms: 1500,
                user_agent: Some(
                    "Mozilla/5.0 (Windows NT 10.0; Win64; x64) AppleWebKit/537.36 (KHTML, like Gecko) Chrome/91.0.4472.124 Safari/537.36".to_owned(),
                ),
                headers: None,
                selectors: SelectorsConfig {
                    manga_list: ".story_item".to_owned(),
                    chapter_list: "#chapterlist li".to_owned(),
                    chapter_title: ".chapternum".to_owned(),
                    chapter_url: ".eph-num a".to_owned(),
                    image_container: ".reader-main".to_owned(),
                    image_url: ".reader-main img".to_owned(),
                    next_page: Some(".nav-next a".to_owned()),
                },
            },
        );
        assert(sites@.dom() =~= Set::<Seq<char>>::empty().insert("eros"@));
        Config {
            database: DatabaseConfig { url: "sqlite:data/guloader.db".to_owned(), max_connections: 10 },
            storage: StorageConfig {
                base_path: "./downloads".to_owned(),
                scans_path: "./scans".to_owned(),
                max_size_gb: 50,
                compression: true,
                thumbnail_size: 200,
            },
            sites,
            scanner: ScannerConfig {
                interval_minutes: 10,
                max_concurrent_scans: 5,
                retry_attempts: 3,
                retry_delay_ms: 5000,
            },
            notifications: NotificationConfig {
                discord_webhook: None,
                telegram_bot_token: None,
                telegram_chat_id: None,
                email_smtp: None,
            },
            manga: Vec::new(),
        }
    }
}

} // verus!
