//! A verified core for monitoring serialized-content sites.
//!
//! Site adapters turn fetched documents into catalog entries, chapters and
//! pages. The record store deduplicates chapters by their ordering key,
//! within a tolerance. The registries resolve a site's adapters and take a
//! title through its scan and a chapter through its download. The storage
//! manager lays out a chapter's files and packs its archive.
//!
//! The library fetches nothing and writes no file: its caller hands it the
//! documents and the outcomes of fetches, and carries out what it decides.

pub mod text;
pub mod number;
pub mod order;
pub mod namemap;
pub mod error;
pub mod stamp;
pub mod models;
pub mod config;
pub mod dom;
pub mod pattern;
pub mod traits;
pub mod scanners;
pub mod downloaders;
pub mod checkers;
pub mod archive;
pub mod storage;
pub mod store;
pub mod registry;
pub mod monitor;
