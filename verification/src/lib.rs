//! Verified core of an anime catalogue and downloader: parsers for the
//! scraped sites, matching and ranking rules, download bookkeeping and the
//! decisions taken while fetching episodes.
use vstd::prelude::*;

pub mod text;
pub mod rx;
pub mod num;
pub mod html;
pub mod matching;
pub mod anikuro;
pub mod consumet;
pub mod naming;
pub mod uniquestream;
pub mod applog;
pub mod providers;
pub mod hls;
pub mod catalog;
pub mod settings;
pub mod voiranime;
pub mod plan;
pub mod tasks;
pub mod animesama;
pub mod sidecar;
pub mod ytdlp;
pub mod fetcher;
pub mod sync;
pub mod board;
pub mod browse;
pub mod stats;
pub mod cookies;
pub mod card;

verus! {

} // verus!
