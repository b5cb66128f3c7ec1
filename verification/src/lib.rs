//! Se621 is a multithreaded e621/e926 downloader.
//!
//! This library holds the rules of the downloader: how a query becomes a
//! sequence of listing requests and a container of units, and what a download
//! worker does with each unit that it takes from the shared queue.
use vstd::prelude::*;

pub mod download;
pub mod drain;
pub mod laws;
pub mod request;
pub mod scraper;
pub mod tags;
pub mod text;
pub mod unit;
pub mod worker;

verus! {

/// Client identification sent with every request.
pub const APP_USER_AGENT: &'static str = "Se621/0.5.1";

/// Number of empty polls of the shared queue after which a worker stops.
pub const MAX_CHAN_COUNT_TRY: usize = 20;

} // verus!
