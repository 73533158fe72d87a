//! Incremental synchronization of a paginated card catalog.
//!
//! The library discovers the total number of cards, enumerates listing
//! pages to collect card identifiers, extracts structured card records
//! from detail pages, and drives a resumable, failure-tolerant state
//! machine that reports progress through typed events.  Fetching pages
//! and persisting records are left to the caller: every function here
//! works on plain values handed in and returns plain values.
pub mod cards;
pub mod collection;
pub mod config;
pub mod deck;
pub mod dom;
pub mod extensions_list;
pub mod get_cards;
pub mod get_number_of_cards;
pub mod sync;
pub mod text;
pub mod update;

pub use get_cards::{download_card, get_cards, get_max_page};
pub use get_number_of_cards::get_number_of_cards;

use vstd::prelude::*;

verus! {

/// A failure of one step of the synchronization pipeline.
///
/// `NumberOfCardsError` is fatal to a run: nothing can be paginated
/// without a total count.  The other two name the page or card that
/// failed and leave the rest of the run intact.
#[derive(Debug, Clone, PartialEq, Eq)]
pub enum ErrorKind {
    NumberOfCardsError,
    GetMetadatasError { page_number: u32 },
    DownloadCardError { card_number: String },
}

/// Two errors name the same failure: same variant, same page or
/// card.
pub open spec fn spec_err_equiv(a: ErrorKind, b: ErrorKind) -> bool {
    match (a, b) {
        (ErrorKind::NumberOfCardsError, ErrorKind::NumberOfCardsError) => true,
        (
            ErrorKind::GetMetadatasError { page_number: p },
            ErrorKind::GetMetadatasError { page_number: q },
        ) => p == q,
        (
            ErrorKind::DownloadCardError { card_number: c },
            ErrorKind::DownloadCardError { card_number: d },
        ) => c@ == d@,
        _ => false,
    }
}

impl ErrorKind {
    /// An error naming the same failure, so that one can be reported
    /// through an event while a terminal state keeps the other.
    pub fn duplicate(&self) -> (r: ErrorKind)
        ensures
            spec_err_equiv(r, *self),
    {
        match self {
            ErrorKind::NumberOfCardsError => ErrorKind::NumberOfCardsError,
            ErrorKind::GetMetadatasError { page_number } => ErrorKind::GetMetadatasError {
                page_number: *page_number,
            },
            ErrorKind::DownloadCardError { card_number } => ErrorKind::DownloadCardError {
                card_number: card_number.clone(),
            },
        }
    }
}

} // verus!
