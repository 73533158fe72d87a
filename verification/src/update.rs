//! The consumer side of the synchronization run: typed events
//! emitted by the orchestrator, and the progress state a subscriber
//! keeps while applying them.
use vstd::prelude::*;

use crate::cards::Card;
use crate::ErrorKind;

verus! {

/// One event of the synchronization stream, in the order a consumer
/// receives them: the announced total, counters for items skipped as
/// already persisted, one extracted record, one non-fatal or fatal
/// failure, and the final completion mark.
#[derive(Debug, Clone, PartialEq)]
pub enum Event {
    MetadatasList(u32),
    IncreaseDownloadedCounter(usize),
    Card(Card),
    Error(ErrorKind),
    Finished,
}

/// The message a subscriber forwards to the progress state.
#[derive(Debug, Clone, PartialEq)]
pub enum Message {
    CardFetched(Event),
}

/// Which phase the progress display is in: waiting for the total, or
/// counting processed cards.
#[derive(Debug, Clone, Copy, PartialEq, Eq, Structural)]
pub enum DownloadStep {
    Metadatas,
    Card,
}

/// The progress state of one synchronization run.
///
/// Invariant: the processed count never exceeds the announced total,
/// and it only grows while events are applied.
#[derive(Debug, Clone)]
pub struct CardsUpdater {
    pub current_card_index: usize,
    pub current_card_name: String,
    pub total_cards: u32,
    pub step: DownloadStep,
}

/// The progress state after applying one event: the first announced
/// total switches the phase; counter events advance the processed
/// count, saturating at the total; other events leave the counters
/// unchanged.
pub open spec fn spec_apply_event(s: CardsUpdater, e: Event) -> CardsUpdater {
    match e {
        Event::MetadatasList(total) => if s.step is Metadatas {
            CardsUpdater { total_cards: total, step: DownloadStep::Card, ..s }
        } else {
            s
        },
        Event::IncreaseDownloadedCounter(n) => if s.step is Card {
            if s.current_card_index + n <= s.total_cards as usize {
                CardsUpdater { current_card_index: (s.current_card_index + n) as usize, ..s }
            } else {
                CardsUpdater { current_card_index: s.total_cards as usize, ..s }
            }
        } else {
            s
        },
        Event::Card(card) => if s.step is Card {
            if s.current_card_index + 1 <= s.total_cards as usize {
                CardsUpdater {
                    current_card_index: (s.current_card_index + 1) as usize,
                    current_card_name: card.name,
                    ..s
                }
            } else {
                CardsUpdater {
                    current_card_index: s.total_cards as usize,
                    current_card_name: card.name,
                    ..s
                }
            }
        } else {
            s
        },
        Event::Error(_) => s,
        Event::Finished => s,
    }
}

/// The progress state after applying a whole stream of events in
/// order.
pub open spec fn spec_run_events(s: CardsUpdater, events: Seq<Event>) -> CardsUpdater
    decreases events.len(),
{
    if events.len() == 0 {
        s
    } else {
        spec_run_events(spec_apply_event(s, events[0]), events.skip(1))
    }
}

impl CardsUpdater {
    /// The progress invariant: the processed count stays within the
    /// announced total, and no counting happens before a total is
    /// known.
    pub open spec fn wf(&self) -> bool {
        &&& self.current_card_index <= self.total_cards as usize
        &&& self.step is Metadatas ==> self.current_card_index == 0 && self.total_cards == 0
    }

    /// A fresh progress state: nothing counted, total unknown.
    pub fn new() -> (r: Self)
        ensures
            r.wf(),
            r.current_card_index == 0,
            r.total_cards == 0,
            r.current_card_name@ == Seq::<char>::empty(),
            r.step is Metadatas,
    {
        CardsUpdater {
            current_card_index: 0,
            current_card_name: String::new(),
            total_cards: 0,
            step: DownloadStep::Metadatas,
        }
    }

    /// Apply one forwarded event.  The processed count never
    /// decreases and, by the invariant, never exceeds the total.
    pub fn update(&mut self, message: Message)
        requires
            old(self).wf(),
        ensures
            final(self).wf(),
            match message {
                Message::CardFetched(e) => *final(self) == spec_apply_event(*old(self), e),
            },
            final(self).current_card_index >= old(self).current_card_index,
    {
        let Message::CardFetched(event) = message;
        match event {
            Event::MetadatasList(total) => {
                match self.step {
                    DownloadStep::Metadatas => {
                        self.total_cards = total;
                        self.step = DownloadStep::Card;
                    },
                    DownloadStep::Card => {},
                }
            },
            Event::IncreaseDownloadedCounter(n) => {
                match self.step {
                    DownloadStep::Card => {
                        let total = self.total_cards as usize;
                        if n <= total - self.current_card_index {
                            self.current_card_index = self.current_card_index + n;
                        } else {
                            self.current_card_index = total;
                        }
                    },
                    DownloadStep::Metadatas => {},
                }
            },
            Event::Card(card) => {
                match self.step {
                    DownloadStep::Card => {
                        let total = self.total_cards as usize;
                        if 1 <= total - self.current_card_index {
                            self.current_card_index = self.current_card_index + 1;
                        } else {
                            self.current_card_index = total;
                        }
                        self.current_card_name = card.name;
                    },
                    DownloadStep::Metadatas => {},
                }
            },
            Event::Error(_) => {},
            Event::Finished => {},
        }
    }
}

/// Applying one event preserves the progress invariant and never
/// decreases the processed count.
pub proof fn lemma_apply_event_monotone(s: CardsUpdater, e: Event)
    requires
        s.wf(),
    ensures
        spec_apply_event(s, e).wf(),
        spec_apply_event(s, e).current_card_index >= s.current_card_index,
{
}

/// Progress monotonicity: across any stream of events applied to a
/// well-formed progress state, the processed count is non-decreasing
/// and, by the preserved invariant, never exceeds the announced
/// total.
pub proof fn lemma_progress_monotone(s: CardsUpdater, events: Seq<Event>)
    requires
        s.wf(),
    ensures
        spec_run_events(s, events).wf(),
        spec_run_events(s, events).current_card_index >= s.current_card_index,
    decreases events.len(),
{
    if events.len() > 0 {
        lemma_apply_event_monotone(s, events[0]);
        lemma_progress_monotone(spec_apply_event(s, events[0]), events.skip(1));
    }
}

} // verus!
