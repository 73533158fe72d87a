//! The synchronization orchestrator: a state machine that sequences
//! count discovery, listing enumeration, the resume filter and
//! per-item detail processing, emitting events as it advances.
//!
//! The machine owns no I/O.  `next_request` names the one fetch or
//! store read the run needs next; the caller performs it and hands
//! the outcome to the matching `on_*` step, which advances the state
//! exactly once and returns the events to publish.
use vstd::prelude::*;

use crate::cards::Card;
use crate::get_cards::{get_max_page, spec_max_page};
use crate::spec_err_equiv;
use crate::update::Event;
use crate::ErrorKind;

verus! {

/// The identifiers of `all` that are not in `known`, in the order
/// `all` lists them.
pub open spec fn spec_pending(all: Seq<Seq<char>>, known: Seq<Seq<char>>) -> Seq<Seq<char>>
    decreases all.len(),
{
    if all.len() == 0 {
        Seq::empty()
    } else {
        let rest = spec_pending(all.drop_last(), known);
        if !known.contains(all.last()) {
            rest.push(all.last())
        } else {
            rest
        }
    }
}

/// The pending list is never longer than the full listing.
pub proof fn lemma_pending_len(all: Seq<Seq<char>>, known: Seq<Seq<char>>)
    ensures
        spec_pending(all, known).len() <= all.len(),
    decreases all.len(),
{
    if all.len() > 0 {
        lemma_pending_len(all.drop_last(), known);
    }
}

/// Resume correctness law, membership: the pending list holds
/// exactly the identifiers listed in `all` that are not already
/// known, and `spec_pending`'s defining equation keeps them in
/// `all`'s order.
pub proof fn lemma_pending_membership(all: Seq<Seq<char>>, known: Seq<Seq<char>>)
    ensures
        forall|id: Seq<char>|
            #[trigger] spec_pending(all, known).contains(id) <==> all.contains(id)
                && !known.contains(id),
    decreases all.len(),
{
    if all.len() > 0 {
        let a = all.drop_last();
        let l = all.last();
        lemma_pending_membership(a, known);
        assert(all =~= a.push(l));
        if !known.contains(l) {
            assert(spec_pending(all, known) == spec_pending(a, known).push(l));
        } else {
            assert(spec_pending(all, known) == spec_pending(a, known));
        }
        assert forall|id: Seq<char>|
            #[trigger] spec_pending(all, known).contains(id) <==> all.contains(id)
                && !known.contains(id) by {
            vstd::seq_lib::lemma_seq_contains_after_push(a, l, id);
            assert(all.contains(id) <==> id == l || a.contains(id));
            if !known.contains(l) {
                vstd::seq_lib::lemma_seq_contains_after_push(spec_pending(a, known), l, id);
                assert(spec_pending(all, known).contains(id) <==> id == l || spec_pending(
                    a,
                    known,
                ).contains(id));
            }
        }
    }
}

/// Resume correctness law, multiplicity: a listing without
/// duplicates yields a pending list without duplicates, so each
/// missing identifier is fetched once.
pub proof fn lemma_pending_no_duplicates(all: Seq<Seq<char>>, known: Seq<Seq<char>>)
    requires
        all.no_duplicates(),
    ensures
        spec_pending(all, known).no_duplicates(),
    decreases all.len(),
{
    if all.len() > 0 {
        let a = all.drop_last();
        let l = all.last();
        assert(a.no_duplicates());
        lemma_pending_no_duplicates(a, known);
        if !known.contains(l) {
            lemma_pending_membership(a, known);
            assert(!a.contains(l)) by {
                if a.contains(l) {
                    let i = choose|i: int| 0 <= i < a.len() && a[i] == l;
                    assert(all[i] == all[all.len() - 1]);
                }
            }
            let p = spec_pending(a, known);
            assert(!p.contains(l));
            assert forall|i: int, j: int|
                0 <= i < j < p.push(l).len() implies p.push(l)[i] != p.push(l)[j] by {
                if j < p.len() {
                    assert(p[i] != p[j]);
                } else {
                    assert(p.push(l)[j] == l);
                    if p[i] == l {
                        assert(p.contains(l));
                    }
                }
            }
        }
    }
}

/// Resume correctness law, order: with a duplicate-free listing,
/// the pending list keeps the listing's relative order — pending
/// entries appear at strictly increasing positions of the listing.
pub proof fn lemma_pending_preserves_order(all: Seq<Seq<char>>, known: Seq<Seq<char>>)
    requires
        all.no_duplicates(),
    ensures
        forall|i: int, j: int|
            0 <= i < j < spec_pending(all, known).len() ==> all.index_of(
                #[trigger] spec_pending(all, known)[i],
            ) < all.index_of(#[trigger] spec_pending(all, known)[j]),
    decreases all.len(),
{
    if all.len() > 0 {
        let a = all.drop_last();
        let l = all.last();
        assert(a.no_duplicates());
        lemma_pending_preserves_order(a, known);
        lemma_pending_membership(a, known);
        let p = spec_pending(all, known);
        let q = spec_pending(a, known);
        assert forall|x: Seq<char>| a.contains(x) implies #[trigger] all.index_of(x)
            == a.index_of(x) && 0 <= a.index_of(x) < a.len() by {
            let k = a.index_of(x);
            assert(0 <= k < a.len() && a[k] == x);
            assert(all[k] == x);
            assert(all.contains(x));
            let c = all.index_of(x);
            assert(0 <= c < all.len() && all[c] == x);
            if c != k {
                assert(all[c] == all[k]);
            }
        }
        if !known.contains(l) {
            assert(p == q.push(l));
            assert(all.index_of(l) == all.len() - 1) by {
                assert(all[all.len() - 1] == l);
                assert(all.contains(l));
                let c = all.index_of(l);
                assert(0 <= c < all.len() && all[c] == l);
                if c != all.len() - 1 {
                    assert(all[c] == all[all.len() - 1]);
                }
            }
            assert forall|i: int, j: int| 0 <= i < j < p.len() implies all.index_of(
                #[trigger] p[i],
            ) < all.index_of(#[trigger] p[j]) by {
                assert(q.contains(q[i]));
                assert(a.contains(q[i]));
                if j < q.len() {
                    assert(q.contains(q[j]));
                    assert(a.contains(q[j]));
                } else {
                    assert(p[j] == l);
                }
            }
        } else {
            assert(p == q);
            assert forall|i: int, j: int| 0 <= i < j < p.len() implies all.index_of(
                #[trigger] p[i],
            ) < all.index_of(#[trigger] p[j]) by {
                assert(q.contains(q[i]));
                assert(q.contains(q[j]));
                assert(a.contains(q[i]));
                assert(a.contains(q[j]));
            }
        }
    }
}

/// Idempotence law: once every listed identifier is already known
/// to the store, the pending list is empty, so a repeated run
/// fetches no detail page and stores nothing new.
pub proof fn lemma_rerun_pending_empty(all: Seq<Seq<char>>, known: Seq<Seq<char>>)
    requires
        forall|i: int| 0 <= i < all.len() ==> known.contains(#[trigger] all[i]),
    ensures
        spec_pending(all, known) == Seq::<Seq<char>>::empty(),
    decreases all.len(),
{
    if all.len() > 0 {
        let a = all.drop_last();
        assert forall|i: int| 0 <= i < a.len() implies known.contains(#[trigger] a[i]) by {
            assert(a[i] == all[i]);
        }
        lemma_rerun_pending_empty(a, known);
        assert(known.contains(all.last()));
    }
}

/// Whether one of the known identifiers has exactly the characters
/// of `needle`.
fn contains_string(haystack: &Vec<String>, needle: &str) -> (r: bool)
    ensures
        r == haystack.deep_view().contains(needle@),
{
    let n = haystack.len();
    let mut i: usize = 0;
    while i < n
        invariant
            i <= n,
            n == haystack@.len(),
            forall|k: int| 0 <= k < i ==> #[trigger] haystack.deep_view()[k] != needle@,
        decreases n - i,
    {
        if crate::text::str_eq(haystack[i].as_str(), needle) {
            proof {
                assert(haystack.deep_view()[i as int] == needle@);
            }
            return true;
        }
        i = i + 1;
    }
    false
}

/// The resume filter: the identifiers of `cards_list` that are not
/// in `already_downloaded`, in listing order.  Already persisted
/// items are never fetched again.
pub fn exclude_already_downloaded(cards_list: Vec<String>, already_downloaded: &Vec<String>) -> (r:
    Vec<String>)
    ensures
        r.deep_view() == spec_pending(cards_list.deep_view(), already_downloaded.deep_view()),
{
    let n = cards_list.len();
    let mut r: Vec<String> = Vec::new();
    let mut i: usize = 0;
    while i < n
        invariant
            i <= n,
            n == cards_list@.len(),
            r.deep_view() == spec_pending(
                cards_list.deep_view().take(i as int),
                already_downloaded.deep_view(),
            ),
        decreases n - i,
    {
        let ghost prev = r.deep_view();
        let ghost taken = cards_list.deep_view().take(i + 1);
        proof {
            assert(taken.drop_last() =~= cards_list.deep_view().take(i as int));
            assert(taken.last() == cards_list.deep_view()[i as int]);
        }
        let id = cards_list[i].clone();
        if !contains_string(already_downloaded, id.as_str()) {
            r.push(id);
            proof {
                assert(r.deep_view() =~= prev.push(cards_list.deep_view()[i as int]));
            }
        }
        i = i + 1;
    }
    proof {
        assert(cards_list.deep_view().take(n as int) =~= cards_list.deep_view());
    }
    r
}

/// The state of one synchronization run.  Transitions are strictly
/// forward; `Failed` is terminal and holds the fatal error, and
/// `Finished` is terminal success.
#[derive(Debug)]
pub enum SyncState {
    AwaitingMetadata,
    AwaitingListing { total: u32, next_page: u32, ids: Vec<String> },
    AwaitingDetail { pending: Vec<String>, next: usize },
    Finished,
    Failed { error: ErrorKind },
}

/// What the run needs from the outside world next: one page fetch,
/// one store read, or nothing because the run has ended.
#[derive(Debug)]
pub enum SyncRequest {
    FetchMetadata,
    FetchListingPage { page: u32 },
    ReadKnownIds,
    FetchDetail { card_number: String },
    Idle,
}

impl SyncState {
    /// Structural soundness of a run state: page numbers stay within
    /// the page count, and a detail phase always has an item left.
    pub open spec fn wf(&self) -> bool {
        match *self {
            SyncState::AwaitingListing { total, next_page, ids } => 1 <= next_page
                && next_page as int <= spec_max_page(total) + 1,
            SyncState::AwaitingDetail { pending, next } => next < pending@.len(),
            _ => true,
        }
    }

    /// A fresh run, about to discover the total count.
    pub fn new() -> (r: Self)
        ensures
            r is AwaitingMetadata,
            r.wf(),
    {
        SyncState::AwaitingMetadata
    }

    /// The single outside step the run is suspended on.
    pub fn next_request(&self) -> (r: SyncRequest)
        requires
            self.wf(),
        ensures
            match *self {
                SyncState::AwaitingMetadata => r is FetchMetadata,
                SyncState::AwaitingListing { total, next_page, ids } => if next_page as int
                    <= spec_max_page(total) {
                    r matches SyncRequest::FetchListingPage { page } && page == next_page
                } else {
                    r is ReadKnownIds
                },
                SyncState::AwaitingDetail { pending, next } => r matches SyncRequest::FetchDetail {
                    card_number,
                } && card_number@ == pending.deep_view()[next as int],
                SyncState::Finished => r is Idle,
                SyncState::Failed { .. } => r is Idle,
            },
    {
        match self {
            SyncState::AwaitingMetadata => SyncRequest::FetchMetadata,
            SyncState::AwaitingListing { total, next_page, ids } => {
                if *next_page <= get_max_page(*total) {
                    SyncRequest::FetchListingPage { page: *next_page }
                } else {
                    SyncRequest::ReadKnownIds
                }
            },
            SyncState::AwaitingDetail { pending, next } => {
                SyncRequest::FetchDetail { card_number: pending[*next].clone() }
            },
            SyncState::Finished => SyncRequest::Idle,
            SyncState::Failed { .. } => SyncRequest::Idle,
        }
    }

    /// Consume the total-count result.  Success announces the total
    /// and opens the listing phase; failure is fatal, reported once.
    /// In any other state the input is ignored.
    pub fn on_metadata(&mut self, result: Result<u32, ErrorKind>) -> (events: Vec<Event>)
        requires
            old(self).wf(),
        ensures
            final(self).wf(),
            match *old(self) {
                SyncState::AwaitingMetadata => match result {
                    Ok(total) => {
                        &&& *final(self) matches SyncState::AwaitingListing {
                            total: t,
                            next_page,
                            ids,
                        } && t == total && next_page == 1 && ids.deep_view() == Seq::<
                            Seq<char>,
                        >::empty()
                        &&& events@ == seq![Event::MetadatasList(total)]
                    },
                    Err(e) => {
                        &&& *final(self) matches SyncState::Failed { error } && error == e
                        &&& events@.len() == 1
                        &&& events@[0] matches Event::Error(e2) && spec_err_equiv(e2, e)
                    },
                },
                _ => *final(self) == *old(self) && events@ == Seq::<Event>::empty(),
            },
    {
        match self {
            SyncState::AwaitingMetadata => {
                let mut events: Vec<Event> = Vec::new();
                match result {
                    Ok(total) => {
                        *self = SyncState::AwaitingListing { total, next_page: 1, ids: Vec::new() };
                        events.push(Event::MetadatasList(total));
                        proof {
                            assert(events@ =~= seq![Event::MetadatasList(total)]);
                        }
                    },
                    Err(e) => {
                        events.push(Event::Error(e.duplicate()));
                        *self = SyncState::Failed { error: e };
                    },
                }
                events
            },
            _ => Vec::new(),
        }
    }

    /// Consume one listing page's identifiers.  Success appends them
    /// in page order and moves to the next page; a listing failure
    /// aborts the run, which is this machine's page-error policy.
    /// In any other state the input is ignored.
    pub fn on_listing_page(&mut self, result: Result<Vec<String>, ErrorKind>) -> (events: Vec<
        Event,
    >)
        requires
            old(self).wf(),
        ensures
            final(self).wf(),
            match *old(self) {
                SyncState::AwaitingListing { total, next_page, ids } => if next_page as int
                    <= spec_max_page(total) {
                    match result {
                        Ok(new_ids) => {
                            &&& *final(self) matches SyncState::AwaitingListing {
                                total: t2,
                                next_page: p2,
                                ids: ids2,
                            } && t2 == total && p2 == next_page + 1 && ids2.deep_view()
                                == ids.deep_view() + new_ids.deep_view()
                            &&& events@ == Seq::<Event>::empty()
                        },
                        Err(e) => {
                            &&& *final(self) matches SyncState::Failed { error } && error == e
                            &&& events@.len() == 1
                            &&& events@[0] matches Event::Error(e2) && spec_err_equiv(e2, e)
                        },
                    }
                } else {
                    *final(self) == *old(self) && events@ == Seq::<Event>::empty()
                },
                _ => *final(self) == *old(self) && events@ == Seq::<Event>::empty(),
            },
    {
        match self {
            SyncState::AwaitingListing { total, next_page, ids } => {
                let max = get_max_page(*total);
                if *next_page <= max {
                    match result {
                        Ok(mut new_ids) => {
                            let ghost prev = ids.deep_view();
                            let ghost added = new_ids.deep_view();
                            ids.append(&mut new_ids);
                            proof {
                                assert(ids.deep_view() =~= prev + added);
                            }
                            *next_page = *next_page + 1;
                            Vec::new()
                        },
                        Err(e) => {
                            let mut events: Vec<Event> = Vec::new();
                            events.push(Event::Error(e.duplicate()));
                            *self = SyncState::Failed { error: e };
                            events
                        },
                    }
                } else {
                    Vec::new()
                }
            },
            _ => Vec::new(),
        }
    }

    /// Consume the store's known identifiers, once the listing is
    /// complete.  Items already known are counted as done without
    /// re-processing; an empty pending list finishes the run at
    /// once.  In any other state the input is ignored.
    pub fn on_known_ids(&mut self, known: Vec<String>) -> (events: Vec<Event>)
        requires
            old(self).wf(),
        ensures
            final(self).wf(),
            match *old(self) {
                SyncState::AwaitingListing { total, next_page, ids } => if next_page as int
                    > spec_max_page(total) {
                    {
                        let pending = spec_pending(ids.deep_view(), known.deep_view());
                        let skipped = ids.deep_view().len() - pending.len();
                        if pending.len() == 0 {
                            &&& *final(self) is Finished
                            &&& events@ == seq![
                                Event::IncreaseDownloadedCounter(skipped as usize),
                                Event::Finished,
                            ]
                        } else {
                            &&& *final(self) matches SyncState::AwaitingDetail { pending: p, next }
                                && p.deep_view() == pending && next == 0
                            &&& events@ == seq![
                                Event::IncreaseDownloadedCounter(skipped as usize),
                            ]
                        }
                    }
                } else {
                    *final(self) == *old(self) && events@ == Seq::<Event>::empty()
                },
                _ => *final(self) == *old(self) && events@ == Seq::<Event>::empty(),
            },
    {
        match self {
            SyncState::AwaitingListing { total, next_page, ids } => {
                let max = get_max_page(*total);
                if *next_page > max {
                    let mut taken: Vec<String> = Vec::new();
                    core::mem::swap(ids, &mut taken);
                    let ids_len = taken.len();
                    let pending = exclude_already_downloaded(taken, &known);
                    proof {
                        lemma_pending_len(old(self)->AwaitingListing_ids.deep_view(), known.deep_view());
                    }
                    let skipped = ids_len - pending.len();
                    let mut events: Vec<Event> = Vec::new();
                    events.push(Event::IncreaseDownloadedCounter(skipped));
                    if pending.len() == 0 {
                        *self = SyncState::Finished;
                        events.push(Event::Finished);
                        proof {
                            assert(events@ =~= seq![
                                Event::IncreaseDownloadedCounter(skipped),
                                Event::Finished,
                            ]);
                        }
                    } else {
                        *self = SyncState::AwaitingDetail { pending, next: 0 };
                        proof {
                            assert(events@ =~= seq![Event::IncreaseDownloadedCounter(skipped)]);
                        }
                    }
                    events
                } else {
                    Vec::new()
                }
            },
            _ => Vec::new(),
        }
    }

    /// Consume one detail result for the current pending item.  A
    /// record is published and persisted by the caller; a failure is
    /// reported and the run continues with the next item — one bad
    /// detail page never stops the run.  After the last item the run
    /// finishes.  In any other state the input is ignored.
    pub fn on_detail(&mut self, result: Result<Card, ErrorKind>) -> (events: Vec<Event>)
        requires
            old(self).wf(),
        ensures
            final(self).wf(),
            match *old(self) {
                SyncState::AwaitingDetail { pending, next } => {
                    let last = next + 1 == pending@.len();
                    &&& if last {
                        *final(self) is Finished
                    } else {
                        *final(self) matches SyncState::AwaitingDetail { pending: p2, next: n2 }
                            && p2 == pending && n2 == next + 1
                    }
                    &&& match result {
                        Ok(card) => events@ == if last {
                            seq![Event::Card(card), Event::Finished]
                        } else {
                            seq![Event::Card(card)]
                        },
                        Err(e) => events@ == if last {
                            seq![Event::Error(e), Event::Finished]
                        } else {
                            seq![Event::Error(e)]
                        },
                    }
                },
                _ => *final(self) == *old(self) && events@ == Seq::<Event>::empty(),
            },
    {
        match self {
            SyncState::AwaitingDetail { pending, next } => {
                let mut events: Vec<Event> = Vec::new();
                match result {
                    Ok(card) => events.push(Event::Card(card)),
                    Err(e) => events.push(Event::Error(e)),
                }
                let len = pending.len();
                proof {
                    assert(*next < pending@.len());
                }
                if *next == len - 1 {
                    *self = SyncState::Finished;
                    events.push(Event::Finished);
                } else {
                    *next = *next + 1;
                }
                events
            },
            _ => Vec::new(),
        }
    }
}

} // verus!
