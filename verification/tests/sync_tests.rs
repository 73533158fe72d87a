use shadowverse_collection::cards::{Card, CardClass, GameExtension};
use shadowverse_collection::sync::{exclude_already_downloaded, SyncRequest, SyncState};
use shadowverse_collection::update::{CardsUpdater, DownloadStep, Event, Message};
use shadowverse_collection::ErrorKind;

fn card(id: &str, name: &str) -> Card {
    Card {
        id: id.to_string(),
        name: name.to_string(),
        card_class: CardClass::Neutral,
        card_type: "Follower".to_string(),
        rarity: "BR".to_string(),
        card_trait: "Unknown".to_string(),
        hp: 1,
        attack: 1,
        cost: 1,
        is_evolved: false,
        details: String::new(),
        extension: GameExtension { id: "BP03".to_string(), name: "Vol.3".to_string() },
    }
}

fn ids(v: &[&str]) -> Vec<String> {
    v.iter().map(|s| s.to_string()).collect()
}

#[test]
fn resume_filter_preserves_order_and_membership() {
    let all = ids(&["a", "b", "c", "d"]);
    let known = ids(&["b", "d"]);
    assert_eq!(exclude_already_downloaded(all, &known), ids(&["a", "c"]));
}

#[test]
fn resume_filter_with_everything_known_is_empty() {
    let all = ids(&["a", "b", "c"]);
    let known = ids(&["c", "a", "b"]);
    assert_eq!(exclude_already_downloaded(all, &known), Vec::<String>::new());
}

#[test]
fn resume_filter_with_nothing_known_keeps_all() {
    let all = ids(&["a", "b"]);
    assert_eq!(exclude_already_downloaded(all.clone(), &Vec::new()), all);
}

#[test]
fn run_requests_follow_the_phases() {
    let mut run = SyncState::new();
    assert!(matches!(run.next_request(), SyncRequest::FetchMetadata));

    let events = run.on_metadata(Ok(30));
    assert_eq!(events, vec![Event::MetadatasList(30)]);
    assert!(matches!(run.next_request(), SyncRequest::FetchListingPage { page: 1 }));

    let events = run.on_listing_page(Ok(ids(&["a"])));
    assert!(events.is_empty());
    assert!(matches!(run.next_request(), SyncRequest::FetchListingPage { page: 2 }));

    let events = run.on_listing_page(Ok(ids(&["b"])));
    assert!(events.is_empty());
    assert!(matches!(run.next_request(), SyncRequest::ReadKnownIds));

    let events = run.on_known_ids(ids(&["a"]));
    assert_eq!(events, vec![Event::IncreaseDownloadedCounter(1)]);
    match run.next_request() {
        SyncRequest::FetchDetail { card_number } => assert_eq!(card_number, "b"),
        other => panic!("unexpected request {:?}", other),
    }

    let events = run.on_detail(Ok(card("b", "Second")));
    assert_eq!(events, vec![Event::Card(card("b", "Second")), Event::Finished]);
    assert!(matches!(run.next_request(), SyncRequest::Idle));
}

#[test]
fn metadata_failure_is_fatal_and_reported_once() {
    let mut run = SyncState::new();
    let events = run.on_metadata(Err(ErrorKind::NumberOfCardsError));
    assert_eq!(events, vec![Event::Error(ErrorKind::NumberOfCardsError)]);
    assert!(matches!(run.next_request(), SyncRequest::Idle));
    // the terminal state is inert
    assert!(run.on_metadata(Ok(5)).is_empty());
    assert!(run.on_detail(Ok(card("a", "A"))).is_empty());
}

#[test]
fn listing_failure_aborts_the_run() {
    let mut run = SyncState::new();
    run.on_metadata(Ok(1));
    let events = run.on_listing_page(Err(ErrorKind::GetMetadatasError { page_number: 1 }));
    assert_eq!(
        events,
        vec![Event::Error(ErrorKind::GetMetadatasError { page_number: 1 })]
    );
    assert!(matches!(run.next_request(), SyncRequest::Idle));
}

#[test]
fn one_failed_detail_never_stops_the_run() {
    let mut run = SyncState::new();
    run.on_metadata(Ok(3));
    run.on_listing_page(Ok(ids(&["a", "b", "c"])));
    run.on_known_ids(Vec::new());

    let mut records = 0;
    let mut failures = 0;
    let mut finished = 0;
    let outcomes: [Result<Card, ErrorKind>; 3] = [
        Ok(card("a", "First")),
        Err(ErrorKind::DownloadCardError { card_number: "b".to_string() }),
        Ok(card("c", "Third")),
    ];
    for outcome in outcomes {
        for event in run.on_detail(outcome) {
            match event {
                Event::Card(_) => records += 1,
                Event::Error(_) => failures += 1,
                Event::Finished => finished += 1,
                _ => {},
            }
        }
    }
    assert_eq!(records, 2);
    assert_eq!(failures, 1);
    assert_eq!(finished, 1);
    assert!(matches!(run.next_request(), SyncRequest::Idle));
}

#[test]
fn rerun_with_everything_persisted_finishes_without_fetching() {
    let mut run = SyncState::new();
    run.on_metadata(Ok(2));
    run.on_listing_page(Ok(ids(&["a", "b"])));
    let events = run.on_known_ids(ids(&["a", "b"]));
    assert_eq!(
        events,
        vec![Event::IncreaseDownloadedCounter(2), Event::Finished]
    );
    assert!(matches!(run.next_request(), SyncRequest::Idle));
}

#[test]
fn zero_total_finishes_without_detail_work() {
    let mut run = SyncState::new();
    run.on_metadata(Ok(0));
    assert!(matches!(run.next_request(), SyncRequest::ReadKnownIds));
    let events = run.on_known_ids(Vec::new());
    assert_eq!(
        events,
        vec![Event::IncreaseDownloadedCounter(0), Event::Finished]
    );
}

#[test]
fn progress_counter_is_monotone_and_bounded() {
    let mut progress = CardsUpdater::new();
    assert_eq!(progress.current_card_index, 0);
    assert!(matches!(progress.step, DownloadStep::Metadatas));

    let events = vec![
        Event::MetadatasList(3),
        Event::IncreaseDownloadedCounter(1),
        Event::Card(card("a", "First")),
        Event::Error(ErrorKind::DownloadCardError { card_number: "b".to_string() }),
        Event::Card(card("c", "Third")),
        Event::IncreaseDownloadedCounter(50),
        Event::Finished,
    ];
    let mut last = 0;
    for event in events {
        progress.update(Message::CardFetched(event));
        assert!(progress.current_card_index >= last);
        assert!(progress.current_card_index <= progress.total_cards as usize);
        last = progress.current_card_index;
    }
    assert_eq!(progress.total_cards, 3);
    assert_eq!(progress.current_card_index, 3);
    assert_eq!(progress.current_card_name, "Third");
}

#[test]
fn a_second_total_announcement_is_ignored() {
    let mut progress = CardsUpdater::new();
    progress.update(Message::CardFetched(Event::MetadatasList(5)));
    progress.update(Message::CardFetched(Event::IncreaseDownloadedCounter(4)));
    progress.update(Message::CardFetched(Event::MetadatasList(2)));
    assert_eq!(progress.total_cards, 5);
    assert_eq!(progress.current_card_index, 4);
}
