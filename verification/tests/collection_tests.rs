use shadowverse_collection::cards::{Card, CardClass, GameExtension};
use shadowverse_collection::collection::{filter_cards, CollectionCard, ExtensionProgression};
use shadowverse_collection::extensions_list::ExtensionsList;

fn card(id: &str) -> Card {
    Card {
        id: id.to_string(),
        name: format!("Card {}", id),
        card_class: CardClass::Swordcraft,
        card_type: "Follower".to_string(),
        rarity: "SR".to_string(),
        card_trait: "Officer".to_string(),
        hp: 2,
        attack: 2,
        cost: 2,
        is_evolved: false,
        details: String::new(),
        extension: GameExtension { id: "BP01".to_string(), name: "Vol.1".to_string() },
    }
}

fn progression() -> ExtensionProgression {
    ExtensionProgression {
        extension: GameExtension { id: "BP01".to_string(), name: "Vol.1".to_string() },
        extension_cards: vec![
            CollectionCard { card: card("BP01-001EN"), is_owned: true, quantity: 3 },
            CollectionCard { card: card("BP01-002EN"), is_owned: false, quantity: 0 },
            CollectionCard { card: card("BP01-003EN"), is_owned: true, quantity: 1 },
        ],
    }
}

#[test]
fn owned_cards_keeps_only_owned_in_order() {
    let progression = progression();
    let owned = progression.owned_cards();
    assert_eq!(owned.len(), 2);
    assert_eq!(owned[0].id, "BP01-001EN");
    assert_eq!(owned[1].id, "BP01-003EN");
}

#[test]
fn cards_lists_every_card() {
    let progression = progression();
    let cards = progression.cards();
    assert_eq!(cards.len(), 3);
    assert_eq!(cards[1].id, "BP01-002EN");
}

#[test]
fn class_resolution_from_free_text() {
    assert_eq!(CardClass::from("Forestcraft".to_string()), CardClass::Forestcraft);
    assert_eq!(CardClass::from("Swordcraft".to_string()), CardClass::Swordcraft);
    assert_eq!(CardClass::from("Runecraft".to_string()), CardClass::Runecraft);
    assert_eq!(CardClass::from("Dragoncraft".to_string()), CardClass::Dragoncraft);
    assert_eq!(CardClass::from("Abysscraft".to_string()), CardClass::Abysscraft);
    assert_eq!(CardClass::from("Havencraft".to_string()), CardClass::Havencraft);
    assert_eq!(CardClass::from("Neutral".to_string()), CardClass::Neutral);
    assert_eq!(CardClass::from("Portalcraft".to_string()), CardClass::Neutral);
    assert_eq!(CardClass::from(String::new()), CardClass::Neutral);
}

#[test]
fn class_display_text_round_trips() {
    let all = [
        CardClass::Forestcraft,
        CardClass::Swordcraft,
        CardClass::Runecraft,
        CardClass::Dragoncraft,
        CardClass::Abysscraft,
        CardClass::Havencraft,
        CardClass::Neutral,
    ];
    for class in all {
        assert_eq!(CardClass::from(class.to_text()), class);
    }
}

#[test]
fn extensions_list_holds_progressions() {
    let list = ExtensionsList::new(vec![progression()]);
    assert_eq!(list.extensions_progress.len(), 1);
    assert_eq!(list.extensions_progress[0].extension.id, "BP01");
}

#[test]
fn filtering_by_name_and_class() {
    let mut progression = progression();
    progression.extension_cards[1].card.name = "Royal Guard".to_string();
    progression.extension_cards[1].card.card_class = CardClass::Havencraft;
    let cards = progression.extension_cards;

    let by_name = filter_cards(&cards, "Royal", &None);
    assert_eq!(by_name.len(), 1);
    assert_eq!(by_name[0].card.id, "BP01-002EN");

    let by_class = filter_cards(&cards, "", &Some(CardClass::Swordcraft));
    assert_eq!(by_class.len(), 2);
    assert_eq!(by_class[0].card.id, "BP01-001EN");
    assert_eq!(by_class[1].card.id, "BP01-003EN");

    let both = filter_cards(&cards, "Card", &Some(CardClass::Havencraft));
    assert_eq!(both.len(), 0);

    let none = filter_cards(&cards, "", &None);
    assert_eq!(none.len(), 3);
}
