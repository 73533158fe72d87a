//! The local collection view of persisted cards: which cards of an
//! extension are owned, and in what quantity.
use vstd::prelude::*;

use crate::cards::{Card, CardClass, GameExtension};
use crate::text::contains_substr;

verus! {

/// One persisted card together with its collection status.
#[derive(Debug, Clone)]
pub struct CollectionCard {
    pub card: Card,
    pub is_owned: bool,
    pub quantity: u8,
}

/// All cards of one extension with their collection status.
#[derive(Debug, Clone)]
pub struct ExtensionProgression {
    pub extension: GameExtension,
    pub extension_cards: Vec<CollectionCard>,
}

/// The cards of `cards` marked as owned, in order.
pub open spec fn spec_owned_cards(cards: Seq<CollectionCard>) -> Seq<Card>
    decreases cards.len(),
{
    if cards.len() == 0 {
        Seq::empty()
    } else {
        let rest = spec_owned_cards(cards.drop_last());
        if cards.last().is_owned {
            rest.push(cards.last().card)
        } else {
            rest
        }
    }
}

impl ExtensionProgression {
    /// The owned cards of this extension, in collection order.
    pub fn owned_cards(&self) -> (r: Vec<&Card>)
        ensures
            r@.len() == spec_owned_cards(self.extension_cards@).len(),
            forall|i: int|
                0 <= i < r@.len() ==> *(#[trigger] r@[i]) == spec_owned_cards(
                    self.extension_cards@,
                )[i],
    {
        let n = self.extension_cards.len();
        let mut r: Vec<&Card> = Vec::new();
        let mut i: usize = 0;
        while i < n
            invariant
                i <= n,
                n == self.extension_cards@.len(),
                r@.len() == spec_owned_cards(self.extension_cards@.take(i as int)).len(),
                forall|k: int|
                    0 <= k < r@.len() ==> *(#[trigger] r@[k]) == spec_owned_cards(
                        self.extension_cards@.take(i as int),
                    )[k],
            decreases n - i,
        {
            proof {
                assert(self.extension_cards@.take(i + 1).drop_last() =~= self.extension_cards@.take(
                    i as int,
                ));
                assert(self.extension_cards@.take(i + 1).last() == self.extension_cards@[i as int]);
            }
            let item = &self.extension_cards[i];
            if item.is_owned {
                r.push(&item.card);
            }
            i = i + 1;
        }
        proof {
            assert(self.extension_cards@.take(n as int) =~= self.extension_cards@);
        }
        r
    }

    /// All cards of this extension, owned or not, in collection
    /// order.
    pub fn cards(&self) -> (r: Vec<&Card>)
        ensures
            r@.len() == self.extension_cards@.len(),
            forall|i: int|
                0 <= i < r@.len() ==> *(#[trigger] r@[i]) == self.extension_cards@[i].card,
    {
        let n = self.extension_cards.len();
        let mut r: Vec<&Card> = Vec::new();
        let mut i: usize = 0;
        while i < n
            invariant
                i <= n,
                n == self.extension_cards@.len(),
                r@.len() == i,
                forall|k: int|
                    0 <= k < i ==> *(#[trigger] r@[k]) == self.extension_cards@[k].card,
            decreases n - i,
        {
            let item = &self.extension_cards[i];
            r.push(&item.card);
            i = i + 1;
        }
        r
    }
}

/// Whether a collection card passes a name search and an optional
/// class filter.
pub open spec fn spec_card_matches(
    cc: CollectionCard,
    name_filter: Seq<char>,
    class_filter: Option<CardClass>,
) -> bool {
    &&& contains_substr(cc.card.name@, name_filter)
    &&& match class_filter {
        Option::Some(class) => cc.card.card_class == class,
        Option::None => true,
    }
}

/// The collection cards passing the filters, in collection order.
pub open spec fn spec_filter_cards(
    cards: Seq<CollectionCard>,
    name_filter: Seq<char>,
    class_filter: Option<CardClass>,
) -> Seq<CollectionCard>
    decreases cards.len(),
{
    if cards.len() == 0 {
        Seq::empty()
    } else {
        let rest = spec_filter_cards(cards.drop_last(), name_filter, class_filter);
        if spec_card_matches(cards.last(), name_filter, class_filter) {
            rest.push(cards.last())
        } else {
            rest
        }
    }
}

/// The cards whose name contains `name_filter` and, when a class is
/// chosen, whose class is that class, in collection order.
pub fn filter_cards<'a>(
    cards: &'a Vec<CollectionCard>,
    name_filter: &str,
    class_filter: &Option<CardClass>,
) -> (r: Vec<&'a CollectionCard>)
    ensures
        r@.len() == spec_filter_cards(cards@, name_filter@, *class_filter).len(),
        forall|i: int|
            0 <= i < r@.len() ==> *(#[trigger] r@[i]) == spec_filter_cards(
                cards@,
                name_filter@,
                *class_filter,
            )[i],
{
    let n = cards.len();
    let mut r: Vec<&CollectionCard> = Vec::new();
    let mut i: usize = 0;
    while i < n
        invariant
            i <= n,
            n == cards@.len(),
            r@.len() == spec_filter_cards(cards@.take(i as int), name_filter@, *class_filter).len(),
            forall|k: int|
                0 <= k < r@.len() ==> *(#[trigger] r@[k]) == spec_filter_cards(
                    cards@.take(i as int),
                    name_filter@,
                    *class_filter,
                )[k],
        decreases n - i,
    {
        proof {
            assert(cards@.take(i + 1).drop_last() =~= cards@.take(i as int));
            assert(cards@.take(i + 1).last() == cards@[i as int]);
        }
        let item = &cards[i];
        let name_matches = crate::text::str_contains(item.card.name.as_str(), name_filter);
        let class_matches = match class_filter {
            Option::Some(class) => item.card.card_class == *class,
            Option::None => true,
        };
        if name_matches && class_matches {
            r.push(item);
        }
        i = i + 1;
    }
    proof {
        assert(cards@.take(n as int) =~= cards@);
    }
    r
}

} // verus!
