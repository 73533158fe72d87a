//! The normalized card record, its grouping, and the closed class
//! enumeration resolved from the free text of a detail page.
use vstd::prelude::*;

verus! {

/// One normalized catalog item, constructed once per successful
/// detail extraction and never mutated afterwards.
#[derive(Debug, Clone, PartialEq)]
pub struct Card {
    pub id: String,
    pub name: String,
    pub card_class: CardClass,
    pub card_type: String,
    pub rarity: String,
    pub card_trait: String,
    pub hp: u8,
    pub attack: u8,
    pub cost: u8,
    pub is_evolved: bool,
    pub details: String,
    pub extension: GameExtension,
}

/// The grouping (set / expansion) a card belongs to; many cards
/// reference one grouping by id.
#[derive(Debug, Clone, PartialEq)]
pub struct GameExtension {
    pub id: String,
    pub name: String,
}

/// The closed class enumeration; free text that names no known class
/// resolves to `Neutral`.
#[derive(Debug, Clone, Copy, PartialEq, Eq, Structural)]
pub enum CardClass {
    Forestcraft,
    Swordcraft,
    Runecraft,
    Dragoncraft,
    Abysscraft,
    Havencraft,
    Neutral,
}

/// The class named by a piece of free text; unrecognized text gives
/// `Neutral`.
pub open spec fn class_of_text(s: Seq<char>) -> CardClass {
    if s == "Forestcraft"@ {
        CardClass::Forestcraft
    } else if s == "Swordcraft"@ {
        CardClass::Swordcraft
    } else if s == "Dragoncraft"@ {
        CardClass::Dragoncraft
    } else if s == "Abysscraft"@ {
        CardClass::Abysscraft
    } else if s == "Havencraft"@ {
        CardClass::Havencraft
    } else if s == "Runecraft"@ {
        CardClass::Runecraft
    } else {
        CardClass::Neutral
    }
}

/// The display text of a class, the inverse of `class_of_text` on
/// recognized names.
pub open spec fn text_of_class(c: CardClass) -> Seq<char> {
    match c {
        CardClass::Forestcraft => "Forestcraft"@,
        CardClass::Swordcraft => "Swordcraft"@,
        CardClass::Runecraft => "Runecraft"@,
        CardClass::Abysscraft => "Abysscraft"@,
        CardClass::Dragoncraft => "Dragoncraft"@,
        CardClass::Havencraft => "Havencraft"@,
        CardClass::Neutral => "Neutral"@,
    }
}

impl From<String> for CardClass {
    /// Resolve class text from a detail page to the closed enumeration.
    fn from(value: String) -> (r: Self) {
        let v = value.as_str();
        if crate::text::str_eq(v, "Forestcraft") {
            CardClass::Forestcraft
        } else if crate::text::str_eq(v, "Swordcraft") {
            CardClass::Swordcraft
        } else if crate::text::str_eq(v, "Dragoncraft") {
            CardClass::Dragoncraft
        } else if crate::text::str_eq(v, "Abysscraft") {
            CardClass::Abysscraft
        } else if crate::text::str_eq(v, "Havencraft") {
            CardClass::Havencraft
        } else if crate::text::str_eq(v, "Runecraft") {
            CardClass::Runecraft
        } else {
            CardClass::Neutral
        }
    }
}

impl vstd::std_specs::convert::FromSpecImpl<String> for CardClass {
    open spec fn obeys_from_spec() -> bool {
        true
    }

    open spec fn from_spec(v: String) -> Self {
        class_of_text(v@)
    }
}

impl CardClass {
    /// The display text of the class, as it is shown and persisted.
    pub fn to_text(&self) -> (r: String)
        ensures
            r@ == text_of_class(*self),
    {
        match self {
            CardClass::Forestcraft => "Forestcraft".to_owned(),
            CardClass::Swordcraft => "Swordcraft".to_owned(),
            CardClass::Runecraft => "Runecraft".to_owned(),
            CardClass::Abysscraft => "Abysscraft".to_owned(),
            CardClass::Dragoncraft => "Dragoncraft".to_owned(),
            CardClass::Havencraft => "Havencraft".to_owned(),
            CardClass::Neutral => "Neutral".to_owned(),
        }
    }
}

} // verus!
