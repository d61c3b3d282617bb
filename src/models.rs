//! Plain records of the dataset that travel through the library unchanged.

use vstd::prelude::*;

verus! {

/// The dataset's build: its date and version token.
#[derive(Clone, Debug, Default, PartialEq)]
pub struct Meta {
    pub date: String,
    pub version: String,
}

/// Whether a card may lead a deck in the formats that have a leader.
#[derive(Clone, Copy, Debug, Default, PartialEq, Eq)]
pub struct LeadershipSkills {
    pub brawl: bool,
    pub commander: bool,
    pub oathbreaker: bool,
}

/// One ruling on a card.
#[derive(Clone, Debug, Default, PartialEq)]
pub struct Rulings {
    pub date: String,
    pub text: String,
}

/// The keyword lists of the game.
#[derive(Clone, Debug, Default, PartialEq)]
pub struct Keywords {
    pub ability_words: Vec<String>,
    pub keyword_abilities: Vec<String>,
    pub keyword_actions: Vec<String>,
}

/// The subtypes and supertypes of one card type.
#[derive(Clone, Debug, Default, PartialEq)]
pub struct CardType {
    pub sub_types: Vec<String>,
    pub super_types: Vec<String>,
}

/// Summary of one preconstructed deck.
#[derive(Clone, Debug, PartialEq)]
pub struct DeckList {
    pub code: String,
    pub name: String,
    pub file_name: String,
    pub type_field: String,
    pub release_date: Option<String>,
}

/// A card reference inside a deck.
#[derive(Clone, Debug, PartialEq)]
pub struct CardSetDeck {
    pub count: i64,
    pub is_foil: Option<bool>,
    pub uuid: String,
}

} // verus!
