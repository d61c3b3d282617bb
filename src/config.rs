//! The fixed table of datasets: each logical name and the path of its file
//! relative to the CDN root and to the cache directory.

use vstd::prelude::*;

verus! {

/// Root URL of the dataset files.
pub const CDN_BASE: &'static str = "https://mtgjson.com/api/v5";

/// URL of the metadata document that carries the current version token.
pub const META_URL: &'static str = "https://mtgjson.com/api/v5/Meta.json";

/// A table of (logical name, relative path) pairs, as text.
pub open spec fn table_view(t: Seq<(&str, &str)>) -> Seq<(Seq<char>, Seq<char>)> {
    t.map_values(|e: (&str, &str)| (e.0@, e.1@))
}

/// The columnar-snapshot datasets.
pub open spec fn parquet_table() -> Seq<(Seq<char>, Seq<char>)> {
    seq![
        ("cards"@, "parquet/cards.parquet"@),
        ("tokens"@, "parquet/tokens.parquet"@),
        ("sets"@, "parquet/sets.parquet"@),
        ("card_identifiers"@, "parquet/cardIdentifiers.parquet"@),
        ("card_legalities"@, "parquet/cardLegalities.parquet"@),
        ("card_foreign_data"@, "parquet/cardForeignData.parquet"@),
        ("card_rulings"@, "parquet/cardRulings.parquet"@),
        ("card_purchase_urls"@, "parquet/cardPurchaseUrls.parquet"@),
        ("set_translations"@, "parquet/setTranslations.parquet"@),
        ("token_identifiers"@, "parquet/tokenIdentifiers.parquet"@),
        ("set_booster_content_weights"@, "parquet/setBoosterContentWeights.parquet"@),
        ("set_booster_contents"@, "parquet/setBoosterContents.parquet"@),
        ("set_booster_sheet_cards"@, "parquet/setBoosterSheetCards.parquet"@),
        ("set_booster_sheets"@, "parquet/setBoosterSheets.parquet"@),
        ("all_printings"@, "parquet/AllPrintings.parquet"@),
        ("all_prices_today"@, "parquet/AllPricesToday.parquet"@),
        ("all_prices"@, "parquet/AllPrices.parquet"@),
        ("tcgplayer_skus"@, "parquet/TcgplayerSkus.parquet"@),
    ]
}

/// The JSON-document datasets.
pub open spec fn json_table() -> Seq<(Seq<char>, Seq<char>)> {
    seq![
        ("keywords"@, "Keywords.json"@),
        ("card_types"@, "CardTypes.json"@),
        ("deck_list"@, "DeckList.json"@),
        ("enum_values"@, "EnumValues.json"@),
        ("meta"@, "Meta.json"@),
    ]
}

/// The path of the first entry of `t` named `name`, if any.
pub open spec fn lookup(t: Seq<(Seq<char>, Seq<char>)>, name: Seq<char>) -> Option<Seq<char>>
    decreases t.len(),
{
    if t.len() == 0 {
        None
    } else if t[0].0 == name {
        Some(t[0].1)
    } else {
        lookup(t.drop_first(), name)
    }
}

/// Logical names and relative paths of the columnar snapshots.
pub fn parquet_files() -> (r: Vec<(&'static str, &'static str)>)
    ensures
        table_view(r@) == parquet_table(),
{
    let r = vec![
        ("cards", "parquet/cards.parquet"),
        ("tokens", "parquet/tokens.parquet"),
        ("sets", "parquet/sets.parquet"),
        ("card_identifiers", "parquet/cardIdentifiers.parquet"),
        ("card_legalities", "parquet/cardLegalities.parquet"),
        ("card_foreign_data", "parquet/cardForeignData.parquet"),
        ("card_rulings", "parquet/cardRulings.parquet"),
        ("card_purchase_urls", "parquet/cardPurchaseUrls.parquet"),
        ("set_translations", "parquet/setTranslations.parquet"),
        ("token_identifiers", "parquet/tokenIdentifiers.parquet"),
        ("set_booster_content_weights", "parquet/setBoosterContentWeights.parquet"),
        ("set_booster_contents", "parquet/setBoosterContents.parquet"),
        ("set_booster_sheet_cards", "parquet/setBoosterSheetCards.parquet"),
        ("set_booster_sheets", "parquet/setBoosterSheets.parquet"),
        ("all_printings", "parquet/AllPrintings.parquet"),
        ("all_prices_today", "parquet/AllPricesToday.parquet"),
        ("all_prices", "parquet/AllPrices.parquet"),
        ("tcgplayer_skus", "parquet/TcgplayerSkus.parquet"),
    ];
    assert(table_view(r@) =~= parquet_table());
    r
}

/// Logical names and relative paths of the JSON documents.
pub fn json_files() -> (r: Vec<(&'static str, &'static str)>)
    ensures
        table_view(r@) == json_table(),
{
    let r = vec![
        ("keywords", "Keywords.json"),
        ("card_types", "CardTypes.json"),
        ("deck_list", "DeckList.json"),
        ("enum_values", "EnumValues.json"),
        ("meta", "Meta.json"),
    ];
    assert(table_view(r@) =~= json_table());
    r
}

/// Whether two texts are equal.
pub fn same_text(a: &str, b: &str) -> (r: bool)
    ensures
        r == (a@ == b@),
{
    String::from_str(a) == String::from_str(b)
}

/// The relative path that `table` gives for `name`.
pub fn find_path(table: &Vec<(&'static str, &'static str)>, name: &str) -> (r: Option<&'static str>)
    ensures
        match r {
            Some(p) => lookup(table_view(table@), name@) == Some(p@),
            None => lookup(table_view(table@), name@) is None,
        },
{
    let mut i: usize = 0;
    assert(table_view(table@).skip(0) =~= table_view(table@));
    while i < table.len()
        invariant
            i <= table.len(),
            lookup(table_view(table@), name@) == lookup(table_view(table@).skip(i as int), name@),
        decreases table.len() - i,
    {
        let (key, path) = table[i];
        assert(table_view(table@).skip(i as int).drop_first() =~= table_view(table@).skip(i + 1));
        if same_text(key, name) {
            return Some(path);
        }
        i += 1;
    }
    None
}

} // verus!
