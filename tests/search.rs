//! Set and token searches as SQL.

use mtgjson_sdk::search::{SearchSetsParams, SearchTokensParams};

#[test]
fn set_search_query() {
    let p = SearchSetsParams {
        name: Some("Horizons".to_string()),
        set_type: Some("expansion".to_string()),
        release_year: Some(2024),
        ..SearchSetsParams::default()
    };
    let (sql, params) = p.search_query().build();
    assert_eq!(
        sql,
        "SELECT *\nFROM sets\nWHERE LOWER(name) LIKE LOWER(?) AND type = ? AND EXTRACT(YEAR FROM CAST(releaseDate AS DATE)) = ?\nORDER BY releaseDate DESC\nLIMIT 100\nOFFSET 0"
    );
    assert_eq!(params, vec!["%Horizons%", "expansion", "2024"]);
}

#[test]
fn set_search_defaults_and_block() {
    let p = SearchSetsParams { block: Some("Ravnica".to_string()), limit: Some(3), offset: Some(6), ..SearchSetsParams::default() };
    let (sql, params) = p.search_query().build();
    assert_eq!(sql, "SELECT *\nFROM sets\nWHERE block = ?\nORDER BY releaseDate DESC\nLIMIT 3\nOFFSET 6");
    assert_eq!(params, vec!["Ravnica"]);
    let (sql, params) = SearchSetsParams::default().search_query().build();
    assert_eq!(sql, "SELECT *\nFROM sets\nORDER BY releaseDate DESC\nLIMIT 100\nOFFSET 0");
    assert!(params.is_empty());
}

#[test]
fn token_search_query() {
    let p = SearchTokensParams {
        name: Some("Goblin%".to_string()),
        colors: Some(vec!["R".to_string(), "G".to_string()]),
        artist: Some("Ames".to_string()),
        limit: Some(5),
        ..SearchTokensParams::default()
    };
    let (sql, params) = p.search_query().build();
    assert_eq!(
        sql,
        "SELECT *\nFROM tokens\nWHERE LOWER(tokens.name) LIKE LOWER(?) AND list_contains(tokens.colors, ?) AND list_contains(tokens.colors, ?) AND LOWER(tokens.artist) LIKE LOWER(?)\nLIMIT 5\nOFFSET 0"
    );
    assert_eq!(params, vec!["Goblin%", "R", "G", "%Ames%"]);
}

#[test]
fn token_exact_name_and_type() {
    let p = SearchTokensParams {
        name: Some("Soldier".to_string()),
        set_code: Some("MH3".to_string()),
        types: Some("Creature".to_string()),
        ..SearchTokensParams::default()
    };
    let (sql, params) = p.search_query().build();
    assert_eq!(
        sql,
        "SELECT *\nFROM tokens\nWHERE tokens.name = ? AND tokens.setCode = ? AND LOWER(tokens.type) LIKE LOWER(?)\nLIMIT 100\nOFFSET 0"
    );
    assert_eq!(params, vec!["Soldier", "MH3", "%Creature%"]);
}
