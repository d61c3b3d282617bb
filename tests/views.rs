//! View registration: column adaptation, the view statements and the registry.

use mtgjson_sdk::registry::ViewRegistry;
use mtgjson_sdk::views::{
    build_replace, create_view_statement, describe_query, ignored_columns, json_cast_columns, json_columns_of,
    legalities_statement, list_columns_of, normalize_path, static_list_columns,
};

fn schema(cols: &[(&str, &str)]) -> Vec<(String, String)> {
    cols.iter().map(|(a, b)| (a.to_string(), b.to_string())).collect()
}

#[test]
fn list_columns_follow_the_four_layers() {
    let s = schema(&[
        ("colors", "VARCHAR"),
        ("text", "VARCHAR"),
        ("name", "VARCHAR"),
        ("colorIdentity", "VARCHAR"),
        ("manaValues", "DOUBLE"),
        ("artistNames", "VARCHAR"),
        ("identifiers", "VARCHAR"),
        ("status", "VARCHAR"),
    ]);
    assert_eq!(list_columns_of("cards", &s), vec!["artistNames", "colorIdentity", "colors"]);
    assert_eq!(list_columns_of("sets", &s), vec!["artistNames", "colors"]);
    let t = schema(&[("types", "VARCHAR"), ("colors", "VARCHAR"), ("types", "VARCHAR")]);
    assert_eq!(list_columns_of("cards", &t), vec!["colors", "types"]);
    assert_eq!(json_columns_of(&s), vec!["identifiers"]);
}

#[test]
fn replace_clause_text() {
    let s = schema(&[("colors", "VARCHAR"), ("rulings", "VARCHAR"), ("uuid", "VARCHAR")]);
    assert_eq!(
        build_replace("cards", &s),
        " REPLACE (CASE WHEN \"colors\" IS NULL OR TRIM(\"colors\") = '' THEN []::VARCHAR[] ELSE string_split(\"colors\", ', ') END AS \"colors\", TRY_CAST(\"rulings\" AS JSON) AS \"rulings\")"
    );
    assert_eq!(build_replace("cards", &schema(&[("uuid", "VARCHAR")])), "");
}

#[test]
fn view_statements() {
    assert_eq!(
        create_view_statement("sets", "/c/sets.parquet", &schema(&[("code", "VARCHAR")])),
        "CREATE OR REPLACE VIEW sets AS SELECT * FROM read_parquet('/c/sets.parquet')"
    );
    assert_eq!(
        describe_query("/c/x.parquet"),
        "SELECT column_name, column_type FROM (DESCRIBE SELECT * FROM read_parquet('/c/x.parquet'))"
    );
}

#[test]
fn legalities_are_unpivoted() {
    let cols = vec!["uuid".to_string(), "modern".to_string(), "legacy".to_string()];
    assert_eq!(
        legalities_statement(&cols, "/c/l.parquet"),
        "CREATE OR REPLACE VIEW card_legalities AS SELECT uuid, format, status FROM (UNPIVOT (SELECT * FROM read_parquet('/c/l.parquet')) ON \"modern\", \"legacy\" INTO NAME format VALUE status) WHERE status IS NOT NULL"
    );
    assert_eq!(
        legalities_statement(&vec!["uuid".to_string()], "/c/l.parquet"),
        "CREATE OR REPLACE VIEW card_legalities AS SELECT * FROM read_parquet('/c/l.parquet')"
    );
}

#[test]
fn paths_use_forward_slashes() {
    assert_eq!(normalize_path("C:\\cache\\cards.parquet"), "C:/cache/cards.parquet");
    assert_eq!(normalize_path("/tmp/a"), "/tmp/a");
}

#[test]
fn fixed_column_lists() {
    assert_eq!(static_list_columns("cards").len(), 22);
    assert!(static_list_columns("tokens").contains(&"reverseRelated"));
    assert!(static_list_columns("sets").is_empty());
    assert_eq!(ignored_columns().len(), 18);
    let casts = json_cast_columns();
    let mut sorted = casts.clone();
    sorted.sort();
    assert_eq!(casts, sorted);
}

#[test]
fn ensuring_views_twice_registers_nothing_new() {
    let mut reg = ViewRegistry::new();
    let first = reg.pending_views(&["cards", "sets", "cards"]);
    assert_eq!(first, vec!["cards", "sets"]);
    for name in &first {
        reg.register(name);
    }
    assert!(reg.pending_views(&["cards", "sets", "cards"]).is_empty());
    reg.register("cards");
    let mut v = reg.views();
    v.sort();
    assert_eq!(v, vec!["cards", "sets"]);
    assert!(reg.has_view("sets"));
    reg.reset_views();
    assert!(!reg.has_view("sets"));
    assert_eq!(reg.pending_views(&["sets"]), vec!["sets"]);
}
