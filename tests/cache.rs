//! Cache decisions: staleness, file actions, names and corrupt documents.

use mtgjson_sdk::cache::{
    dataset_path, is_gzip, join_path, local_version_from, offline_missing, parse_cached, staleness, temp_path,
    CacheState, DatasetKind, FileAction, RemoteCheck,
};
use mtgjson_sdk::config::{find_path, json_files, parquet_files, CDN_BASE};
use mtgjson_sdk::MtgjsonError;
use std::io::Write;

fn some(s: &str) -> Option<String> {
    Some(s.to_string())
}

#[test]
fn staleness_defaults() {
    assert!(staleness(&None, &some("5.2.2")));
    assert!(staleness(&None, &None));
    assert!(!staleness(&some("5.2.2"), &some("5.2.2")));
    assert!(staleness(&some("5.2.1"), &some("5.2.2")));
    assert!(!staleness(&some("5.2.1"), &None));
}

#[test]
fn file_actions() {
    let online = CacheState::new("/c".to_string(), false);
    let offline = CacheState::new("/c".to_string(), true);
    assert_eq!(online.ensure_action(true, false), FileAction::UseCached);
    assert_eq!(online.ensure_action(true, true), FileAction::Download);
    assert_eq!(online.ensure_action(false, false), FileAction::Download);
    assert_eq!(offline.ensure_action(true, true), FileAction::UseCached);
    assert_eq!(offline.ensure_action(false, true), FileAction::Missing);
}

#[test]
fn clear_then_ensure_downloads_once() {
    let mut state = CacheState::new("/c".to_string(), false);
    assert_eq!(state.remote_check(), RemoteCheck::Fetch);
    let remote = state.record_fetch(Some((None, some("5.2.2+1"))));
    assert_eq!(remote, some("5.2.2+1"));
    assert_eq!(state.remote_check(), RemoteCheck::Known("5.2.2+1".to_string()));
    // cleared: no file, no local token
    let stale = staleness(&None, &remote);
    assert_eq!(state.ensure_action(false, stale), FileAction::Download);
    // the download saved the remote token locally
    let local = local_version_from(remote.clone());
    let stale = staleness(&local, &remote);
    assert!(!stale);
    assert_eq!(state.ensure_action(true, stale), FileAction::UseCached);
}

#[test]
fn failed_fetch_records_nothing() {
    let mut state = CacheState::new("/c".to_string(), false);
    assert_eq!(state.record_fetch(None), None);
    assert_eq!(state.remote_check(), RemoteCheck::Fetch);
    assert_eq!(state.record_fetch(Some((some("d"), some("m")))), some("d"));
    let offline = CacheState::new("/c".to_string(), true);
    assert_eq!(offline.remote_check(), RemoteCheck::Unavailable);
}

#[test]
fn corrupt_document_is_not_found_then_refetched() {
    match parse_cached("Meta.json", &b"{\"data\": ".to_vec(), false) {
        Err(MtgjsonError::NotFound(m)) => assert!(m.starts_with(
            "Cache file 'Meta.json' was corrupt and has been removed. Retry to re-download. Original error: JSON error: "
        )),
        other => panic!("unexpected {:?}", other.map(|_| ())),
    }
    let v = parse_cached("Meta.json", &b"{\"data\": {\"version\": \"5\"}}".to_vec(), false).unwrap();
    assert_eq!(v["data"]["version"], "5");
    let online = CacheState::new("/c".to_string(), false);
    assert_eq!(online.ensure_action(false, false), FileAction::Download);
    let offline = CacheState::new("/c".to_string(), true);
    assert_eq!(offline.ensure_action(false, false), FileAction::Missing);
    assert_eq!(
        offline_missing(&DatasetKind::Json, "Meta.json"),
        MtgjsonError::NotFound("JSON file Meta.json not cached and offline mode is enabled".to_string())
    );
}

#[test]
fn garbage_bytes_are_corrupt() {
    assert_eq!(
        parse_cached("Keywords.json", &vec![0xff, 0xfe, 0x00], false),
        Err(MtgjsonError::NotFound(
            "Cache file 'Keywords.json' was corrupt and has been removed. Retry to re-download. Original error: IO error: stream did not contain valid UTF-8".to_string()
        ))
    );
    assert_eq!(
        parse_cached("AllPrices.json.gz", &b"{}".to_vec(), true),
        Err(MtgjsonError::NotFound(
            "Cache file 'AllPrices.json.gz' was corrupt and has been removed. Retry to re-download. Original error: IO error: invalid gzip data".to_string()
        ))
    );
}

#[test]
fn gzip_documents_are_decompressed() {
    let mut enc = flate2::write::GzEncoder::new(Vec::new(), flate2::Compression::default());
    enc.write_all(b"{\"meta\": {\"version\": \"6\"}}").unwrap();
    let bytes = enc.finish().unwrap();
    let v = parse_cached("Meta.json.gz", &bytes, true).unwrap();
    assert_eq!(v["meta"]["version"], "6");
    assert!(parse_cached("Meta.json.gz", &bytes, false).is_err());
}

#[test]
fn local_token_is_trimmed() {
    assert_eq!(local_version_from(some("  5.2.2\n")), some("5.2.2"));
    assert_eq!(local_version_from(None), None);
}

#[test]
fn dataset_names_resolve() {
    assert_eq!(dataset_path(&DatasetKind::Parquet, "cards").unwrap(), "parquet/cards.parquet");
    assert_eq!(dataset_path(&DatasetKind::Json, "meta").unwrap(), "Meta.json");
    assert_eq!(
        dataset_path(&DatasetKind::Parquet, "meta"),
        Err(MtgjsonError::NotFound("Unknown parquet view: meta".to_string()))
    );
    assert_eq!(
        dataset_path(&DatasetKind::Json, "nope"),
        Err(MtgjsonError::NotFound("Unknown JSON file: nope".to_string()))
    );
    assert_eq!(parquet_files().len(), 18);
    assert_eq!(json_files().len(), 5);
    assert_eq!(find_path(&parquet_files(), "set_booster_sheets"), Some("parquet/setBoosterSheets.parquet"));
    assert_eq!(find_path(&json_files(), "cards"), None);
}

#[test]
fn paths_for_download() {
    assert_eq!(join_path(CDN_BASE, "Meta.json"), "https://mtgjson.com/api/v5/Meta.json");
    assert_eq!(temp_path("/c/parquet/cards.parquet"), "/c/parquet/cards.parquet.tmp");
    assert!(is_gzip("/c/AllPrices.json.gz"));
    assert!(!is_gzip("/c/Meta.json"));
    assert!(!is_gzip("gz"));
}
