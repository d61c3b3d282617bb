//! Canonical values, errors and session settings.

use mtgjson_sdk::builder::DEFAULT_TIMEOUT_SECS;
use mtgjson_sdk::value::{convert_value, huge_int_text, CanonicalValue, NativeValue};
use mtgjson_sdk::{AsyncMtgjsonSdkBuilder, MtgjsonError, MtgjsonSdkBuilder};
use std::time::Duration;

#[test]
fn integers_map_directly() {
    assert_eq!(convert_value(NativeValue::TinyInt(-3)), CanonicalValue::Int(-3));
    assert_eq!(convert_value(NativeValue::SmallInt(300)), CanonicalValue::Int(300));
    assert_eq!(convert_value(NativeValue::Int(-70000)), CanonicalValue::Int(-70000));
    assert_eq!(convert_value(NativeValue::BigInt(i64::MAX)), CanonicalValue::Int(i64::MAX));
    assert_eq!(convert_value(NativeValue::HugeInt(i64::MIN as i128)), CanonicalValue::Int(i64::MIN));
    assert_eq!(convert_value(NativeValue::Boolean(true)), CanonicalValue::Bool(true));
    assert_eq!(convert_value(NativeValue::Null), CanonicalValue::Null);
    assert_eq!(convert_value(NativeValue::Other), CanonicalValue::Null);
}

#[test]
fn wide_integers_become_decimal_text() {
    assert_eq!(
        convert_value(NativeValue::HugeInt(i128::MAX)),
        CanonicalValue::Str("170141183460469231731687303715884105727".to_string())
    );
    assert_eq!(
        convert_value(NativeValue::HugeInt(i128::MIN)),
        CanonicalValue::Str("-170141183460469231731687303715884105728".to_string())
    );
    assert_eq!(
        convert_value(NativeValue::HugeInt(i64::MAX as i128 + 1)),
        CanonicalValue::Str("9223372036854775808".to_string())
    );
    assert_eq!(huge_int_text(0), "0");
}

#[test]
fn text_and_blobs() {
    assert_eq!(convert_value(NativeValue::Text(b"Bolt".to_vec())), CanonicalValue::Str("Bolt".to_string()));
    assert_eq!(
        convert_value(NativeValue::Text(vec![b'a', 0xff])),
        CanonicalValue::Str("a\u{fffd}".to_string())
    );
    assert_eq!(
        convert_value(NativeValue::Blob(vec![0x00, 0xff, 0x1a])),
        CanonicalValue::Str("blob:00ff1a".to_string())
    );
    assert_eq!(convert_value(NativeValue::Blob(vec![])), CanonicalValue::Str("blob:".to_string()));
}

#[test]
fn error_messages_name_their_kind() {
    assert_eq!(MtgjsonError::NotFound("x".to_string()).message(), "Not found: x");
    assert_eq!(MtgjsonError::InvalidArgument("y".to_string()).message(), "Invalid argument: y");
    assert_eq!(MtgjsonError::DuckDb("z".to_string()).message(), "DuckDB error: z");
    assert!(MtgjsonError::NotFound(String::new()).is_not_found());
    assert!(!MtgjsonError::Io(String::new()).is_not_found());
}

#[test]
fn builder_settings() {
    let b = MtgjsonSdkBuilder::default();
    assert_eq!(b.timeout_setting(), Duration::from_secs(DEFAULT_TIMEOUT_SECS));
    assert!(!b.is_offline());
    assert_eq!(b.cache_dir_setting(), None);
    let b = b.cache_dir("/tmp/c").offline(true).timeout(Duration::from_secs(5));
    assert_eq!(b.cache_dir_setting(), Some("/tmp/c".to_string()));
    assert!(b.is_offline());
    assert_eq!(b.timeout_setting(), Duration::from_secs(5));
    let a = AsyncMtgjsonSdkBuilder::default().offline(true).cache_dir("/x").blocking();
    assert!(a.is_offline());
    assert_eq!(a.cache_dir_setting(), Some("/x".to_string()));
    assert_eq!(a.timeout_setting(), Duration::from_secs(120));
}
