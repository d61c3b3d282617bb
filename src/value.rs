//! Normalisation of the query engine's native values into the canonical
//! value model shared by every consumer.

use vstd::prelude::*;
use vstd::string::*;
use crate::text::{decimal, push_char, push_decimal, owned};

verus! {

#[derive(Clone, Debug, PartialEq)]
/// A value as the query engine hands it over. Floating-point values are
/// converted where they are read and never reach this type.
pub enum NativeValue {
    Null,
    Boolean(bool),
    TinyInt(i8),
    SmallInt(i16),
    Int(i32),
    BigInt(i64),
    HugeInt(i128),
    Text(Vec<u8>),
    Blob(Vec<u8>),
    /// Temporal, interval, nested and other types without a canonical form.
    Other,
}

#[derive(Clone, Debug, PartialEq)]
/// A scalar of the canonical value model.
pub enum CanonicalValue {
    Null,
    Bool(bool),
    Int(i64),
    Str(String),
}

/// The text that `String::from_utf8_lossy` makes of `bytes`: valid UTF-8
/// decoded, each invalid sequence replaced by U+FFFD.
pub uninterp spec fn lossy_text(bytes: Seq<u8>) -> Seq<char>;

/// Relies on `String::from_utf8_lossy`; its result depends on the bytes alone.
#[verifier::external_body]
fn decode_lossy(bytes: &Vec<u8>) -> (r: String)
    ensures
        r@ == lossy_text(bytes@),
{
    String::from_utf8_lossy(bytes.as_slice()).into_owned()
}

/// The decimal rendering of an integer, with a leading `-` when negative.
pub open spec fn signed_decimal(n: int) -> Seq<char> {
    if n < 0 {
        seq!['-'] + decimal((-n) as nat)
    } else {
        decimal(n as nat)
    }
}

/// The lowercase hexadecimal digit of `d`.
pub open spec fn hex_char(d: nat) -> char {
    if d < 10 {
        crate::text::digit_char(d)
    } else if d == 10 { 'a' }
    else if d == 11 { 'b' }
    else if d == 12 { 'c' }
    else if d == 13 { 'd' }
    else if d == 14 { 'e' }
    else { 'f' }
}

/// Two lowercase hexadecimal digits per byte.
pub open spec fn hex_of(bytes: Seq<u8>) -> Seq<char>
    decreases bytes.len(),
{
    if bytes.len() == 0 {
        Seq::empty()
    } else {
        hex_of(bytes.drop_last()).push(hex_char((bytes.last() / 16) as nat)).push(hex_char((bytes.last() % 16) as nat))
    }
}

/// The canonical form of a native value that does not become text (see
/// `becomes_text`): integers as integers, booleans as booleans, anything
/// without a canonical form as null.
pub open spec fn scalar_form(v: NativeValue) -> CanonicalValue {
    match v {
        NativeValue::Null => CanonicalValue::Null,
        NativeValue::Boolean(b) => CanonicalValue::Bool(b),
        NativeValue::TinyInt(n) => CanonicalValue::Int(n as i64),
        NativeValue::SmallInt(n) => CanonicalValue::Int(n as i64),
        NativeValue::Int(n) => CanonicalValue::Int(n as i64),
        NativeValue::BigInt(n) => CanonicalValue::Int(n),
        NativeValue::HugeInt(n) => if i64::MIN <= n <= i64::MAX {
            CanonicalValue::Int(n as i64)
        } else {
            CanonicalValue::Null
        },
        _ => CanonicalValue::Null,
    }
}

/// The text that the canonical form of `v` carries when it becomes text:
/// 128-bit integers outside the 64-bit range as decimal text, text decoded,
/// blobs as `blob:` and two hex digits per byte.
pub open spec fn canonical_text(v: NativeValue) -> Seq<char> {
    match v {
        NativeValue::HugeInt(n) => signed_decimal(n as int),
        NativeValue::Text(b) => lossy_text(b@),
        NativeValue::Blob(b) => "blob:"@ + hex_of(b@),
        _ => Seq::empty(),
    }
}

/// Whether the canonical form of `v` is text.
pub open spec fn becomes_text(v: NativeValue) -> bool {
    match v {
        NativeValue::HugeInt(n) => !(i64::MIN <= n <= i64::MAX),
        NativeValue::Text(_) => true,
        NativeValue::Blob(_) => true,
        _ => false,
    }
}

/// The hexadecimal digit of `d`.
fn hex_digit(d: u8) -> (c: char)
    requires
        d < 16,
    ensures
        c == hex_char(d as nat),
{
    if d < 10 {
        crate::text::digit(d as u128)
    } else if d == 10 { 'a' }
    else if d == 11 { 'b' }
    else if d == 12 { 'c' }
    else if d == 13 { 'd' }
    else if d == 14 { 'e' }
    else { 'f' }
}

/// Appends two lowercase hexadecimal digits per byte.
pub fn push_hex(s: &mut String, bytes: &Vec<u8>)
    ensures
        final(s)@ == old(s)@ + hex_of(bytes@),
{
    let ghost start = s@;
    let mut i: usize = 0;
    while i < bytes.len()
        invariant
            i <= bytes.len(),
            s@ == start + hex_of(bytes@.take(i as int)),
        decreases bytes.len() - i,
    {
        assert(bytes@.take(i + 1).drop_last() =~= bytes@.take(i as int));
        assert(bytes@.take(i + 1).last() == bytes@[i as int]);
        let b = bytes[i];
        push_char(s, hex_digit(b / 16));
        push_char(s, hex_digit(b % 16));
        assert(s@ =~= start + hex_of(bytes@.take(i + 1)));
        i += 1;
    }
    assert(bytes@.take(bytes.len() as int) =~= bytes@);
}

/// The decimal text of a 128-bit integer.
pub fn huge_int_text(n: i128) -> (r: String)
    ensures
        r@ == signed_decimal(n as int),
{
    let mut r = String::new();
    if n < 0 {
        push_char(&mut r, '-');
        let magnitude: u128 = ((-(n + 1)) as u128) + 1;
        push_decimal(&mut r, magnitude);
    } else {
        push_decimal(&mut r, n as u128);
    }
    assert(r@ =~= signed_decimal(n as int));
    r
}

/// Converts a native value to its canonical form.
pub fn convert_value(v: NativeValue) -> (r: CanonicalValue)
    ensures
        !becomes_text(v) ==> r == scalar_form(v),
        becomes_text(v) ==> (r matches CanonicalValue::Str(s) && s@ == canonical_text(v)),
{
    match v {
        NativeValue::Null => CanonicalValue::Null,
        NativeValue::Boolean(b) => CanonicalValue::Bool(b),
        NativeValue::TinyInt(n) => CanonicalValue::Int(n as i64),
        NativeValue::SmallInt(n) => CanonicalValue::Int(n as i64),
        NativeValue::Int(n) => CanonicalValue::Int(n as i64),
        NativeValue::BigInt(n) => CanonicalValue::Int(n),
        NativeValue::HugeInt(n) => {
            if i64::MIN as i128 <= n && n <= i64::MAX as i128 {
                CanonicalValue::Int(n as i64)
            } else {
                CanonicalValue::Str(huge_int_text(n))
            }
        }
        NativeValue::Text(bytes) => CanonicalValue::Str(decode_lossy(&bytes)),
        NativeValue::Blob(bytes) => {
            let mut s = owned("blob:");
            push_hex(&mut s, &bytes);
            CanonicalValue::Str(s)
        }
        NativeValue::Other => CanonicalValue::Null,
    }
}

} // verus!
