//! The row codec: every supported logical type round-trips through a cell,
//! and NULL cells decode to each type's null convention.

use migration::oracle::bindings::Binding;
use migration::oracle::common::OCIDataType;
use migration::oracle::meta::ResultItem;
use migration::oracle::meta::SqlDate;
use migration::oracle::meta::SqlDateTime;
use migration::oracle::meta::encode_date;
use migration::oracle::meta::encode_datetime;
use migration::oracle::meta::encode_text;
use migration::oracle::meta::encode_u32;
use migration::oracle::meta::encode_u64;
use migration::oracle::meta::f64_meta;
use migration::oracle::meta::i32_meta;
use migration::oracle::meta::longchar_meta;
use migration::oracle::meta::string_meta;
use migration::oracle::meta::u32_meta;
use migration::oracle::meta::u64_meta;

#[test]
fn u32_cell_round_trip() {
    let cell = ResultItem::new(encode_u32(123456), true, 4);
    assert_eq!(cell.to_u32(), 123456);
    assert_eq!(cell.to_opt_u32(), Some(123456));
}

#[test]
fn u64_cell_round_trip() {
    let cell = ResultItem::new(encode_u64(0xDEAD_BEEF_CAFE), true, 8);
    assert_eq!(cell.to_u64(), 0xDEAD_BEEF_CAFE);
}

#[test]
fn signed_cells_two_complement() {
    let cell = ResultItem::new(encode_u32(0xFFFF_FFFF), true, 4);
    assert_eq!(cell.to_i32(), -1);
    let cell64 = ResultItem::new(encode_u64(u64::MAX), true, 8);
    assert_eq!(cell64.to_i64(), -1);
}

#[test]
fn null_numeric_decodes_to_zero() {
    let cell = ResultItem::new(vec![], false, 0);
    assert_eq!(cell.to_u32(), 0);
    assert_eq!(cell.to_i32(), 0);
    assert_eq!(cell.to_u64(), 0);
    assert_eq!(cell.to_i64(), 0);
    assert_eq!(cell.to_opt_u32(), None);
}

#[test]
fn text_cell_round_trip() {
    let bytes = encode_text("CLIENT_NAME");
    let n = bytes.len();
    let cell = ResultItem::new(bytes, true, n);
    assert_eq!(cell.to_text(), "CLIENT_NAME");
    assert_eq!(cell.to_opt_text(), Some("CLIENT_NAME".to_string()));
}

#[test]
fn text_cell_reads_actual_length_only() {
    // The buffer is wider than the value; only `len` characters count.
    let mut bytes = encode_text("ABC");
    bytes.push(b'X');
    bytes.push(b'Y');
    let cell = ResultItem::new(bytes, true, 3);
    assert_eq!(cell.to_text(), "ABC");
}

#[test]
fn null_text_is_empty_string() {
    let cell = ResultItem::new(vec![], false, 0);
    assert_eq!(cell.to_text(), "");
    assert_eq!(cell.to_opt_text(), None);
}

#[test]
fn date_cell_round_trip() {
    let d = SqlDate { year: 2024, month: 5, day: 17 };
    let cell = ResultItem::new(encode_date(&d), true, 7);
    assert_eq!(cell.to_date(), Some(d));
}

#[test]
fn datetime_cell_round_trip() {
    let d = SqlDateTime { year: 1999, month: 12, day: 31, hour: 23, minute: 59, second: 58 };
    let cell = ResultItem::new(encode_datetime(&d), true, 7);
    assert_eq!(cell.to_datetime(), Some(d));
}

#[test]
fn null_calendar_is_none() {
    let cell = ResultItem::new(vec![], false, 0);
    assert_eq!(cell.to_date(), None);
    assert_eq!(cell.to_datetime(), None);
}

#[test]
fn packed_calendar_bytes() {
    // year 2024 packs as century 120, year-in-century 124.
    let d = SqlDate { year: 2024, month: 5, day: 17 };
    let bytes = encode_date(&d);
    assert_eq!(bytes, vec![120, 124, 5, 17, 0, 0, 0]);
}

#[test]
fn column_layouts() {
    assert_eq!(u32_meta().size, 4);
    assert_eq!(u32_meta().oci_type, OCIDataType::Uint);
    assert_eq!(i32_meta().oci_type, OCIDataType::Int);
    assert_eq!(u64_meta().size, 8);
    assert_eq!(f64_meta().size, 8);
    assert_eq!(longchar_meta().size, 16000);
    assert_eq!(longchar_meta().oci_type, OCIDataType::Long);
    let s = string_meta(20);
    assert_eq!(s.size, 82);
    assert_eq!(s.align, 4);
    assert_eq!(s.oci_type, OCIDataType::Char);
}

#[test]
fn string_binding_overwrites_in_place() {
    let mut b = Binding::<String>::new("AB", 10);
    assert_eq!(b.binding.value.len(), 10);
    assert_eq!(&b.binding.value[0..2], &[b'A', b'B']);
    assert_eq!(b.binding.actual_size, 2);
    assert_eq!(b.binding.indicator, 0);
    b.set("LONGER");
    assert_eq!(b.binding.value.len(), 10);
    assert_eq!(&b.binding.value[0..6], b"LONGER");
    assert_eq!(b.binding.actual_size, 6);
}

#[test]
fn binding_feeds_back_through_decode() {
    // What a binding writes, a cell fetched from the same region decodes.
    let mut b = Binding::<u32>::from_u32(7);
    b.set(424242);
    let cell = ResultItem::new(b.binding.value.clone(), b.binding.indicator >= 0, 4);
    assert_eq!(cell.to_u32(), 424242);
}

#[test]
fn optional_binding_null_indicator() {
    let mut b = Binding::<Option<u32>>::from_opt_u32(None);
    assert_eq!(b.binding.indicator, -1);
    b.set(Some(9));
    assert_eq!(b.binding.indicator, 0);
    let cell = ResultItem::new(b.binding.value.clone(), true, 4);
    assert_eq!(cell.to_u32(), 9);
    b.set(None);
    assert_eq!(b.binding.indicator, -1);
}

#[test]
fn wire_type_codes_fixed_by_abi() {
    assert_eq!(OCIDataType::Char.code(), 1);
    assert_eq!(OCIDataType::Numeric.code(), 2);
    assert_eq!(OCIDataType::Int.code(), 3);
    assert_eq!(OCIDataType::Uint.code(), 68);
    assert_eq!(OCIDataType::Timestamp.code(), 180);
    assert_eq!(OCIDataType::Clob.code(), 112);
    assert_eq!(OCIDataType::Blob.code(), 113);
    assert_eq!(OCIDataType::Long.code(), 8);
}
