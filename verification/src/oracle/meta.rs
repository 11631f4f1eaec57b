//! The row codec: typed decoding of a fetched column cell and the physical
//! layout metadata that binds a typed record to its wire representation.
//!
//! A cell carries the bytes the driver fetched, an indicator (present or
//! NULL) and an actual length.  Absent values decode to each type's null
//! convention — zero-like defaults for numerics, `None` for optional
//! bindings, the empty string for character data; NULL is never an error.

use vstd::prelude::*;
use vstd::bytes::spec_u32_from_le_bytes;
use vstd::bytes::spec_u32_to_le_bytes;
use vstd::bytes::spec_u64_from_le_bytes;
use vstd::bytes::spec_u64_to_le_bytes;
use vstd::bytes::lemma_auto_spec_u32_to_from_le_bytes;
use vstd::bytes::lemma_auto_spec_u64_to_from_le_bytes;
use vstd::bytes::u32_from_le_bytes;
use vstd::bytes::u32_to_le_bytes;
use vstd::bytes::u64_from_le_bytes;
use vstd::bytes::u64_to_le_bytes;
use crate::oracle::common::OCIDataType;
use crate::text::push_char;

verus! {

/// Physical layout of one output column: byte size, alignment and the wire
/// type code used when the column is defined against the driver.
#[derive(Clone, Copy, Debug, PartialEq, Eq, Structural)]
pub struct MetaType {
    pub size: u32,
    pub align: u32,
    pub oci_type: OCIDataType,
}

/// Layout of an unsigned 32-bit integer column.
pub fn u32_meta() -> (r: MetaType)
    ensures
        r == (MetaType { size: 4, align: 4, oci_type: OCIDataType::Uint }),
{
    MetaType { size: 4, align: 4, oci_type: OCIDataType::Uint }
}

/// Layout of a signed 32-bit integer column.
pub fn i32_meta() -> (r: MetaType)
    ensures
        r == (MetaType { size: 4, align: 4, oci_type: OCIDataType::Int }),
{
    MetaType { size: 4, align: 4, oci_type: OCIDataType::Int }
}

/// Layout of an unsigned 64-bit integer column.
pub fn u64_meta() -> (r: MetaType)
    ensures
        r == (MetaType { size: 8, align: 8, oci_type: OCIDataType::Uint }),
{
    MetaType { size: 8, align: 8, oci_type: OCIDataType::Uint }
}

/// Layout of a double-width floating point column; the bytes pass through
/// the transfer buffer untouched, nothing here computes on them.
pub fn f64_meta() -> (r: MetaType)
    ensures
        r == (MetaType { size: 8, align: 8, oci_type: OCIDataType::Float }),
{
    MetaType { size: 8, align: 8, oci_type: OCIDataType::Float }
}

/// Layout of a long-character column.
pub fn longchar_meta() -> (r: MetaType)
    ensures
        r == (MetaType { size: 16000, align: 16000, oci_type: OCIDataType::Long }),
{
    MetaType { size: 16000, align: 16000, oci_type: OCIDataType::Long }
}

/// Layout of a character column holding up to `capacity` characters, four
/// buffer bytes per character plus a two-byte reserve.
pub fn string_meta(capacity: u32) -> (r: MetaType)
    requires
        capacity <= 0x3FFF_FFFF,
    ensures
        r == (MetaType { size: (capacity * 4 + 2) as u32, align: 4, oci_type: OCIDataType::Char }),
{
    MetaType { size: capacity * 4 + 2, align: 4, oci_type: OCIDataType::Char }
}

/// One fetched column cell: the bytes the driver stored, whether a value is
/// present (a negative indicator means NULL), and the actual length.
#[derive(Clone, Debug)]
pub struct ResultItem {
    pub data: Vec<u8>,
    pub indicator: bool,
    pub len: usize,
}

/// A fetched row: one cell per output column.
pub type ResultSet = Vec<ResultItem>;

/// A type that can state its column layout and decode itself from a fetched
/// row; query preparation fixes the layout once and reuses it for every row
/// of the result set.
pub trait MetaQuery where Self: core::marker::Sized {
    fn create(values: &ResultSet) -> Self;

    fn meta() -> Vec<MetaType>;
}

/// The characters of a byte sequence read one character per byte, as the
/// single-byte connection character sets store them.
pub open spec fn latin1_seq(bytes: Seq<u8>) -> Seq<char> {
    bytes.map_values(|b: u8| b as char)
}

/// The bytes of a character sequence whose characters all fit one byte.
pub open spec fn latin1_bytes(s: Seq<char>) -> Seq<u8> {
    s.map_values(|c: char| c as u8)
}

/// The code point of a character.
pub open spec fn char_val(c: char) -> int {
    c as int
}

/// A character sequence where every character fits one byte.
pub open spec fn fits_one_byte(s: Seq<char>) -> bool {
    forall|i: int| 0 <= i < s.len() ==> 0 <= char_val(#[trigger] s[i]) < 256
}

/// Characters read from bytes always fit one byte.
pub proof fn lemma_latin1_fits(bytes: Seq<u8>)
    ensures
        fits_one_byte(latin1_seq(bytes)),
{
    assert forall|i: int| 0 <= i < latin1_seq(bytes).len() implies 0 <= char_val(
        #[trigger] latin1_seq(bytes)[i],
    ) < 256 by {
        assert(latin1_seq(bytes)[i] == bytes[i] as char);
    }
}

/// Reading characters from bytes and writing them back returns the bytes.
pub proof fn lemma_latin1_bytes_round_trip(bytes: Seq<u8>)
    ensures
        latin1_bytes(latin1_seq(bytes)) == bytes,
{
    assert(latin1_bytes(latin1_seq(bytes)) =~= bytes);
}

/// Writing one-byte characters out and reading them back returns the text.
pub proof fn lemma_latin1_seq_round_trip(s: Seq<char>)
    requires
        fits_one_byte(s),
    ensures
        latin1_seq(latin1_bytes(s)) == s,
{
    assert forall|i: int| 0 <= i < s.len() implies latin1_seq(latin1_bytes(s))[i] == s[i] by {
        let c = s[i];
        assert(0 <= char_val(c) < 256);
        let b: u8 = c as u8;
        assert(latin1_bytes(s)[i] == b);
        assert(b as int == c as int);
        assert((b as char) == c);
    }
    assert(latin1_seq(latin1_bytes(s)) =~= s);
}

/// The first `n` bytes of a cell's buffer, copied out.
pub fn take_bytes(data: &Vec<u8>, n: usize) -> (r: Vec<u8>)
    requires
        n <= data@.len(),
    ensures
        r@ == data@.take(n as int),
{
    let mut r: Vec<u8> = Vec::new();
    let mut i: usize = 0;
    while i < n
        invariant
            i <= n <= data@.len(),
            r@ == data@.take(i as int),
        decreases n - i,
    {
        r.push(data[i]);
        assert(r@ =~= data@.take(i + 1 as int));
        i = i + 1;
    }
    r
}

/// A calendar date as the packed seven-byte wire value stores it.
#[derive(Clone, Copy, Debug, PartialEq, Eq, Structural)]
pub struct SqlDate {
    pub year: i32,
    pub month: u8,
    pub day: u8,
}

/// A calendar date with time of day, from the packed wire value.
#[derive(Clone, Copy, Debug, PartialEq, Eq, Structural)]
pub struct SqlDateTime {
    pub year: i32,
    pub month: u8,
    pub day: u8,
    pub hour: u8,
    pub minute: u8,
    pub second: u8,
}

/// The year packed into the two leading calendar bytes.
pub open spec fn packed_year(b0: u8, b1: u8) -> int {
    (b0 - 100) * 100 + (b1 - 100)
}

impl ResultItem {
    pub fn new(data: Vec<u8>, indicator: bool, len: usize) -> (r: ResultItem)
        ensures
            r.data == data,
            r.indicator == indicator,
            r.len == len,
    {
        ResultItem { data, indicator, len }
    }

    /// Decodes an unsigned 32-bit value; NULL decodes to zero.
    pub fn to_u32(&self) -> (r: u32)
        requires
            self.indicator ==> self.data@.len() >= 4,
        ensures
            self.indicator ==> r == spec_u32_from_le_bytes(self.data@.take(4)),
            !self.indicator ==> r == 0,
    {
        if self.indicator {
            let bytes = take_bytes(&self.data, 4);
            u32_from_le_bytes(bytes.as_slice())
        } else {
            0
        }
    }

    /// Decodes an optional unsigned 32-bit value; NULL decodes to `None`.
    pub fn to_opt_u32(&self) -> (r: Option<u32>)
        requires
            self.indicator ==> self.data@.len() >= 4,
        ensures
            self.indicator ==> r == Some(spec_u32_from_le_bytes(self.data@.take(4))),
            !self.indicator ==> r is None,
    {
        if self.indicator {
            let bytes = take_bytes(&self.data, 4);
            Some(u32_from_le_bytes(bytes.as_slice()))
        } else {
            None
        }
    }

    /// Decodes a signed 32-bit value; NULL decodes to zero.
    pub fn to_i32(&self) -> (r: i32)
        requires
            self.indicator ==> self.data@.len() >= 4,
        ensures
            self.indicator ==> r == spec_u32_from_le_bytes(self.data@.take(4)) as i32,
            !self.indicator ==> r == 0,
    {
        if self.indicator {
            let bytes = take_bytes(&self.data, 4);
            u32_from_le_bytes(bytes.as_slice()) as i32
        } else {
            0
        }
    }

    /// Decodes an unsigned 64-bit value; NULL decodes to zero.
    pub fn to_u64(&self) -> (r: u64)
        requires
            self.indicator ==> self.data@.len() >= 8,
        ensures
            self.indicator ==> r == spec_u64_from_le_bytes(self.data@.take(8)),
            !self.indicator ==> r == 0,
    {
        if self.indicator {
            let bytes = take_bytes(&self.data, 8);
            u64_from_le_bytes(bytes.as_slice())
        } else {
            0
        }
    }

    /// Decodes a signed 64-bit value; NULL decodes to zero.
    pub fn to_i64(&self) -> (r: i64)
        requires
            self.indicator ==> self.data@.len() >= 8,
        ensures
            self.indicator ==> r == spec_u64_from_le_bytes(self.data@.take(8)) as i64,
            !self.indicator ==> r == 0,
    {
        if self.indicator {
            let bytes = take_bytes(&self.data, 8);
            u64_from_le_bytes(bytes.as_slice()) as i64
        } else {
            0
        }
    }

    /// Decodes character data, one character per stored byte, reading the
    /// actual length; NULL decodes to the empty string.
    pub fn to_text(&self) -> (r: String)
        requires
            self.indicator ==> self.len <= self.data@.len(),
        ensures
            self.indicator ==> r@ == latin1_seq(self.data@.take(self.len as int)),
            !self.indicator ==> r@ == Seq::<char>::empty(),
    {
        let mut r = String::new();
        if !self.indicator {
            return r;
        }
        let mut i: usize = 0;
        while i < self.len
            invariant
                self.len <= self.data@.len(),
                i <= self.len,
                r@ == latin1_seq(self.data@.take(i as int)),
            decreases self.len - i,
        {
            push_char(&mut r, self.data[i] as char);
            assert(r@ =~= latin1_seq(self.data@.take(i + 1 as int)));
            i = i + 1;
        }
        r
    }

    /// Decodes optional character data; NULL decodes to `None`.
    pub fn to_opt_text(&self) -> (r: Option<String>)
        requires
            self.indicator ==> self.len <= self.data@.len(),
        ensures
            self.indicator ==> (r matches Some(s) && s@ == latin1_seq(
                self.data@.take(self.len as int),
            )),
            !self.indicator ==> r is None,
    {
        if self.indicator {
            Some(self.to_text())
        } else {
            None
        }
    }

    /// Decodes a packed seven-byte calendar value; NULL decodes to `None`.
    pub fn to_date(&self) -> (r: Option<SqlDate>)
        requires
            self.indicator ==> self.data@.len() >= 7,
        ensures
            self.indicator ==> (r matches Some(d) && d.year == packed_year(
                self.data@[0],
                self.data@[1],
            ) && d.month == self.data@[2] && d.day == self.data@[3]),
            !self.indicator ==> r is None,
    {
        if self.indicator {
            let year: i32 = (self.data[0] as i32 - 100) * 100 + (self.data[1] as i32 - 100);
            Some(SqlDate { year, month: self.data[2], day: self.data[3] })
        } else {
            None
        }
    }

    /// Decodes a packed calendar value with time of day; NULL decodes to
    /// `None`.
    pub fn to_datetime(&self) -> (r: Option<SqlDateTime>)
        requires
            self.indicator ==> self.data@.len() >= 7,
        ensures
            self.indicator ==> (r matches Some(d) && d.year == packed_year(
                self.data@[0],
                self.data@[1],
            ) && d.month == self.data@[2] && d.day == self.data@[3] && d.hour == self.data@[4]
                && d.minute == self.data@[5] && d.second == self.data@[6]),
            !self.indicator ==> r is None,
    {
        if self.indicator {
            let year: i32 = (self.data[0] as i32 - 100) * 100 + (self.data[1] as i32 - 100);
            Some(
                SqlDateTime {
                    year,
                    month: self.data[2],
                    day: self.data[3],
                    hour: self.data[4],
                    minute: self.data[5],
                    second: self.data[6],
                },
            )
        } else {
            None
        }
    }
}

/// Writes an unsigned 32-bit value as a cell's bytes.
pub fn encode_u32(v: u32) -> (r: Vec<u8>)
    ensures
        r@ == spec_u32_to_le_bytes(v),
        r@.len() == 4,
{
    u32_to_le_bytes(v)
}

/// Writes an unsigned 64-bit value as a cell's bytes.
pub fn encode_u64(v: u64) -> (r: Vec<u8>)
    ensures
        r@ == spec_u64_to_le_bytes(v),
        r@.len() == 8,
{
    u64_to_le_bytes(v)
}

/// Writes character data as a cell's bytes, one byte per character.
pub fn encode_text(s: &str) -> (r: Vec<u8>)
    requires
        fits_one_byte(s@),
    ensures
        r@ == latin1_bytes(s@),
{
    let n = s.unicode_len();
    let mut r: Vec<u8> = Vec::new();
    let mut i: usize = 0;
    while i < n
        invariant
            i <= n,
            n == s@.len(),
            fits_one_byte(s@),
            r@ == latin1_bytes(s@.take(i as int)),
        decreases n - i,
    {
        let c = s.get_char(i);
        r.push(c as u8);
        assert(r@ =~= latin1_bytes(s@.take(i + 1 as int)));
        i = i + 1;
    }
    proof {
        assert(s@.take(n as int) =~= s@);
    }
    r
}

/// Writes a calendar value as the packed seven-byte wire form.
pub fn encode_date(d: &SqlDate) -> (r: Vec<u8>)
    requires
        0 <= d.year <= 9999,
    ensures
        r@.len() == 7,
        r@[0] == (d.year / 100 + 100) as u8,
        r@[1] == (d.year % 100 + 100) as u8,
        r@[2] == d.month,
        r@[3] == d.day,
        packed_year(r@[0], r@[1]) == d.year,
{
    let mut r: Vec<u8> = Vec::new();
    r.push((d.year / 100 + 100) as u8);
    r.push((d.year % 100 + 100) as u8);
    r.push(d.month);
    r.push(d.day);
    r.push(0);
    r.push(0);
    r.push(0);
    r
}

/// Writes a calendar value with time of day as the packed wire form.
pub fn encode_datetime(d: &SqlDateTime) -> (r: Vec<u8>)
    requires
        0 <= d.year <= 9999,
    ensures
        r@.len() == 7,
        packed_year(r@[0], r@[1]) == d.year,
        r@[2] == d.month,
        r@[3] == d.day,
        r@[4] == d.hour,
        r@[5] == d.minute,
        r@[6] == d.second,
{
    let mut r: Vec<u8> = Vec::new();
    r.push((d.year / 100 + 100) as u8);
    r.push((d.year % 100 + 100) as u8);
    r.push(d.month);
    r.push(d.day);
    r.push(d.hour);
    r.push(d.minute);
    r.push(d.second);
    r
}

/// Decoding a numeric cell written from a known value reproduces the value.
pub proof fn lemma_u32_cell_round_trip(v: u32)
    ensures
        spec_u32_from_le_bytes(spec_u32_to_le_bytes(v).take(4)) == v,
{
    lemma_auto_spec_u32_to_from_le_bytes();
    assert(spec_u32_to_le_bytes(v).take(4) =~= spec_u32_to_le_bytes(v));
}

/// Decoding a wide numeric cell written from a known value reproduces the
/// value.
pub proof fn lemma_u64_cell_round_trip(v: u64)
    ensures
        spec_u64_from_le_bytes(spec_u64_to_le_bytes(v).take(8)) == v,
{
    lemma_auto_spec_u64_to_from_le_bytes();
    assert(spec_u64_to_le_bytes(v).take(8) =~= spec_u64_to_le_bytes(v));
}

/// Decoding a character cell written from one-byte text reproduces the
/// text.
pub proof fn lemma_text_cell_round_trip(s: Seq<char>)
    requires
        fits_one_byte(s),
    ensures
        latin1_seq(latin1_bytes(s).take(latin1_bytes(s).len() as int)) == s,
{
    assert(latin1_bytes(s).take(latin1_bytes(s).len() as int) =~= latin1_bytes(s));
    lemma_latin1_seq_round_trip(s);
}

/// Decoding a calendar cell written from a known date reproduces the date.
pub proof fn lemma_date_round_trip(y: int)
    requires
        0 <= y <= 9999,
    ensures
        packed_year((y / 100 + 100) as u8, (y % 100 + 100) as u8) == y,
{
}

} // verus!
