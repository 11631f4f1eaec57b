//! Parameter bindings: a binding owns a fixed-size value buffer and an
//! indicator cell; `set` overwrites the buffer in place and updates the
//! indicator and length, so a prepared statement is executed many times
//! with different bound values.

use vstd::prelude::*;
use vstd::bytes::spec_u32_to_le_bytes;
use crate::oracle::common::OCIDataType;
use crate::oracle::meta::fits_one_byte;
use crate::oracle::meta::latin1_bytes;
use crate::oracle::meta::encode_text;
use crate::oracle::meta::encode_u32;

verus! {

/// The raw cell a parameter is bound to: wire type, owned value buffer,
/// indicator, declared and actual size.
pub struct RowBinding {
    pub oci_type: OCIDataType,
    pub value: Vec<u8>,
    pub indicator: i16,
    pub max_size: u32,
    pub actual_size: u16,
}

impl RowBinding {
    pub fn new(
        oci_type: OCIDataType,
        value: Vec<u8>,
        indicator: i16,
        max_size: u32,
        actual_size: u16,
    ) -> (r: RowBinding)
        ensures
            r.oci_type == oci_type,
            r.value == value,
            r.indicator == indicator,
            r.max_size == max_size,
            r.actual_size == actual_size,
    {
        RowBinding { oci_type, value, indicator, max_size, actual_size }
    }
}

/// A typed view over a raw binding cell.
#[verifier::reject_recursive_types(T)]
pub struct Binding<T> {
    pub binding: RowBinding,
    pub marker: core::marker::PhantomData<T>,
}

/// Overwrites the front of a buffer with the given bytes, leaving the
/// tail as it was.
fn overwrite_prefix(buf: &mut Vec<u8>, bytes: &Vec<u8>)
    requires
        bytes@.len() <= old(buf)@.len(),
    ensures
        final(buf)@.len() == old(buf)@.len(),
        final(buf)@ == bytes@ + old(buf)@.skip(bytes@.len() as int),
{
    let ghost orig = buf@;
    let mut i: usize = 0;
    while i < bytes.len()
        invariant
            i <= bytes@.len() <= orig.len(),
            buf@.len() == orig.len(),
            forall|j: int| 0 <= j < i ==> buf@[j] == bytes@[j],
            forall|j: int| i <= j < orig.len() ==> buf@[j] == orig[j],
        decreases bytes@.len() - i,
    {
        buf.set(i, bytes[i]);
        i = i + 1;
    }
    proof {
        assert(buf@ =~= bytes@ + orig.skip(bytes@.len() as int));
    }
}

impl Binding<String> {
    /// A character binding over a buffer of `max_size` bytes, holding the
    /// given initial value.
    pub fn new(v: &str, max_size: usize) -> (r: Binding<String>)
        requires
            fits_one_byte(v@),
            v@.len() <= max_size,
            max_size <= u32::MAX,
            v@.len() <= u16::MAX,
        ensures
            r.binding.oci_type == OCIDataType::Char,
            r.binding.value@.len() == max_size,
            r.binding.value@.take(v@.len() as int) == latin1_bytes(v@),
            r.binding.indicator == 0,
            r.binding.max_size == max_size,
            r.binding.actual_size == v@.len(),
    {
        let mut value = encode_text(v);
        let n = value.len();
        let mut i: usize = n;
        while i < max_size
            invariant
                n <= i <= max_size,
                value@.len() == i,
                value@.take(n as int) == latin1_bytes(v@),
            decreases max_size - i,
        {
            value.push(0);
            proof {
                assert(value@.take(n as int) =~= latin1_bytes(v@));
            }
            i = i + 1;
        }
        Binding {
            binding: RowBinding {
                oci_type: OCIDataType::Char,
                value,
                indicator: 0,
                max_size: max_size as u32,
                actual_size: n as u16,
            },
            marker: core::marker::PhantomData,
        }
    }

    /// Overwrites the bound value in place and updates the actual length;
    /// the value must fit the buffer declared at preparation time.
    pub fn set(&mut self, v: &str)
        requires
            fits_one_byte(v@),
            v@.len() <= old(self).binding.value@.len(),
            v@.len() <= u16::MAX,
        ensures
            final(self).binding.oci_type == old(self).binding.oci_type,
            final(self).binding.value@.len() == old(self).binding.value@.len(),
            final(self).binding.value@.take(v@.len() as int) == latin1_bytes(v@),
            final(self).binding.indicator == old(self).binding.indicator,
            final(self).binding.max_size == old(self).binding.max_size,
            final(self).binding.actual_size == v@.len(),
    {
        let bytes = encode_text(v);
        let n = bytes.len();
        overwrite_prefix(&mut self.binding.value, &bytes);
        self.binding.actual_size = n as u16;
        proof {
            assert(self.binding.value@.take(n as int) =~= latin1_bytes(v@));
        }
    }
}

impl Binding<u32> {
    /// A numeric binding holding the given initial value.
    pub fn from_u32(v: u32) -> (r: Binding<u32>)
        ensures
            r.binding.oci_type == OCIDataType::Uint,
            r.binding.value@ == spec_u32_to_le_bytes(v),
            r.binding.indicator == 0,
            r.binding.max_size == 4,
            r.binding.actual_size == 4,
    {
        Binding {
            binding: RowBinding {
                oci_type: OCIDataType::Uint,
                value: encode_u32(v),
                indicator: 0,
                max_size: 4,
                actual_size: 4,
            },
            marker: core::marker::PhantomData,
        }
    }

    /// Overwrites the bound value in place.
    pub fn set(&mut self, v: u32)
        ensures
            final(self).binding.oci_type == old(self).binding.oci_type,
            final(self).binding.value@ == spec_u32_to_le_bytes(v),
            final(self).binding.indicator == old(self).binding.indicator,
            final(self).binding.max_size == old(self).binding.max_size,
            final(self).binding.actual_size == old(self).binding.actual_size,
    {
        self.binding.value = encode_u32(v);
    }
}

impl Binding<Option<u32>> {
    /// An optional numeric binding: an absent value binds NULL through the
    /// indicator.
    pub fn from_opt_u32(v: Option<u32>) -> (r: Binding<Option<u32>>)
        ensures
            r.binding.oci_type == OCIDataType::Uint,
            r.binding.max_size == 4,
            r.binding.actual_size == 4,
            v matches Some(x) ==> r.binding.value@ == spec_u32_to_le_bytes(x)
                && r.binding.indicator == 0,
            v is None ==> r.binding.indicator == -1,
    {
        match v {
            Some(x) => Binding {
                binding: RowBinding {
                    oci_type: OCIDataType::Uint,
                    value: encode_u32(x),
                    indicator: 0,
                    max_size: 4,
                    actual_size: 4,
                },
                marker: core::marker::PhantomData,
            },
            None => Binding {
                binding: RowBinding {
                    oci_type: OCIDataType::Uint,
                    value: encode_u32(0),
                    indicator: -1,
                    max_size: 4,
                    actual_size: 4,
                },
                marker: core::marker::PhantomData,
            },
        }
    }

    /// Overwrites the bound value in place, setting or clearing the NULL
    /// indicator.
    pub fn set(&mut self, v: Option<u32>)
        ensures
            final(self).binding.oci_type == old(self).binding.oci_type,
            final(self).binding.max_size == old(self).binding.max_size,
            final(self).binding.actual_size == old(self).binding.actual_size,
            v matches Some(x) ==> final(self).binding.value@ == spec_u32_to_le_bytes(x) && final(self).binding.indicator == 0,
            v is None ==> final(self).binding.indicator == -1 && final(self).binding.value@ == old(self).binding.value@,
    {
        match v {
            Some(x) => {
                self.binding.value = encode_u32(x);
                self.binding.indicator = 0;
            },
            None => {
                self.binding.indicator = -1;
            },
        }
    }
}

} // verus!
