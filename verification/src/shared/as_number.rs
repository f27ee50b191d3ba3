//! Autonomous system numbers in their two-octet and four-octet forms.
use crate::shared::error::Error;
use crate::shared::text::{append_decimal, dec_text};
use vstd::prelude::*;

verus! {

/// The number of the transition AS, used as peer AS when peers determine the
/// four-octet AS number capability.
pub const AS_TRANS_NUMBER: u16 = 23456;

/// An autonomous system number. Numbers that fit in two octets are `Small`.
#[derive(Clone, Copy, Debug, PartialEq, Eq, Structural)]
pub enum AsNumber {
    Small(u16),
    Extended(u32),
}

impl AsNumber {
    /// The number, whatever its form.
    pub open spec fn value(self) -> nat {
        match self {
            AsNumber::Small(v) => v as nat,
            AsNumber::Extended(v) => v as nat,
        }
    }

    /// The AS number of a four-octet value: two-octet form whenever it fits.
    pub open spec fn spec_from_u32(v: u32) -> AsNumber {
        if v <= 65535 {
            AsNumber::Small(v as u16)
        } else {
            AsNumber::Extended(v)
        }
    }

    /// The AS number read from a signed integer: positive values from their low 32 bits,
    /// others refused.
    pub open spec fn spec_from_signed(v: i64) -> Option<AsNumber> {
        if v > 0 {
            Some(AsNumber::spec_from_u32(v as u32))
        } else {
            None
        }
    }

    /// The AS number read from an unsigned integer, refused above the four-octet range.
    pub open spec fn spec_from_unsigned(v: u64) -> Option<AsNumber> {
        if v <= u32::MAX {
            Some(AsNumber::spec_from_u32(v as u32))
        } else {
            None
        }
    }

    /// Converting a four-octet value keeps the number, and gives the two-octet form
    /// exactly where the number fits in two octets.
    pub proof fn lemma_from_u32_keeps_value(v: u32)
        ensures
            AsNumber::spec_from_u32(v).value() == v,
            AsNumber::spec_from_u32(v) is Small <==> v <= 65535,
    {
    }

    /// Converting a two-octet value gives what converting the same number as a
    /// four-octet value gives.
    pub proof fn lemma_from_u16_agrees_with_from_u32(v: u16)
        ensures
            <AsNumber as vstd::std_specs::convert::FromSpec<u16>>::from_spec(v)
                == <AsNumber as vstd::std_specs::convert::FromSpec<u32>>::from_spec(v as u32),
    {
    }

    /// Converting a 64-bit value succeeds exactly within the four-octet range, and then
    /// agrees with converting the same number as a four-octet value.
    pub proof fn lemma_try_from_u64_agrees_with_from_u32(v: u64)
        ensures
            v <= u32::MAX ==> <AsNumber as vstd::std_specs::convert::TryFromSpec<u64>>::try_from_spec(v)
                == Ok::<AsNumber, Error>(AsNumber::spec_from_u32(v as u32)),
            v > u32::MAX ==> <AsNumber as vstd::std_specs::convert::TryFromSpec<u64>>::try_from_spec(v) is Err,
    {
    }

    /// A positive number within the four-octet range reads the same whether it comes as
    /// a signed or an unsigned integer; zero and negative signed values are refused.
    pub proof fn lemma_signed_and_unsigned_reading_agree(v: i64)
        ensures
            0 < v <= u32::MAX ==> AsNumber::spec_from_signed(v) == AsNumber::spec_from_unsigned(v as u64),
            v <= 0 ==> AsNumber::spec_from_signed(v) is None,
    {
    }

    /// Reading an unsigned value succeeds exactly within the four-octet range, keeps the
    /// number, and gives the two-octet form exactly where the number fits in two octets.
    pub proof fn lemma_unsigned_reading(v: u64)
        ensures
            AsNumber::spec_from_unsigned(v) is Some <==> v <= 0xffff_ffff,
            AsNumber::spec_from_unsigned(v) matches Some(a) ==> a.value() == v && (a is Small
                <==> v <= 65535),
    {
    }

    /// Reading a signed value succeeds exactly for positive values, keeps the number
    /// modulo 2^32, and gives the two-octet form exactly where that number fits in two
    /// octets.
    pub proof fn lemma_signed_reading(v: i64)
        ensures
            AsNumber::spec_from_signed(v) is Some <==> v > 0,
            AsNumber::spec_from_signed(v) matches Some(a) ==> a.value() == v % 0x1_0000_0000 && (
            a is Small <==> v % 0x1_0000_0000 <= 65535),
    {
        if v > 0 {
            assert((v as u32) == v % 0x1_0000_0000) by (bit_vector)
                requires
                    v > 0,
            ;
        }
    }

    /// The transition AS number.
    pub fn as_trans() -> (r: AsNumber)
        ensures
            r == AsNumber::Small(AS_TRANS_NUMBER),
    {
        AsNumber::Small(AS_TRANS_NUMBER)
    }

    /// The AS number of a value given as a signed integer: positive values are
    /// converted from their low 32 bits, zero and negative values are refused.
    pub fn from_signed_value(v: i64) -> (r: Option<AsNumber>)
        ensures
            r == AsNumber::spec_from_signed(v),
    {
        if v > 0 {
            Some(AsNumber::from(v as u32))
        } else {
            None
        }
    }

    /// The AS number of a value given as an unsigned integer, refused above the
    /// four-octet range.
    pub fn from_unsigned_value(v: u64) -> (r: Option<AsNumber>)
        ensures
            r == AsNumber::spec_from_unsigned(v),
    {
        match AsNumber::try_from(v) {
            Ok(n) => Some(n),
            Err(_) => None,
        }
    }

    /// The decimal spelling of the number.
    pub fn to_text(&self) -> (s: String)
        ensures
            s@ == dec_text(self.value()),
    {
        let mut s = String::new();
        match *self {
            AsNumber::Small(v) => append_decimal(&mut s, v as u64),
            AsNumber::Extended(v) => append_decimal(&mut s, v as u64),
        }
        s
    }
}

impl Default for AsNumber {
    fn default() -> (r: AsNumber)
        ensures
            r == AsNumber::Small(AS_TRANS_NUMBER),
    {
        AsNumber::as_trans()
    }
}

impl From<u16> for AsNumber {
    fn from(value: u16) -> (r: AsNumber) {
        AsNumber::Small(value)
    }
}

impl vstd::std_specs::convert::FromSpecImpl<u16> for AsNumber {
    open spec fn obeys_from_spec() -> bool {
        true
    }

    open spec fn from_spec(value: u16) -> AsNumber {
        AsNumber::Small(value)
    }
}

impl From<u32> for AsNumber {
    fn from(value: u32) -> (r: AsNumber) {
        if value <= 65535 {
            AsNumber::Small(value as u16)
        } else {
            AsNumber::Extended(value)
        }
    }
}

impl vstd::std_specs::convert::FromSpecImpl<u32> for AsNumber {
    open spec fn obeys_from_spec() -> bool {
        true
    }

    open spec fn from_spec(value: u32) -> AsNumber {
        AsNumber::spec_from_u32(value)
    }
}

impl TryFrom<u64> for AsNumber {
    type Error = Error;

    fn try_from(value: u64) -> (r: Result<AsNumber, Error>) {
        if value <= 65535 {
            Ok(AsNumber::Small(value as u16))
        } else if value <= u32::MAX as u64 {
            Ok(AsNumber::Extended(value as u32))
        } else {
            Err(Error::InvalidAsNumberError { as_number: value as i64 })
        }
    }
}

impl vstd::std_specs::convert::TryFromSpecImpl<u64> for AsNumber {
    open spec fn obeys_try_from_spec() -> bool {
        true
    }

    open spec fn try_from_spec(value: u64) -> Result<AsNumber, Error> {
        if value <= u32::MAX {
            Ok(AsNumber::spec_from_u32(value as u32))
        } else {
            Err(Error::InvalidAsNumberError { as_number: value as i64 })
        }
    }
}

} // verus!
