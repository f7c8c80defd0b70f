//! Small conversions: ids to and from the signed integers a database
//! keeps, and the text of an optional value.

use vstd::prelude::*;
use vstd::string::*;

verus! {

/// The unsigned integer with the same 64 bits as `value`.
pub open spec fn unsigned_of(value: i64) -> u64 {
    if value >= 0 {
        value as u64
    } else {
        (value + 0x1_0000_0000_0000_0000) as u64
    }
}

/// The signed integer with the same 64 bits as `value`.
pub open spec fn signed_of(value: u64) -> i64 {
    if value <= 0x7fff_ffff_ffff_ffff {
        value as i64
    } else {
        (value - 0x1_0000_0000_0000_0000) as i64
    }
}

/// Makes a value from a signed integer, bit for bit.
pub trait Fromi64: Sized {
    fn from_i64(value: i64) -> Self;
}

impl Fromi64 for u64 {
    fn from_i64(value: i64) -> (r: u64)
        ensures
            r == unsigned_of(value),
    {
        if value >= 0 {
            value as u64
        } else {
            let low: u64 = (value - i64::MIN) as u64;
            low + 0x8000_0000_0000_0000
        }
    }
}

/// Turns a value into a signed integer, bit for bit.
pub trait Toi64 {
    fn to_i64(self) -> i64;
}

impl Toi64 for u64 {
    fn to_i64(self) -> (r: i64)
        ensures
            r == signed_of(self),
    {
        if self <= 0x7fff_ffff_ffff_ffff {
            self as i64
        } else {
            let low: i64 = (self - 0x8000_0000_0000_0000) as i64;
            low + i64::MIN
        }
    }
}

/// Going to a signed integer and back, or the other way round, gives the
/// value one started from.
pub proof fn law_i64_round_trip(id: u64, stored: i64)
    ensures
        unsigned_of(signed_of(id)) == id,
        signed_of(unsigned_of(stored)) == stored,
{
}

/// The text of an optional value: `None`, or the value's own text.
pub trait OptionExt {
    fn to_string(self) -> String;
}

impl<T: core::fmt::Display> OptionExt for Option<T> {
    fn to_string(self) -> (s: String)
        ensures
            match self {
                None => s@ == "None"@,
                Some(val) => to_string_from_display_ensures::<T>(&val, s),
            },
    {
        match self {
            None => "None".to_string(),
            Some(val) => val.to_string(),
        }
    }
}

} // verus!
