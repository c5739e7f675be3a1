//! The names that the class file format gives to its unsigned integers.

use vstd::prelude::*;

verus! {

/// One byte.
#[allow(non_camel_case_types)]
pub type u1 = u8;

/// Two bytes, big-endian.
#[allow(non_camel_case_types)]
pub type u2 = u16;

/// Four bytes, big-endian.
#[allow(non_camel_case_types)]
pub type u4 = u32;

} // verus!
