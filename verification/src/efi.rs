//! Firmware-facing data types shared by the EFI modules.

pub mod bitmap;
pub mod font;
pub mod memory;
pub mod protocol;
pub mod table;
pub mod vram;

use vstd::prelude::*;

verus! {

/// An opaque handle firmware gives to the loaded image.
pub type EfiHandle = u64;

/// A 128-bit globally-unique identifier naming a firmware capability.
#[derive(Clone, Copy, PartialEq, Eq, Debug)]
pub struct EfiGuid {
    pub data0: u32,
    pub data1: u16,
    pub data2: u16,
    pub data3: [u8; 8],
}

/// A status word returned by a firmware call.
///
/// Firmware reports success as the zero status; every other value is some
/// failure code. The drawing and enumeration logic never needs to tell
/// failure codes apart, only success from non-success, so non-success
/// codes are carried through unchanged.
#[derive(Clone, Copy, PartialEq, Eq, Structural, Debug)]
pub enum EfiStatus {
    Success,
    Other(u64),
}

impl EfiStatus {
    /// The raw status word this value stands for.
    pub fn as_u64(&self) -> (r: u64)
        ensures
            r == self.spec_as_u64(),
    {
        match self {
            EfiStatus::Success => 0u64,
            EfiStatus::Other(v) => *v,
        }
    }

    pub open spec fn spec_as_u64(&self) -> u64 {
        match self {
            EfiStatus::Success => 0u64,
            EfiStatus::Other(v) => *v,
        }
    }

    /// Classifies a raw firmware status word: zero is success.
    pub fn from_u64(v: u64) -> (r: EfiStatus)
        ensures
            r == EfiStatus::spec_from_u64(v),
    {
        if v == 0 {
            EfiStatus::Success
        } else {
            EfiStatus::Other(v)
        }
    }

    pub open spec fn spec_from_u64(v: u64) -> EfiStatus {
        if v == 0 {
            EfiStatus::Success
        } else {
            EfiStatus::Other(v)
        }
    }
}

} // verus!
