//! Display-surface and firmware-handoff layer of a minimal pre-kernel
//! bootloader: a bounds-checked pixel-buffer abstraction with drawing
//! primitives, firmware memory-map enumeration, and the boot-services
//! exit handshake.

pub mod efi;

use vstd::prelude::*;

verus! {

/// Failure conditions reported to the immediate caller.
///
/// These are the expected, recoverable failures: out-of-range coordinates
/// in drawing calls and a missing graphics capability at discovery time.
/// Firmware-contract violations are not represented here; they halt the
/// boot sequence instead.
#[derive(Clone, Copy, Debug, PartialEq, Eq, Structural)]
pub enum Error {
    /// A drawing coordinate (or a rectangle corner) lies outside the surface.
    OutOfRange,
    /// Firmware reported no graphics-output capability.
    GraphicsProtocolNotFound,
}

} // verus!
