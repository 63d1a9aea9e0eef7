//! The boot-services exit protocol: capture a fresh memory-map
//! snapshot, present its map-key fencing token to the exit call, and
//! retry with a fresh snapshot whenever firmware reports the key stale.
//!
//! The firmware side is modelled by [`BootServicesSim`], a simulated
//! boot-services table with an explicit two-state machine (Active and
//! Exited), a current map key that changes whenever the memory layout
//! does, and a budget of attempts it will still reject. The surrounding
//! program runs the same handshake against the real firmware tables;
//! the retry decisions proved here are exactly the ones it performs.

use vstd::prelude::*;
use crate::efi::EfiHandle;
use crate::efi::EfiStatus;
use crate::efi::memory::{
    MemoryMapHolder, EfiMemoryDescriptor, spec_parse_descriptor, store_descriptor,
    MEMORY_MAP_BUFFER_SIZE, DESCRIPTOR_BYTES,
};

verus! {

/// Whether boot-time services are still callable.
#[derive(Clone, Copy, PartialEq, Eq, Structural, Debug)]
pub enum BootServicesState {
    Active,
    Exited,
}

/// A simulated firmware boot-services table.
///
/// It serves a fixed list of memory descriptors at a fixed stride,
/// issues a fresh map key with every snapshot, and rejects the next
/// `rejects_left` exit attempts (bumping the key each time, as a
/// concurrent map mutation would) before it finally accepts a current
/// key. The counters record how often each service was called.
pub struct BootServicesSim {
    pub state: BootServicesState,
    pub map_key: usize,
    pub rejects_left: u64,
    pub captures: u64,
    pub attempts: u64,
    pub descriptors: Vec<EfiMemoryDescriptor>,
    pub descriptor_size: usize,
    pub descriptor_version: u32,
}

impl BootServicesSim {
    /// A simulated firmware in the Active state that serves the given
    /// map and rejects the next `rejects` exit attempts.
    pub fn new(descriptors: Vec<EfiMemoryDescriptor>, descriptor_size: usize, rejects: u64) -> (r:
        BootServicesSim)
        ensures
            r.state == BootServicesState::Active,
            r.map_key == 0,
            r.rejects_left == rejects,
            r.captures == 0,
            r.attempts == 0,
            r.descriptors == descriptors,
            r.descriptor_size == descriptor_size,
            r.descriptor_version == 1,
    {
        BootServicesSim {
            state: BootServicesState::Active,
            map_key: 0,
            rejects_left: rejects,
            captures: 0,
            attempts: 0,
            descriptors,
            descriptor_size,
            descriptor_version: 1,
        }
    }

    /// Captures the current memory map into `map`: the descriptor
    /// records at the declared stride, the declared byte length, and
    /// the current map-key fencing token. Always succeeds when the map
    /// fits the snapshot buffer; a required size beyond the buffer is a
    /// firmware-contract violation the caller must rule out.
    pub fn get_memory_map(&mut self, map: &mut MemoryMapHolder) -> (r: EfiStatus)
        requires
            old(map).wf(),
            old(self).state == BootServicesState::Active,
            old(self).descriptor_size >= DESCRIPTOR_BYTES,
            old(self).descriptors@.len() * old(self).descriptor_size <= MEMORY_MAP_BUFFER_SIZE,
            old(self).captures < u64::MAX,
        ensures
            r == EfiStatus::Success,
            final(self).state == old(self).state,
            final(self).map_key == old(self).map_key,
            final(self).rejects_left == old(self).rejects_left,
            final(self).captures == old(self).captures + 1,
            final(self).attempts == old(self).attempts,
            final(self).descriptors == old(self).descriptors,
            final(self).descriptor_size == old(self).descriptor_size,
            final(self).descriptor_version == old(self).descriptor_version,
            final(map).wf(),
            final(map).map_key == old(self).map_key,
            final(map).descriptor_size == old(self).descriptor_size,
            final(map).descriptor_version == old(self).descriptor_version,
            final(map).memory_map_size == old(self).descriptors@.len()
                * old(self).descriptor_size,
            forall|i: int|
                0 <= i < old(self).descriptors@.len() ==> spec_parse_descriptor(
                    final(map).memory_map_buffer@,
                    i * old(self).descriptor_size,
                ) == old(self).descriptors@[i],
    {
        let n: usize = self.descriptors.len();
        let stride: usize = self.descriptor_size;
        let ghost nn = n as int;
        let ghost st = stride as int;
        let mut i: usize = 0;
        while i < n
            invariant
                0 <= i <= n,
                n == self.descriptors@.len(),
                stride == self.descriptor_size,
                stride >= DESCRIPTOR_BYTES,
                nn == n as int,
                st == stride as int,
                nn * st <= MEMORY_MAP_BUFFER_SIZE,
                map.memory_map_buffer@.len() == MEMORY_MAP_BUFFER_SIZE,
                map.memory_map_size == old(map).memory_map_size,
                map.map_key == old(map).map_key,
                map.descriptor_size == old(map).descriptor_size,
                map.descriptor_version == old(map).descriptor_version,
                *self == *old(self),
                forall|j: int|
                    0 <= j < i ==> spec_parse_descriptor(map.memory_map_buffer@, j * st)
                        == self.descriptors@[j],
            decreases n - i,
        {
            proof {
                assert((i + 1) * st <= nn * st && i * st + st == (i + 1) * st && i * st >= 0)
                    by (nonlinear_arith)
                    requires
                        0 <= i < nn,
                        st >= 0,
                ;
            }
            let ofs: usize = i * stride;
            store_descriptor(&mut map.memory_map_buffer, ofs, &self.descriptors[i]);
            proof {
                assert forall|j: int| 0 <= j < i + 1 implies spec_parse_descriptor(
                    map.memory_map_buffer@,
                    j * st,
                ) == self.descriptors@[j] by {
                    if j < i {
                        assert((j + 1) * st <= i * st && j * st + st == (j + 1) * st && j * st
                            >= 0) by (nonlinear_arith)
                            requires
                                0 <= j < i,
                                st >= 0,
                        ;
                        assert(j * st + DESCRIPTOR_BYTES <= ofs);
                    }
                }
            }
            i = i + 1;
        }
        proof {
            assert(nn * st >= 0) by (nonlinear_arith)
                requires
                    nn >= 0,
                    st >= 0,
            ;
        }
        map.memory_map_size = n * stride;
        map.map_key = self.map_key;
        map.descriptor_size = stride;
        map.descriptor_version = self.descriptor_version;
        self.captures = self.captures + 1;
        EfiStatus::Success
    }

    /// Attempts the exit handshake with the presented map key.
    ///
    /// A key that is not the current one is rejected (the snapshot it
    /// came from is stale). A current key is still rejected while the
    /// simulated map keeps changing (`rejects_left` counts those, and
    /// each rejection moves the key on, exactly as a map mutation
    /// between capture and exit would); once the map is quiet, a
    /// current key is accepted and boot services exit.
    pub fn exit_boot_services(&mut self, image_handle: EfiHandle, map_key: usize) -> (r: EfiStatus)
        requires
            old(self).state == BootServicesState::Active,
            old(self).attempts < u64::MAX,
            old(self).rejects_left > 0 ==> old(self).map_key < usize::MAX,
        ensures
            final(self).attempts == old(self).attempts + 1,
            final(self).captures == old(self).captures,
            final(self).descriptors == old(self).descriptors,
            final(self).descriptor_size == old(self).descriptor_size,
            final(self).descriptor_version == old(self).descriptor_version,
            map_key != old(self).map_key ==> (r is Other) && final(self).state
                == BootServicesState::Active && final(self).map_key == old(self).map_key
                && final(self).rejects_left == old(self).rejects_left,
            map_key == old(self).map_key && old(self).rejects_left > 0 ==> (r is Other)
                && final(self).state == BootServicesState::Active && final(self).map_key
                == old(self).map_key + 1 && final(self).rejects_left == old(self).rejects_left - 1,
            map_key == old(self).map_key && old(self).rejects_left == 0 ==> r
                == EfiStatus::Success && final(self).state == BootServicesState::Exited
                && final(self).map_key == old(self).map_key && final(self).rejects_left == 0,
    {
        let _ = image_handle;
        self.attempts = self.attempts + 1;
        if map_key != self.map_key {
            EfiStatus::Other(2)
        } else if self.rejects_left > 0 {
            self.rejects_left = self.rejects_left - 1;
            self.map_key = self.map_key + 1;
            EfiStatus::Other(2)
        } else {
            self.state = BootServicesState::Exited;
            EfiStatus::Success
        }
    }
}

/// The exit handshake: repeatedly capture a fresh snapshot and present
/// that same snapshot's map key to the exit call, until firmware
/// accepts one. One snapshot is captured per attempt, so the key
/// presented always comes from the most recent capture; the handshake
/// succeeds on attempt `rejects_left + 1`, leaving boot services
/// Exited and the final, current snapshot in `memory_map`.
pub fn exit_from_efi_boot_services(
    image_handle: EfiHandle,
    boot_services: &mut BootServicesSim,
    memory_map: &mut MemoryMapHolder,
)
    requires
        old(memory_map).wf(),
        old(boot_services).state == BootServicesState::Active,
        old(boot_services).descriptor_size >= DESCRIPTOR_BYTES,
        old(boot_services).descriptors@.len() * old(boot_services).descriptor_size
            <= MEMORY_MAP_BUFFER_SIZE,
        old(boot_services).attempts + old(boot_services).rejects_left < u64::MAX,
        old(boot_services).captures + old(boot_services).rejects_left < u64::MAX,
        old(boot_services).map_key + old(boot_services).rejects_left <= usize::MAX,
    ensures
        final(boot_services).state == BootServicesState::Exited,
        final(boot_services).rejects_left == 0,
        final(boot_services).attempts == old(boot_services).attempts
            + old(boot_services).rejects_left + 1,
        final(boot_services).captures == old(boot_services).captures
            + old(boot_services).rejects_left + 1,
        final(boot_services).descriptors == old(boot_services).descriptors,
        final(boot_services).descriptor_size == old(boot_services).descriptor_size,
        final(memory_map).wf(),
        final(memory_map).map_key == final(boot_services).map_key,
        final(memory_map).descriptor_size == old(boot_services).descriptor_size,
        final(memory_map).memory_map_size == old(boot_services).descriptors@.len()
            * old(boot_services).descriptor_size,
        forall|i: int|
            0 <= i < old(boot_services).descriptors@.len() ==> spec_parse_descriptor(
                final(memory_map).memory_map_buffer@,
                i * old(boot_services).descriptor_size,
            ) == old(boot_services).descriptors@[i],
{
    loop
        invariant_except_break
            memory_map.wf(),
            boot_services.state == BootServicesState::Active,
            boot_services.descriptors == old(boot_services).descriptors,
            boot_services.descriptor_size == old(boot_services).descriptor_size,
            boot_services.descriptor_size >= DESCRIPTOR_BYTES,
            boot_services.descriptors@.len() * boot_services.descriptor_size
                <= MEMORY_MAP_BUFFER_SIZE,
            boot_services.attempts + boot_services.rejects_left == old(boot_services).attempts
                + old(boot_services).rejects_left,
            boot_services.captures + boot_services.rejects_left == old(boot_services).captures
                + old(boot_services).rejects_left,
            boot_services.map_key + boot_services.rejects_left <= usize::MAX,
            boot_services.attempts + boot_services.rejects_left < u64::MAX,
            boot_services.captures + boot_services.rejects_left < u64::MAX,
        ensures
            boot_services.state == BootServicesState::Exited,
            boot_services.rejects_left == 0,
            boot_services.descriptors == old(boot_services).descriptors,
            boot_services.descriptor_size == old(boot_services).descriptor_size,
            boot_services.attempts == old(boot_services).attempts + old(
                boot_services,
            ).rejects_left + 1,
            boot_services.captures == old(boot_services).captures + old(
                boot_services,
            ).rejects_left + 1,
            memory_map.wf(),
            memory_map.map_key == boot_services.map_key,
            memory_map.descriptor_size == old(boot_services).descriptor_size,
            memory_map.memory_map_size == old(boot_services).descriptors@.len() * old(
                boot_services,
            ).descriptor_size,
            forall|i: int|
                0 <= i < old(boot_services).descriptors@.len() ==> spec_parse_descriptor(
                    memory_map.memory_map_buffer@,
                    i * old(boot_services).descriptor_size,
                ) == old(boot_services).descriptors@[i],
        decreases boot_services.rejects_left,
    {
        let status = boot_services.get_memory_map(memory_map);
        proof {
            // A failed capture would be a fatal firmware-contract
            // violation; the capture contract rules it out here.
            assert(status == EfiStatus::Success);
        }
        let status = boot_services.exit_boot_services(image_handle, memory_map.map_key);
        if status == EfiStatus::Success {
            break ;
        }
    }
}

} // verus!
