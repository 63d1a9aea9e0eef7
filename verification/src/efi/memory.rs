//! The firmware memory map: descriptor records, the fixed-capacity
//! snapshot that holds them, and a forward-only enumerator over it.
//!
//! A descriptor occupies 40 bytes in the snapshot: five little-endian
//! 64-bit fields in a fixed order (type tag, physical start, virtual
//! start, page count, attribute bits). Firmware may lay records out
//! with a larger stride than the logical record size; the enumerator
//! steps by the firmware-declared stride, never by the record size.

use vstd::prelude::*;
use vstd::pervasive::VecAdditionalExecFns;

verus! {

/// Byte budget of a memory-map snapshot.
pub const MEMORY_MAP_BUFFER_SIZE: usize = 0x8000;

/// Bytes of one descriptor record in the snapshot.
pub const DESCRIPTOR_BYTES: usize = 40;

/// Memory-region classification tags firmware uses in its map.
#[derive(Debug, Clone, Copy, PartialEq, Eq, Structural)]
#[allow(non_camel_case_types)]
pub enum EfiMemoryType {
    RESERVED,
    LOADER_CODE,
    LOADER_DATA,
    BOOT_SERVICES_CODE,
    BOOT_SERVICES_DATA,
    RUNTIME_SERVICES_CODE,
    RUNTIME_SERVICES_DATA,
    CONVENTIONAL_MEMORY,
    UNUSABLE_MEMORY,
    ACPI_RECLAIM_MEMORY,
    ACPI_MEMORY_NVS,
    MEMORY_MAPPED_IO,
    MEMORY_MAPPED_IO_PORT_SPACE,
    PAL_CODE,
    PERSISTENT_MEMORY,
}

impl EfiMemoryType {
    /// The ordinal firmware stores for this tag.
    pub fn to_u64(self) -> (r: u64)
        ensures
            r == self.spec_to_u64(),
    {
        match self {
            EfiMemoryType::RESERVED => 0u64,
            EfiMemoryType::LOADER_CODE => 1u64,
            EfiMemoryType::LOADER_DATA => 2u64,
            EfiMemoryType::BOOT_SERVICES_CODE => 3u64,
            EfiMemoryType::BOOT_SERVICES_DATA => 4u64,
            EfiMemoryType::RUNTIME_SERVICES_CODE => 5u64,
            EfiMemoryType::RUNTIME_SERVICES_DATA => 6u64,
            EfiMemoryType::CONVENTIONAL_MEMORY => 7u64,
            EfiMemoryType::UNUSABLE_MEMORY => 8u64,
            EfiMemoryType::ACPI_RECLAIM_MEMORY => 9u64,
            EfiMemoryType::ACPI_MEMORY_NVS => 10u64,
            EfiMemoryType::MEMORY_MAPPED_IO => 11u64,
            EfiMemoryType::MEMORY_MAPPED_IO_PORT_SPACE => 12u64,
            EfiMemoryType::PAL_CODE => 13u64,
            EfiMemoryType::PERSISTENT_MEMORY => 14u64,
        }
    }

    pub open spec fn spec_to_u64(self) -> u64 {
        match self {
            EfiMemoryType::RESERVED => 0u64,
            EfiMemoryType::LOADER_CODE => 1u64,
            EfiMemoryType::LOADER_DATA => 2u64,
            EfiMemoryType::BOOT_SERVICES_CODE => 3u64,
            EfiMemoryType::BOOT_SERVICES_DATA => 4u64,
            EfiMemoryType::RUNTIME_SERVICES_CODE => 5u64,
            EfiMemoryType::RUNTIME_SERVICES_DATA => 6u64,
            EfiMemoryType::CONVENTIONAL_MEMORY => 7u64,
            EfiMemoryType::UNUSABLE_MEMORY => 8u64,
            EfiMemoryType::ACPI_RECLAIM_MEMORY => 9u64,
            EfiMemoryType::ACPI_MEMORY_NVS => 10u64,
            EfiMemoryType::MEMORY_MAPPED_IO => 11u64,
            EfiMemoryType::MEMORY_MAPPED_IO_PORT_SPACE => 12u64,
            EfiMemoryType::PAL_CODE => 13u64,
            EfiMemoryType::PERSISTENT_MEMORY => 14u64,
        }
    }

    /// The tag a stored ordinal stands for. Ordinals past the known tags
    /// are firmware- or OS-reserved; they are read back as `RESERVED`.
    pub fn from_u64(v: u64) -> (r: EfiMemoryType)
        ensures
            r == EfiMemoryType::spec_from_u64(v),
    {
        if v == 1 {
            EfiMemoryType::LOADER_CODE
        } else if v == 2 {
            EfiMemoryType::LOADER_DATA
        } else if v == 3 {
            EfiMemoryType::BOOT_SERVICES_CODE
        } else if v == 4 {
            EfiMemoryType::BOOT_SERVICES_DATA
        } else if v == 5 {
            EfiMemoryType::RUNTIME_SERVICES_CODE
        } else if v == 6 {
            EfiMemoryType::RUNTIME_SERVICES_DATA
        } else if v == 7 {
            EfiMemoryType::CONVENTIONAL_MEMORY
        } else if v == 8 {
            EfiMemoryType::UNUSABLE_MEMORY
        } else if v == 9 {
            EfiMemoryType::ACPI_RECLAIM_MEMORY
        } else if v == 10 {
            EfiMemoryType::ACPI_MEMORY_NVS
        } else if v == 11 {
            EfiMemoryType::MEMORY_MAPPED_IO
        } else if v == 12 {
            EfiMemoryType::MEMORY_MAPPED_IO_PORT_SPACE
        } else if v == 13 {
            EfiMemoryType::PAL_CODE
        } else if v == 14 {
            EfiMemoryType::PERSISTENT_MEMORY
        } else {
            EfiMemoryType::RESERVED
        }
    }

    pub open spec fn spec_from_u64(v: u64) -> EfiMemoryType {
        if v == 1 {
            EfiMemoryType::LOADER_CODE
        } else if v == 2 {
            EfiMemoryType::LOADER_DATA
        } else if v == 3 {
            EfiMemoryType::BOOT_SERVICES_CODE
        } else if v == 4 {
            EfiMemoryType::BOOT_SERVICES_DATA
        } else if v == 5 {
            EfiMemoryType::RUNTIME_SERVICES_CODE
        } else if v == 6 {
            EfiMemoryType::RUNTIME_SERVICES_DATA
        } else if v == 7 {
            EfiMemoryType::CONVENTIONAL_MEMORY
        } else if v == 8 {
            EfiMemoryType::UNUSABLE_MEMORY
        } else if v == 9 {
            EfiMemoryType::ACPI_RECLAIM_MEMORY
        } else if v == 10 {
            EfiMemoryType::ACPI_MEMORY_NVS
        } else if v == 11 {
            EfiMemoryType::MEMORY_MAPPED_IO
        } else if v == 12 {
            EfiMemoryType::MEMORY_MAPPED_IO_PORT_SPACE
        } else if v == 13 {
            EfiMemoryType::PAL_CODE
        } else if v == 14 {
            EfiMemoryType::PERSISTENT_MEMORY
        } else {
            EfiMemoryType::RESERVED
        }
    }
}

/// One entry of the firmware memory map. Immutable once captured.
#[derive(Clone, Copy, PartialEq, Eq, Structural, Debug)]
pub struct EfiMemoryDescriptor {
    pub memory_type: EfiMemoryType,
    pub physical_start: u64,
    pub virtual_start: u64,
    pub number_of_pages: u64,
    pub attribute: u64,
}

impl EfiMemoryDescriptor {
    /// A descriptor built from its five fields, for synthetic maps.
    pub fn new(memory_type: EfiMemoryType, physical_start: u64, virtual_start: u64,
        number_of_pages: u64, attribute: u64) -> (r: EfiMemoryDescriptor)
        ensures
            r.memory_type == memory_type,
            r.physical_start == physical_start,
            r.virtual_start == virtual_start,
            r.number_of_pages == number_of_pages,
            r.attribute == attribute,
    {
        EfiMemoryDescriptor { memory_type, physical_start, virtual_start, number_of_pages,
            attribute }
    }

    pub fn memory_type(&self) -> (r: EfiMemoryType)
        ensures
            r == self.memory_type,
    {
        self.memory_type
    }

    pub fn physical_start(&self) -> (r: u64)
        ensures
            r == self.physical_start,
    {
        self.physical_start
    }

    pub fn virtual_start(&self) -> (r: u64)
        ensures
            r == self.virtual_start,
    {
        self.virtual_start
    }

    pub fn number_of_pages(&self) -> (r: u64)
        ensures
            r == self.number_of_pages,
    {
        self.number_of_pages
    }
}

/// The 64-bit value stored little-endian in the eight bytes at `o`.
pub open spec fn le_u64_at(b: Seq<u8>, o: int) -> u64 {
    (b[o] as u64) | ((b[o + 1] as u64) << 8u64) | ((b[o + 2] as u64) << 16u64) | ((b[o
        + 3] as u64) << 24u64) | ((b[o + 4] as u64) << 32u64) | ((b[o + 5] as u64) << 40u64) | ((b[o
        + 6] as u64) << 48u64) | ((b[o + 7] as u64) << 56u64)
}

/// Reads the little-endian 64-bit value at byte offset `ofs`.
fn read_u64_le(buf: &Vec<u8>, ofs: usize) -> (r: u64)
    requires
        ofs + 8 <= buf@.len(),
    ensures
        r == le_u64_at(buf@, ofs as int),
{
    let len: usize = buf.len();
    proof {
        assert(ofs + 8 <= len);
    }
    (buf[ofs] as u64) | ((buf[ofs + 1] as u64) << 8u64) | ((buf[ofs + 2] as u64) << 16u64) | ((buf[
        ofs + 3] as u64) << 24u64) | ((buf[ofs + 4] as u64) << 32u64) | ((buf[ofs + 5] as u64)
        << 40u64) | ((buf[ofs + 6] as u64) << 48u64) | ((buf[ofs + 7] as u64) << 56u64)
}

/// Writes `v` little-endian into the eight bytes at `ofs`, touching
/// nothing else.
fn write_u64_le(buf: &mut Vec<u8>, ofs: usize, v: u64)
    requires
        ofs + 8 <= old(buf)@.len(),
    ensures
        final(buf)@.len() == old(buf)@.len(),
        forall|i: int|
            0 <= i < old(buf)@.len() && !(ofs <= i < ofs + 8) ==> final(buf)@[i] == old(buf)@[i],
        le_u64_at(final(buf)@, ofs as int) == v,
{
    let len: usize = buf.len();
    proof {
        assert(ofs + 8 <= len);
        assert(v & 0xff <= 0xff && (v >> 8u64) & 0xff <= 0xff && (v >> 16u64) & 0xff <= 0xff && (v
            >> 24u64) & 0xff <= 0xff && (v >> 32u64) & 0xff <= 0xff && (v >> 40u64) & 0xff <= 0xff
            && (v >> 48u64) & 0xff <= 0xff && (v >> 56u64) & 0xff <= 0xff) by (bit_vector);
    }
    let b0: u8 = (v & 0xff) as u8;
    let b1: u8 = ((v >> 8u64) & 0xff) as u8;
    let b2: u8 = ((v >> 16u64) & 0xff) as u8;
    let b3: u8 = ((v >> 24u64) & 0xff) as u8;
    let b4: u8 = ((v >> 32u64) & 0xff) as u8;
    let b5: u8 = ((v >> 40u64) & 0xff) as u8;
    let b6: u8 = ((v >> 48u64) & 0xff) as u8;
    let b7: u8 = ((v >> 56u64) & 0xff) as u8;
    buf.set(ofs, b0);
    buf.set(ofs + 1, b1);
    buf.set(ofs + 2, b2);
    buf.set(ofs + 3, b3);
    buf.set(ofs + 4, b4);
    buf.set(ofs + 5, b5);
    buf.set(ofs + 6, b6);
    buf.set(ofs + 7, b7);
    proof {
        assert((((v & 0xff) as u8) as u64) | ((((v >> 8u64) & 0xff) as u8) as u64) << 8u64 | ((((v
            >> 16u64) & 0xff) as u8) as u64) << 16u64 | ((((v >> 24u64) & 0xff) as u8) as u64)
            << 24u64 | ((((v >> 32u64) & 0xff) as u8) as u64) << 32u64 | ((((v >> 40u64)
            & 0xff) as u8) as u64) << 40u64 | ((((v >> 48u64) & 0xff) as u8) as u64) << 48u64 | ((((
        v >> 56u64) & 0xff) as u8) as u64) << 56u64 == v) by (bit_vector);
    }
}

/// The descriptor encoded in the 40 bytes at offset `o`.
pub open spec fn spec_parse_descriptor(b: Seq<u8>, o: int) -> EfiMemoryDescriptor {
    EfiMemoryDescriptor {
        memory_type: EfiMemoryType::spec_from_u64(le_u64_at(b, o)),
        physical_start: le_u64_at(b, o + 8),
        virtual_start: le_u64_at(b, o + 16),
        number_of_pages: le_u64_at(b, o + 24),
        attribute: le_u64_at(b, o + 32),
    }
}

/// Decodes the descriptor record stored at byte offset `ofs`.
pub fn parse_descriptor(buf: &Vec<u8>, ofs: usize) -> (r: EfiMemoryDescriptor)
    requires
        ofs + DESCRIPTOR_BYTES <= buf@.len(),
    ensures
        r == spec_parse_descriptor(buf@, ofs as int),
{
    let len: usize = buf.len();
    proof {
        assert(ofs + DESCRIPTOR_BYTES <= len);
    }
    EfiMemoryDescriptor {
        memory_type: EfiMemoryType::from_u64(read_u64_le(buf, ofs)),
        physical_start: read_u64_le(buf, ofs + 8),
        virtual_start: read_u64_le(buf, ofs + 16),
        number_of_pages: read_u64_le(buf, ofs + 24),
        attribute: read_u64_le(buf, ofs + 32),
    }
}

/// Encodes `d` as the 40-byte descriptor record at byte offset `ofs`,
/// touching nothing else; decoding those bytes gives `d` back.
pub fn store_descriptor(buf: &mut Vec<u8>, ofs: usize, d: &EfiMemoryDescriptor)
    requires
        ofs + DESCRIPTOR_BYTES <= old(buf)@.len(),
    ensures
        final(buf)@.len() == old(buf)@.len(),
        forall|i: int|
            0 <= i < old(buf)@.len() && !(ofs <= i < ofs + DESCRIPTOR_BYTES) ==> final(buf)@[i]
                == old(buf)@[i],
        spec_parse_descriptor(final(buf)@, ofs as int) == *d,
{
    let len: usize = buf.len();
    proof {
        assert(ofs + DESCRIPTOR_BYTES <= len);
    }
    write_u64_le(buf, ofs, d.memory_type().to_u64());
    write_u64_le(buf, ofs + 8, d.physical_start());
    write_u64_le(buf, ofs + 16, d.virtual_start());
    write_u64_le(buf, ofs + 24, d.number_of_pages());
    write_u64_le(buf, ofs + 32, d.attribute);
}

/// The fixed-capacity snapshot of the firmware memory map: the raw
/// record bytes, the filled byte length, the map-key fencing token,
/// the record stride firmware declared, and the record format version.
pub struct MemoryMapHolder {
    pub memory_map_buffer: Vec<u8>,
    pub memory_map_size: usize,
    pub map_key: usize,
    pub descriptor_size: usize,
    pub descriptor_version: u32,
}

/// A forward-only enumerator over a snapshot's descriptor records.
pub struct MemoryMapIterator<'a> {
    pub map: &'a MemoryMapHolder,
    pub ofs: usize,
}

impl MemoryMapHolder {
    /// The snapshot buffer is at full capacity and the declared length
    /// lies within it.
    pub open spec fn wf(&self) -> bool {
        &&& self.memory_map_buffer@.len() == MEMORY_MAP_BUFFER_SIZE
        &&& self.memory_map_size <= MEMORY_MAP_BUFFER_SIZE
    }

    /// An empty snapshot whose declared size is the whole capacity, as
    /// the firmware capture call expects on input.
    pub fn new() -> (r: MemoryMapHolder)
        ensures
            r.wf(),
            r.memory_map_size == MEMORY_MAP_BUFFER_SIZE,
            r.map_key == 0,
            r.descriptor_size == 0,
            r.descriptor_version == 0,
            forall|i: int| 0 <= i < r.memory_map_buffer@.len() ==> r.memory_map_buffer@[i] == 0u8,
    {
        let mut buffer: Vec<u8> = Vec::new();
        while buffer.len() < MEMORY_MAP_BUFFER_SIZE
            invariant
                buffer@.len() <= MEMORY_MAP_BUFFER_SIZE,
                forall|i: int| 0 <= i < buffer@.len() ==> buffer@[i] == 0u8,
            decreases MEMORY_MAP_BUFFER_SIZE - buffer@.len(),
        {
            buffer.push(0u8);
        }
        MemoryMapHolder {
            memory_map_buffer: buffer,
            memory_map_size: MEMORY_MAP_BUFFER_SIZE,
            map_key: 0,
            descriptor_size: 0,
            descriptor_version: 0,
        }
    }

    /// A fresh enumerator positioned at the first record.
    pub fn iter(&self) -> (r: MemoryMapIterator)
        ensures
            r.map == self,
            r.ofs == 0,
    {
        MemoryMapIterator { map: self, ofs: 0 }
    }
}

impl<'a> MemoryMapIterator<'a> {
    /// The next descriptor record, stepping by the firmware-declared
    /// stride; the sequence ends when the cumulative offset reaches the
    /// snapshot's declared byte length (or would run past the buffer).
    pub fn next(&mut self) -> (r: Option<EfiMemoryDescriptor>)
        ensures
            final(self).map == old(self).map,
            old(self).ofs >= old(self).map.memory_map_size || old(self).ofs + DESCRIPTOR_BYTES
                > old(self).map.memory_map_buffer@.len() ==> r == None::<EfiMemoryDescriptor>
                && final(self).ofs == old(self).ofs,
            old(self).ofs < old(self).map.memory_map_size && old(self).ofs + DESCRIPTOR_BYTES <= old(
                self,
            ).map.memory_map_buffer@.len() ==> {
                &&& r == Some(
                    spec_parse_descriptor(
                        old(self).map.memory_map_buffer@,
                        old(self).ofs as int,
                    ),
                )
                &&& final(self).ofs as int == if old(self).ofs + old(self).map.descriptor_size
                    <= usize::MAX {
                    old(self).ofs + old(self).map.descriptor_size
                } else {
                    usize::MAX as int
                }
            },
    {
        let len = self.map.memory_map_buffer.len();
        if self.ofs >= self.map.memory_map_size || len < DESCRIPTOR_BYTES || self.ofs > len
            - DESCRIPTOR_BYTES {
            None
        } else {
            let e = parse_descriptor(&self.map.memory_map_buffer, self.ofs);
            let stride = self.map.descriptor_size;
            self.ofs = if self.ofs <= usize::MAX - stride {
                self.ofs + stride
            } else {
                usize::MAX
            };
            Some(e)
        }
    }
}

} // verus!
