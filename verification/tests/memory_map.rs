//! Behaviour of the memory-map snapshot, the descriptor codec, and the
//! record enumerator.

use wasabi_demo::efi::memory::{
    DESCRIPTOR_BYTES, EfiMemoryDescriptor, EfiMemoryType, MEMORY_MAP_BUFFER_SIZE, MemoryMapHolder,
    parse_descriptor, store_descriptor,
};

#[test]
fn fresh_snapshot_reports_full_capacity() {
    let holder = MemoryMapHolder::new();
    assert_eq!(holder.memory_map_buffer.len(), MEMORY_MAP_BUFFER_SIZE);
    assert_eq!(holder.memory_map_size, MEMORY_MAP_BUFFER_SIZE);
    assert_eq!(holder.map_key, 0);
    assert_eq!(holder.descriptor_size, 0);
    assert_eq!(holder.descriptor_version, 0);
    assert!(holder.memory_map_buffer.iter().all(|&b| b == 0));
}

#[test]
fn descriptor_getters_return_the_fields() {
    let d = EfiMemoryDescriptor::new(EfiMemoryType::LOADER_DATA, 0x1000, 0x2000, 16, 0xf);
    assert_eq!(d.memory_type(), EfiMemoryType::LOADER_DATA);
    assert_eq!(d.physical_start(), 0x1000);
    assert_eq!(d.virtual_start(), 0x2000);
    assert_eq!(d.number_of_pages(), 16);
}

#[test]
fn descriptor_round_trips_through_the_snapshot_bytes() {
    let mut buf = vec![0u8; 256];
    let d = EfiMemoryDescriptor::new(
        EfiMemoryType::CONVENTIONAL_MEMORY,
        0x0123_4567_89ab_cdef,
        0xfedc_ba98_7654_3210,
        42,
        0x8000_0000_0000_000f,
    );
    store_descriptor(&mut buf, 48, &d);
    assert_eq!(parse_descriptor(&buf, 48), d);
    // Bytes outside the 40-byte record are untouched.
    assert!(buf[..48].iter().all(|&b| b == 0));
    assert!(buf[88..].iter().all(|&b| b == 0));
}

#[test]
fn descriptor_fields_are_little_endian_at_fixed_offsets() {
    let mut buf = vec![0u8; 64];
    // physical start lives at offset 8 of the record.
    buf[8] = 0x01;
    buf[9] = 0x02;
    // page count lives at offset 24.
    buf[24] = 0x05;
    // type tag at offset 0.
    buf[0] = 0x07;
    let d = parse_descriptor(&buf, 0);
    assert_eq!(d.physical_start(), 0x0201);
    assert_eq!(d.number_of_pages(), 5);
    assert_eq!(d.memory_type(), EfiMemoryType::CONVENTIONAL_MEMORY);
}

#[test]
fn memory_type_ordinals_round_trip() {
    let tags = [
        EfiMemoryType::RESERVED,
        EfiMemoryType::LOADER_CODE,
        EfiMemoryType::LOADER_DATA,
        EfiMemoryType::BOOT_SERVICES_CODE,
        EfiMemoryType::BOOT_SERVICES_DATA,
        EfiMemoryType::RUNTIME_SERVICES_CODE,
        EfiMemoryType::RUNTIME_SERVICES_DATA,
        EfiMemoryType::CONVENTIONAL_MEMORY,
        EfiMemoryType::UNUSABLE_MEMORY,
        EfiMemoryType::ACPI_RECLAIM_MEMORY,
        EfiMemoryType::ACPI_MEMORY_NVS,
        EfiMemoryType::MEMORY_MAPPED_IO,
        EfiMemoryType::MEMORY_MAPPED_IO_PORT_SPACE,
        EfiMemoryType::PAL_CODE,
        EfiMemoryType::PERSISTENT_MEMORY,
    ];
    for (i, t) in tags.iter().enumerate() {
        assert_eq!(t.to_u64(), i as u64);
        assert_eq!(EfiMemoryType::from_u64(i as u64), *t);
    }
    // Ordinals past the known tags are read back as reserved.
    assert_eq!(EfiMemoryType::from_u64(99), EfiMemoryType::RESERVED);
}

#[test]
fn iterator_yields_three_records_of_stride_48_then_stops() {
    let mut holder = MemoryMapHolder::new();
    let records = [
        EfiMemoryDescriptor::new(EfiMemoryType::LOADER_CODE, 0x1000, 0, 1, 0),
        EfiMemoryDescriptor::new(EfiMemoryType::CONVENTIONAL_MEMORY, 0x2000, 0, 2, 0),
        EfiMemoryDescriptor::new(EfiMemoryType::MEMORY_MAPPED_IO, 0x3000, 0, 3, 0),
    ];
    // 48-byte stride: each record is followed by 8 bytes of padding.
    for (i, r) in records.iter().enumerate() {
        store_descriptor(&mut holder.memory_map_buffer, i * 48, r);
    }
    holder.memory_map_size = 144;
    holder.descriptor_size = 48;
    let mut it = holder.iter();
    assert_eq!(it.next(), Some(records[0]));
    assert_eq!(it.next(), Some(records[1]));
    assert_eq!(it.next(), Some(records[2]));
    assert_eq!(it.next(), None);
    assert_eq!(it.next(), None);
}

#[test]
fn iterator_steps_by_the_declared_stride_not_the_record_size() {
    let mut holder = MemoryMapHolder::new();
    let a = EfiMemoryDescriptor::new(EfiMemoryType::LOADER_DATA, 0xaaaa, 0, 7, 0);
    let b = EfiMemoryDescriptor::new(EfiMemoryType::PAL_CODE, 0xbbbb, 0, 8, 0);
    store_descriptor(&mut holder.memory_map_buffer, 0, &a);
    // A record hidden at the logical record size is skipped over when
    // the stride is larger.
    store_descriptor(&mut holder.memory_map_buffer, DESCRIPTOR_BYTES, &b);
    store_descriptor(&mut holder.memory_map_buffer, 64, &b);
    holder.memory_map_size = 128;
    holder.descriptor_size = 64;
    let mut it = holder.iter();
    assert_eq!(it.next(), Some(a));
    assert_eq!(it.next(), Some(b));
    assert_eq!(it.next(), None);
}

#[test]
fn iterator_is_restartable_with_a_fresh_pass() {
    let mut holder = MemoryMapHolder::new();
    let a = EfiMemoryDescriptor::new(EfiMemoryType::LOADER_CODE, 1, 2, 3, 4);
    store_descriptor(&mut holder.memory_map_buffer, 0, &a);
    holder.memory_map_size = 40;
    holder.descriptor_size = 40;
    let mut first = holder.iter();
    assert_eq!(first.next(), Some(a));
    assert_eq!(first.next(), None);
    let mut second = holder.iter();
    assert_eq!(second.next(), Some(a));
}

#[test]
fn record_at_the_last_fitting_offset_round_trips() {
    let mut holder = MemoryMapHolder::new();
    let last = MEMORY_MAP_BUFFER_SIZE - DESCRIPTOR_BYTES;
    let d = EfiMemoryDescriptor::new(EfiMemoryType::PERSISTENT_MEMORY, u64::MAX, u64::MAX, u64::MAX, u64::MAX);
    store_descriptor(&mut holder.memory_map_buffer, last, &d);
    assert_eq!(parse_descriptor(&holder.memory_map_buffer, last), d);
    // An offset inside the declared length but too close to the end of
    // the buffer ends the enumeration instead of reading past it.
    holder.memory_map_size = MEMORY_MAP_BUFFER_SIZE;
    holder.descriptor_size = last;
    let mut it = holder.iter();
    assert!(it.next().is_some());
    assert_eq!(it.next(), Some(d));
    assert_eq!(it.next(), None);
    // With a stride that lands a record start inside the declared
    // length but without room for a whole record, the enumeration ends
    // rather than reading past the buffer.
    holder.descriptor_size = MEMORY_MAP_BUFFER_SIZE - DESCRIPTOR_BYTES + 8;
    let mut it = holder.iter();
    assert!(it.next().is_some());
    assert_eq!(it.next(), None);
}
