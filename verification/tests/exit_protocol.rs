//! Behaviour of the boot-services exit handshake against simulated
//! firmware.

use wasabi_demo::efi::EfiStatus;
use wasabi_demo::efi::memory::{EfiMemoryDescriptor, EfiMemoryType, MemoryMapHolder};
use wasabi_demo::efi::table::{BootServicesSim, BootServicesState, exit_from_efi_boot_services};

fn sample_map() -> Vec<EfiMemoryDescriptor> {
    vec![
        EfiMemoryDescriptor::new(EfiMemoryType::LOADER_CODE, 0x1000, 0, 1, 0),
        EfiMemoryDescriptor::new(EfiMemoryType::CONVENTIONAL_MEMORY, 0x2000, 0, 64, 0xf),
    ]
}

#[test]
fn status_words_classify_zero_as_success() {
    assert_eq!(EfiStatus::from_u64(0), EfiStatus::Success);
    assert_eq!(EfiStatus::from_u64(2), EfiStatus::Other(2));
    assert_eq!(EfiStatus::Success.as_u64(), 0);
    assert_eq!(EfiStatus::Other(5).as_u64(), 5);
}

#[test]
fn capture_fills_the_snapshot_with_the_current_key() {
    let mut sim = BootServicesSim::new(sample_map(), 48, 0);
    let mut map = MemoryMapHolder::new();
    assert_eq!(sim.get_memory_map(&mut map), EfiStatus::Success);
    assert_eq!(map.map_key, sim.map_key);
    assert_eq!(map.descriptor_size, 48);
    assert_eq!(map.memory_map_size, 2 * 48);
    let mut it = map.iter();
    assert_eq!(it.next(), Some(sample_map()[0]));
    assert_eq!(it.next(), Some(sample_map()[1]));
    assert_eq!(it.next(), None);
    assert_eq!(sim.captures, 1);
}

#[test]
fn a_stale_key_is_rejected_without_exiting() {
    let mut sim = BootServicesSim::new(sample_map(), 48, 0);
    let mut map = MemoryMapHolder::new();
    assert_eq!(sim.get_memory_map(&mut map), EfiStatus::Success);
    let stale = map.map_key + 1;
    let status = sim.exit_boot_services(0, stale);
    assert_ne!(status, EfiStatus::Success);
    assert_eq!(sim.state, BootServicesState::Active);
    // The current key still works afterwards.
    let status = sim.exit_boot_services(0, map.map_key);
    assert_eq!(status, EfiStatus::Success);
    assert_eq!(sim.state, BootServicesState::Exited);
}

#[test]
fn quiet_firmware_exits_on_the_first_attempt() {
    let mut sim = BootServicesSim::new(sample_map(), 48, 0);
    let mut map = MemoryMapHolder::new();
    exit_from_efi_boot_services(7, &mut sim, &mut map);
    assert_eq!(sim.state, BootServicesState::Exited);
    assert_eq!(sim.attempts, 1);
    assert_eq!(sim.captures, 1);
}

#[test]
fn handshake_recaptures_and_succeeds_on_the_second_attempt() {
    // Firmware rejects the first map key and accepts the second.
    let mut sim = BootServicesSim::new(sample_map(), 48, 1);
    let mut map = MemoryMapHolder::new();
    exit_from_efi_boot_services(7, &mut sim, &mut map);
    assert_eq!(sim.state, BootServicesState::Exited);
    assert_eq!(sim.rejects_left, 0);
    // Exactly two attempts, and a fresh snapshot captured before each:
    // the protocol re-captured between the attempts rather than
    // retrying the stale key or escalating.
    assert_eq!(sim.attempts, 2);
    assert_eq!(sim.captures, 2);
    // The snapshot in hand is the one whose key firmware accepted.
    assert_eq!(map.map_key, sim.map_key);
    let mut it = map.iter();
    assert_eq!(it.next(), Some(sample_map()[0]));
    assert_eq!(it.next(), Some(sample_map()[1]));
    assert_eq!(it.next(), None);
}

#[test]
fn handshake_outlasts_many_rejections() {
    let mut sim = BootServicesSim::new(sample_map(), 48, 25);
    let mut map = MemoryMapHolder::new();
    exit_from_efi_boot_services(7, &mut sim, &mut map);
    assert_eq!(sim.state, BootServicesState::Exited);
    assert_eq!(sim.attempts, 26);
    assert_eq!(sim.captures, 26);
    assert_eq!(map.map_key, sim.map_key);
}
