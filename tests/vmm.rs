use kvm_bindings::{kvm_regs, kvm_userspace_memory_region};
use minivmm::dispatch::{unclaimed_read, Action, DeviceMap, ExitDispatcher, ExitKind, ExitReason, Outcome, RunState};
use minivmm::error::VmmError;
use minivmm::loader::{check_image, covers, finish_load, load_kernel, read_le_u64};
use minivmm::region::{region_descriptors, SlotTable};
use minivmm::space::{backed_ranges, check_layout, sorted_layout, GuestAddressSpace};
use minivmm::vcpu::{check_readback, initial_regs, GuestEntryPoint, RFLAGS_RESERVED};
use minivmm::vmm::setup_memory;
use vm_memory::{Bytes, GuestAddress, GuestMemoryBackend};

const HOST_A: u64 = 0x7f00_0000_0000;
const HOST_B: u64 = 0x7f00_1000_0000;

fn two_range_space() -> GuestAddressSpace {
    GuestAddressSpace::create(&vec![(0, 0x1000), (0x10000, 0x1000)]).unwrap()
}

fn space_of(len: u64) -> GuestAddressSpace {
    GuestAddressSpace::create(&vec![(0, len)]).unwrap()
}

/// An ELF64 little-endian header with no program headers, padded to `len`
/// bytes, whose entry field holds `entry`.
fn minimal_image(len: usize, entry: u64) -> Vec<u8> {
    let mut img = vec![0u8; len];
    img[0] = 0x7f;
    img[1] = b'E';
    img[2] = b'L';
    img[3] = b'F';
    img[4] = 2;
    img[5] = 1;
    img[24..32].copy_from_slice(&entry.to_le_bytes());
    img[32..40].copy_from_slice(&64u64.to_le_bytes());
    img[54..56].copy_from_slice(&56u16.to_le_bytes());
    img
}

/// An ELF64 image with one loadable segment: a single halt instruction at
/// guest address 0, which is also the entry point.
fn halt_image() -> Vec<u8> {
    let mut img = minimal_image(121, 0);
    img[56..58].copy_from_slice(&1u16.to_le_bytes());
    let ph = 64;
    img[ph..ph + 4].copy_from_slice(&1u32.to_le_bytes());
    img[ph + 8..ph + 16].copy_from_slice(&120u64.to_le_bytes());
    img[ph + 24..ph + 32].copy_from_slice(&0u64.to_le_bytes());
    img[ph + 32..ph + 40].copy_from_slice(&1u64.to_le_bytes());
    img[ph + 40..ph + 48].copy_from_slice(&1u64.to_le_bytes());
    img[120] = 0xf4;
    img
}

fn region(slot: u32, gpa: u64, size: u64) -> kvm_userspace_memory_region {
    kvm_userspace_memory_region { slot, flags: 0, guest_phys_addr: gpa, memory_size: size, userspace_addr: HOST_A + gpa }
}

#[test]
fn translate_inside_ranges() {
    let s = two_range_space();
    let a = s.range(0).host_addr;
    let b = s.range(1).host_addr;
    assert_eq!(s.translate(0), Ok(a));
    assert_eq!(s.translate(0x10), Ok(a + 0x10));
    assert_eq!(s.translate(0xfff), Ok(a + 0xfff));
    assert_eq!(s.translate(0x10800), Ok(b + 0x800));
    assert_eq!(s.memory().get_host_address(GuestAddress(0x10800)).unwrap() as u64, b + 0x800);
}

#[test]
fn translate_outside_ranges() {
    let s = two_range_space();
    assert_eq!(s.translate(0x1000), Err(VmmError::OutOfRange));
    assert_eq!(s.translate(0xffff), Err(VmmError::OutOfRange));
    assert_eq!(s.translate(0x11000), Err(VmmError::OutOfRange));
    assert_eq!(s.translate(u64::MAX), Err(VmmError::OutOfRange));
}

#[test]
fn create_rejects_zero_length() {
    assert_eq!(check_layout(&vec![(0, 0)]), Err(VmmError::AllocationError));
    assert!(matches!(GuestAddressSpace::create(&vec![(0, 0x1000), (0x2000, 0)]), Err(VmmError::AllocationError)));
}

#[test]
fn create_rejects_overlap_and_bad_backing() {
    assert_eq!(check_layout(&vec![(0, 0x2000), (0x1000, 0x1000)]), Err(VmmError::AllocationError));
    assert_eq!(check_layout(&vec![(u64::MAX - 1, 2)]), Err(VmmError::AllocationError));
    assert_eq!(check_layout(&vec![(0, 0x1000), (0x1000, 0x1000)]), Ok(()));
    assert!(matches!(GuestAddressSpace::create(&vec![(0, 0x2000), (0x1000, 0x10)]), Err(VmmError::AllocationError)));
    assert_eq!(backed_ranges(&vec![(0, 0x1000)], &vec![]), Err(VmmError::AllocationError));
    assert_eq!(backed_ranges(&vec![(0, 0x1000)], &vec![u64::MAX]), Err(VmmError::AllocationError));
    assert_eq!(backed_ranges(&vec![(0, 0)], &vec![HOST_A]), Err(VmmError::AllocationError));
}

#[test]
fn descending_layout_is_accepted_in_order() {
    assert_eq!(check_layout(&vec![(0x2000, 0x1000), (0, 0x1000)]), Ok(()));
    let s = GuestAddressSpace::create(&vec![(0x2000, 0x1000), (0, 0x1000)]).unwrap();
    assert_eq!(s.range(0).guest_addr, 0x2000);
    assert_eq!(s.range(1).guest_addr, 0);
    assert_eq!(s.translate(0x2010), Ok(s.range(0).host_addr + 0x10));
    assert_eq!(s.translate(0x10), Ok(s.range(1).host_addr + 0x10));
    assert_eq!(s.translate(0x1000), Err(VmmError::OutOfRange));
}

#[test]
fn sorted_layout_orders_by_address() {
    let v = sorted_layout(&vec![(0x5000, 1), (0, 2), (0x2000, 3)]);
    assert_eq!(v, vec![(0, 2), (0x2000, 3), (0x5000, 1)]);
    assert_eq!(sorted_layout(&vec![]), vec![]);
}

#[test]
fn no_hint_picks_a_range_that_holds_the_image() {
    let s = GuestAddressSpace::create(&vec![(0, 16), (0x1000, 0x1000)]).unwrap();
    let e = check_image(&s, &minimal_image(64, 0), None).unwrap();
    assert_eq!(e.instruction_address, 0x1000);
    assert_eq!(load_kernel(&s, &minimal_image(64, 8), None).unwrap().instruction_address, 0x1008);
    assert_eq!(check_image(&s, &minimal_image(64, 0x2000), None), Err(VmmError::RelocationError));
}

#[test]
fn overlapping_host_allocations_are_refused() {
    let r = backed_ranges(&vec![(0, 0x1000), (0x10000, 0x1000)], &vec![HOST_A, HOST_A + 0x800]);
    assert_eq!(r, Err(VmmError::AllocationError));
    let r = backed_ranges(&vec![(0, 0x1000), (0x10000, 0x1000)], &vec![HOST_A + 0x1000, HOST_A]);
    assert!(r.is_ok());
}

#[test]
fn backed_ranges_pair_layout_and_hosts() {
    let v = backed_ranges(&vec![(0, 0x1000), (0x10000, 0x1000)], &vec![HOST_A, HOST_B]).unwrap();
    assert_eq!(v.len(), 2);
    assert_eq!(v[0].guest_addr, 0);
    assert_eq!(v[0].host_addr, HOST_A);
    assert_eq!(v[1].guest_addr, 0x10000);
    assert_eq!(v[1].len, 0x1000);
    assert_eq!(v[1].host_addr, HOST_B);
}

#[test]
fn create_keeps_ranges_in_order() {
    let s = two_range_space();
    assert_eq!(s.num_ranges(), 2);
    assert_eq!(s.range(1).guest_addr, 0x10000);
    assert_eq!(s.range(1).len, 0x1000);
    assert_ne!(s.range(1).host_addr, 0);
}

#[test]
fn same_slot_twice_is_refused() {
    let mut t = SlotTable::new();
    assert_eq!(t.register(region(0, 0, 0x1000)), Ok(()));
    assert_eq!(t.register(region(0, 0x10000, 0x1000)), Err(VmmError::RegistrationError));
    assert_eq!(t.len(), 1);
}

#[test]
fn disjoint_slots_are_accepted() {
    let mut t = SlotTable::new();
    assert_eq!(t.register(region(0, 0, 0x1000)), Ok(()));
    assert_eq!(t.register(region(1, 0x10000, 0x1000)), Ok(()));
    assert_eq!(t.len(), 2);
    assert_eq!(t.get(1).slot, 1);
    assert_eq!(t.register(region(2, 0x800, 0x1000)), Err(VmmError::RegistrationError));
}

#[test]
fn register_all_is_all_or_nothing() {
    let mut t = SlotTable::new();
    assert_eq!(t.register(region(5, 0x20000, 0x1000)), Ok(()));
    let ds = vec![region(0, 0, 0x1000), region(5, 0x10000, 0x1000)];
    assert_eq!(t.register_all(&ds), Err(VmmError::RegistrationError));
    assert_eq!(t.len(), 1);
    let ds = vec![region(0, 0, 0x1000), region(1, 0x10000, 0x1000)];
    assert_eq!(t.register_all(&ds), Ok(()));
    assert_eq!(t.len(), 3);
}

#[test]
fn descriptors_follow_the_space() {
    let s = two_range_space();
    let (a, b) = (s.range(0).host_addr, s.range(1).host_addr);
    let ds = region_descriptors(&s, 3).unwrap();
    assert_eq!(ds.len(), 2);
    assert_eq!(ds[0], kvm_userspace_memory_region { slot: 3, flags: 0, guest_phys_addr: 0, memory_size: 0x1000, userspace_addr: a });
    assert_eq!(ds[1], kvm_userspace_memory_region { slot: 4, flags: 0, guest_phys_addr: 0x10000, memory_size: 0x1000, userspace_addr: b });
    assert!(matches!(region_descriptors(&s, u32::MAX), Err(VmmError::RegistrationError)));
}

#[test]
fn minimal_image_loads_in_range() {
    let s = space_of(0x10000);
    let img = minimal_image(64, 0x10);
    let e = check_image(&s, &img, None).unwrap();
    assert_eq!(e, GuestEntryPoint { instruction_address: 0x10, boot_params: None });
    let e = check_image(&s, &img, Some(0x8000)).unwrap();
    assert_eq!(e.instruction_address, 0x8010);
}

#[test]
fn image_larger_than_space_is_refused() {
    let s = space_of(0x20);
    assert_eq!(check_image(&s, &minimal_image(64, 0), None), Err(VmmError::ImageTooLarge));
}

#[test]
fn image_spanning_adjacent_ranges_loads() {
    let s = GuestAddressSpace::create(&vec![(0, 0x1000), (0x1000, 0x1000)]).unwrap();
    assert_eq!(check_image(&s, &minimal_image(0x1800, 0), Some(0)).unwrap().instruction_address, 0);
    assert_eq!(load_kernel(&s, &minimal_image(0x1800, 0x1400), Some(0)).unwrap().instruction_address, 0x1400);
    let gap = GuestAddressSpace::create(&vec![(0, 0x1000), (0x2000, 0x1000)]).unwrap();
    assert_eq!(check_image(&gap, &minimal_image(0x1800, 0), Some(0)), Err(VmmError::RelocationError));
    assert!(covers(&s, 0x800, 0x1000));
    assert!(!covers(&gap, 0x800, 0x1000));
    assert!(covers(&gap, 0x2000, 0x1000));
    assert!(!covers(&gap, 0x2000, 0x1001));
    assert_eq!(check_image(&s, &minimal_image(0x2001, 0), Some(0)), Err(VmmError::ImageTooLarge));
    assert_eq!(check_image(&s, &minimal_image(0x800, 0), Some(0x1000)).unwrap().instruction_address, 0x1000);
}

#[test]
fn finish_load_maps_a_failed_copy() {
    let e = GuestEntryPoint { instruction_address: 0x40, boot_params: None };
    assert_eq!(finish_load(Ok(e), true), Ok(e));
    assert_eq!(finish_load(Ok(e), false), Err(VmmError::RelocationError));
    assert_eq!(finish_load(Err(VmmError::ImageTooLarge), true), Err(VmmError::ImageTooLarge));
}

#[test]
fn readback_must_match_what_was_written() {
    let mut a = kvm_regs::default();
    a.rip = 0x1000;
    let mut b = a;
    assert_eq!(check_readback(&a, &b), Ok(()));
    b.r15 = 1;
    assert_eq!(check_readback(&a, &b), Err(VmmError::RegisterWriteError));
}

#[test]
fn image_without_magic_is_refused() {
    let s = space_of(0x10000);
    let mut img = minimal_image(64, 0);
    img[1] = b'X';
    assert_eq!(check_image(&s, &img, None), Err(VmmError::UnsupportedFormat));
    assert_eq!(check_image(&s, &vec![0xf4], None), Err(VmmError::UnsupportedFormat));
    let mut img = minimal_image(64, 0);
    img[4] = 1;
    assert_eq!(check_image(&s, &img, None), Err(VmmError::UnsupportedFormat));
}

#[test]
fn image_that_cannot_be_placed_is_refused() {
    let s = space_of(0x1000);
    assert_eq!(check_image(&s, &minimal_image(64, 0), Some(0xff0)), Err(VmmError::RelocationError));
    assert_eq!(check_image(&s, &minimal_image(64, 0x2000), None), Err(VmmError::RelocationError));
    let e = check_image(&s, &minimal_image(64, 0), None).unwrap();
    assert_eq!(e.boot_params, None);
}

#[test]
fn entry_field_is_little_endian() {
    let b = vec![0x88, 0x77, 0x66, 0x55, 0x44, 0x33, 0x22, 0x11, 0xaa];
    assert_eq!(read_le_u64(&b, 0), 0x1122_3344_5566_7788);
    assert_eq!(read_le_u64(&b, 1), 0xaa11_2233_4455_6677);
}

#[test]
fn vcpu_starts_at_entry_point() {
    let mut regs = kvm_regs::default();
    regs.rax = 7;
    regs.rsi = 9;
    regs.rflags = 0x246;
    let e = GuestEntryPoint { instruction_address: 0x1234, boot_params: Some(0x7000) };
    let r = initial_regs(&regs, &e);
    assert_eq!(r.rip, 0x1234);
    assert_eq!(r.rflags, RFLAGS_RESERVED);
    assert_eq!(r.rflags, 2);
    assert_eq!(r.rsi, 0x7000);
    assert_eq!(r.rax, 7);
    let r = initial_regs(&regs, &GuestEntryPoint { instruction_address: 0x99, boot_params: None });
    assert_eq!(r.rip, 0x99);
    assert_eq!(r.rsi, 9);
}

#[test]
fn scripted_exits_stop_at_halt() {
    let exits = vec![
        ExitReason::MmioRead { addr: 0xd000_0000, len: 4 },
        ExitReason::PortOut { port: 0x3f8, data: vec![b'a'] },
        ExitReason::Halt,
        ExitReason::MmioRead { addr: 0xd000_0000, len: 4 },
    ];
    let mut d = ExitDispatcher::new();
    assert_eq!(d.run(&exits), 3);
    assert_eq!(d.count(ExitKind::MmioRead), 1);
    assert_eq!(d.count(ExitKind::PortOut), 1);
    assert_eq!(d.count(ExitKind::Halt), 1);
    assert_eq!(d.handled(), &vec![ExitKind::MmioRead, ExitKind::PortOut, ExitKind::Halt]);
    assert_eq!(d.state(), RunState::Terminated(Outcome::Halted));
}

#[test]
fn halt_at_first_instruction_ends_cleanly() {
    let mut slots = SlotTable::new();
    let setup = setup_memory(&vec![(0, 0x10000)], 0, &mut slots).unwrap();
    assert_eq!(slots.len(), 1);
    assert_eq!(setup.regions.len(), 1);
    assert_eq!(setup.regions[0].memory_size, 0x10000);
    let entry = load_kernel(&setup.space, &halt_image(), Some(0)).unwrap();
    assert_eq!(entry.instruction_address, 0);
    let hlt: u8 = setup.space.memory().read_obj(GuestAddress(0)).unwrap();
    assert_eq!(hlt, 0xf4);
    let mut d = ExitDispatcher::new();
    assert_eq!(d.run(&vec![ExitReason::Halt]), 1);
    assert_eq!(d.handled(), &vec![ExitKind::Halt]);
    match d.state() {
        RunState::Terminated(o) => assert_eq!(o.exit_code(), 0),
        RunState::Running => panic!("still running"),
    }
}

#[test]
fn zero_length_range_fails_setup() {
    let mut slots = SlotTable::new();
    let r = setup_memory(&vec![(0, 0)], 0, &mut slots);
    assert!(matches!(r, Err(VmmError::AllocationError)));
    assert_eq!(slots.len(), 0);
    assert_eq!(VmmError::AllocationError.exit_code(), 1);
    let r = setup_memory(&vec![(0, 0x1000)], 0, &mut slots);
    assert!(matches!(r, Ok(_)));
    assert_eq!(slots.len(), 1);
}

#[test]
fn setup_refuses_slots_past_the_last() {
    let mut slots = SlotTable::new();
    assert!(matches!(setup_memory(&vec![(0, 0x1000)], u32::MAX, &mut slots), Ok(_)));
    let mut slots = SlotTable::new();
    let r = setup_memory(&vec![(0, 0x1000), (0x2000, 0x1000)], u32::MAX, &mut slots);
    assert!(matches!(r, Err(VmmError::RegistrationError)));
    assert_eq!(slots.len(), 0);
}

#[test]
fn setup_twice_on_the_same_slots_fails() {
    let mut slots = SlotTable::new();
    assert!(matches!(setup_memory(&vec![(0, 0x1000)], 0, &mut slots), Ok(_)));
    let r = setup_memory(&vec![(0x10000, 0x1000)], 0, &mut slots);
    assert!(matches!(r, Err(VmmError::RegistrationError)));
    assert_eq!(slots.len(), 1);
    assert!(matches!(setup_memory(&vec![(0x10000, 0x1000)], 1, &mut slots), Ok(_)));
    assert_eq!(slots.len(), 2);
}

#[test]
fn load_kernel_reports_errors() {
    let s = space_of(0x20);
    assert_eq!(load_kernel(&s, &minimal_image(64, 0), None), Err(VmmError::ImageTooLarge));
    let s = space_of(0x1000);
    assert_eq!(load_kernel(&s, &vec![0xf4], None), Err(VmmError::UnsupportedFormat));
    let mut bad_phentsize = minimal_image(64, 0);
    bad_phentsize[54] = 0;
    assert_eq!(load_kernel(&s, &bad_phentsize, None), Err(VmmError::RelocationError));
    assert_eq!(load_kernel(&s, &minimal_image(64, 8), Some(0x100)).unwrap().instruction_address, 0x108);
}

#[test]
fn internal_error_is_fatal() {
    let mut d = ExitDispatcher::new();
    assert_eq!(d.run(&vec![ExitReason::Unhandled, ExitReason::InternalError, ExitReason::Halt]), 2);
    assert_eq!(d.state(), RunState::Terminated(Outcome::Failed(VmmError::VcpuRunError)));
    assert_eq!(Outcome::Failed(VmmError::VcpuRunError).exit_code(), 4);
}

#[test]
fn shutdown_ends_cleanly() {
    let mut d = ExitDispatcher::new();
    assert_eq!(d.run(&vec![ExitReason::Shutdown]), 1);
    assert_eq!(d.state(), RunState::Terminated(Outcome::ShutDown));
    assert_eq!(Outcome::ShutDown.exit_code(), 0);
}

#[test]
fn unclaimed_reads_are_all_ones() {
    assert_eq!(unclaimed_read(3), vec![0xff, 0xff, 0xff]);
    let mut d = ExitDispatcher::new();
    match d.dispatch(&ExitReason::PortIn { port: 0x60, len: 2 }) {
        Action::Resume { fill } => assert_eq!(fill, vec![0xff, 0xff]),
        Action::Stop(_) => panic!("port read stopped the run"),
        Action::Device { .. } => panic!("no device was attached"),
    }
    match d.dispatch(&ExitReason::MmioWrite { addr: 0x1000, data: vec![1, 2] }) {
        Action::Resume { fill } => assert!(fill.is_empty()),
        Action::Stop(_) => panic!("mmio write stopped the run"),
        Action::Device { .. } => panic!("no device was attached"),
    }
    assert_eq!(d.state(), RunState::Running);
    assert_eq!(d.count(ExitKind::PortIn), 1);
}

#[test]
fn run_without_terminal_exit_keeps_running() {
    let mut d = ExitDispatcher::new();
    assert_eq!(d.run(&vec![ExitReason::Unhandled, ExitReason::PortIn { port: 1, len: 1 }]), 2);
    assert_eq!(d.state(), RunState::Running);
    assert_eq!(d.run(&vec![]), 0);
}

#[test]
fn error_categories_have_distinct_codes() {
    assert_eq!(VmmError::RegistrationError.exit_code(), 1);
    assert_eq!(VmmError::OutOfRange.exit_code(), 1);
    assert_eq!(VmmError::UnsupportedFormat.exit_code(), 2);
    assert_eq!(VmmError::RelocationError.exit_code(), 2);
    assert_eq!(VmmError::VcpuCreationError.exit_code(), 3);
    assert_eq!(VmmError::RegisterWriteError.exit_code(), 3);
    assert_eq!(VmmError::VcpuRunError.exit_code(), 4);
}

#[test]
fn claimed_accesses_go_to_devices() {
    let devices = DeviceMap { mmio: vec![(0xd000_0000, 0x1000)], ports: vec![(0x3f8, 0x3ff)] };
    let mut d = ExitDispatcher::with_devices(devices);
    let exits = vec![
        ExitReason::MmioRead { addr: 0xd000_0010, len: 4 },
        ExitReason::PortOut { port: 0x3f8, data: vec![b'a'] },
        ExitReason::Halt,
        ExitReason::PortOut { port: 0x3f8, data: vec![b'b'] },
    ];
    assert_eq!(d.run(&exits), 3);
    assert_eq!(d.forwarded(), &vec![(ExitKind::MmioRead, 0xd000_0010), (ExitKind::PortOut, 0x3f8)]);
    assert_eq!(d.state(), RunState::Terminated(Outcome::Halted));
}

#[test]
fn unclaimed_access_falls_back() {
    let devices = DeviceMap { mmio: vec![(0xd000_0000, 0x1000)], ports: vec![(0x3f8, 0x3ff)] };
    let mut d = ExitDispatcher::with_devices(devices);
    match d.dispatch(&ExitReason::MmioRead { addr: 0xd000_1000, len: 2 }) {
        Action::Resume { fill } => assert_eq!(fill, vec![0xff, 0xff]),
        _ => panic!("unclaimed read was not filled"),
    }
    match d.dispatch(&ExitReason::PortIn { port: 0x3ff, len: 1 }) {
        Action::Device { kind, addr } => {
            assert_eq!(kind, ExitKind::PortIn);
            assert_eq!(addr, 0x3ff);
        }
        _ => panic!("claimed port read was not forwarded"),
    }
    assert_eq!(d.forwarded().len(), 1);
}

#[test]
fn cancel_stops_between_exits() {
    let mut d = ExitDispatcher::new();
    assert_eq!(d.run(&vec![ExitReason::Unhandled]), 1);
    d.cancel();
    assert_eq!(d.state(), RunState::Terminated(Outcome::Cancelled));
    assert_eq!(Outcome::Cancelled.exit_code(), 0);
    let mut h = ExitDispatcher::new();
    assert_eq!(h.run(&vec![ExitReason::Halt]), 1);
    h.cancel();
    assert_eq!(h.state(), RunState::Terminated(Outcome::Halted));
}
