use vstd::prelude::*;
use vm_memory::mmap::FromRangesError;
use vm_memory::{
    GuestAddress, GuestMemoryBackend, GuestMemoryError, GuestMemoryMmap,
    GuestRegionCollection, GuestRegionMmap,
};

verus! {

/// A set of guest memory regions (vm-memory); `GuestMemoryMmap` is this
/// collection over mmap-backed regions.
#[verifier::external_type_specification]
#[verifier::external_body]
#[verifier::reject_recursive_types(R)]
pub struct ExGuestRegionCollection<R>(GuestRegionCollection<R>);

/// One mmap-backed guest memory region (vm-memory).
#[verifier::external_type_specification]
#[verifier::external_body]
#[verifier::reject_recursive_types(B)]
pub struct ExGuestRegionMmap<B>(GuestRegionMmap<B>);

/// Why vm-memory could not map a set of ranges.
#[verifier::external_type_specification]
#[verifier::external_body]
pub struct ExFromRangesError(FromRangesError);

/// A failed guest memory access (vm-memory).
#[verifier::external_type_specification]
#[verifier::external_body]
pub struct ExGuestMemoryError(GuestMemoryError);

/// Why linux-loader could not load a kernel image.
#[verifier::external_type_specification]
#[verifier::external_body]
pub struct ExLoaderError(linux_loader::loader::Error);

/// Relies on `GuestMemoryMmap::from_ranges`: maps anonymous host memory for
/// each `(guest address, length)` range. Where the memory lands, and whether
/// the host has it to give, is the host's affair, so nothing is promised.
#[verifier::external_body]
pub(crate) fn map_guest_memory(ranges: &Vec<(u64, u64)>) -> (r: Result<GuestMemoryMmap, FromRangesError>) {
    let rs: Vec<(GuestAddress, usize)> = ranges.iter().map(|&(g, l)| (GuestAddress(g), l as usize)).collect();
    GuestMemoryMmap::from_ranges(&rs)
}

/// Relies on `GuestMemoryBackend::get_host_address`: the host address that
/// backs guest address `gpa`; its value depends on where the host mapped the
/// memory.
#[verifier::external_body]
pub(crate) fn host_address(mem: &GuestMemoryMmap, gpa: u64) -> (r: Result<u64, GuestMemoryError>) {
    mem.get_host_address(GuestAddress(gpa)).map(|p| p as u64)
}

} // verus!
