use vstd::prelude::*;
use kvm_bindings::kvm_userspace_memory_region;
use crate::error::VmmError;
use crate::region::{can_add_all, descriptor_of, region_descriptors, SlotTable};
use crate::space::{check_layout, layout_ok, spans, GuestAddressSpace};

verus! {

/// Guest memory ready to be installed: the address space and the region
/// descriptors for it, in slot order.
pub struct GuestMemorySetup {
    pub space: GuestAddressSpace,
    pub regions: Vec<kvm_userspace_memory_region>,
}

/// The slots `first_slot ..` for `n` ranges run past the largest slot
/// number.
pub open spec fn slots_overflow(first_slot: u32, n: nat) -> bool {
    first_slot + n > u32::MAX + 1
}

/// Validates the layout `ranges`, maps host memory for it, builds one
/// region descriptor per range, the `i`-th under slot `first_slot + i`, and
/// records them all in `slots`. Stops at the first failure: an invalid
/// layout, or memory the host cannot give, is an `AllocationError`; slots
/// past the largest slot number, or a slot or range already in `slots`, are
/// a `RegistrationError`. Nothing is mapped when the layout is refused, and
/// on any failure `slots` is left as it was.
pub fn setup_memory(ranges: &Vec<(u64, u64)>, first_slot: u32, slots: &mut SlotTable) -> (r: Result<GuestMemorySetup, VmmError>)
    ensures
        r is Err ==> final(slots)@ == old(slots)@,
        r matches Ok(p) ==> can_add_all(old(slots)@, p.regions@) && final(slots)@ == old(slots)@ + p.regions@,
        !layout_ok(ranges@) ==> r == Err::<GuestMemorySetup, VmmError>(VmmError::AllocationError),
        layout_ok(ranges@) && slots_overflow(first_slot, ranges@.len())
            ==> r == Err::<GuestMemorySetup, VmmError>(VmmError::RegistrationError),
        r matches Err(e) ==> e == VmmError::AllocationError || e == VmmError::RegistrationError,
        r matches Ok(p) ==> {
            &&& p.space.wf()
            &&& spans(p.space@) == ranges@
            &&& p.regions@.len() == ranges@.len()
            &&& forall|i: int| 0 <= i < p.regions@.len() ==> #[trigger] p.regions@[i] == descriptor_of(p.space@[i], (first_slot + i) as u32)
        },
{
    check_layout(ranges)?;
    if ranges.len() as u64 > u32::MAX as u64 + 1 - first_slot as u64 {
        return Err(VmmError::RegistrationError);
    }
    let space = GuestAddressSpace::create(ranges)?;
    let regions = region_descriptors(&space, first_slot)?;
    slots.register_all(&regions)?;
    Ok(GuestMemorySetup { space, regions })
}

} // verus!
