use vstd::prelude::*;
use kvm_bindings::kvm_userspace_memory_region;
use crate::error::VmmError;
use crate::space::{GuestAddressSpace, GuestRange};

verus! {

/// The descriptor the hypervisor takes to map host memory into a guest
/// physical range; all of its fields are plain integers.
#[verifier::external_type_specification]
pub struct ExKvmUserspaceMemoryRegion(kvm_userspace_memory_region);

/// The descriptor that maps range `r` under slot `slot`, with no flags.
pub open spec fn descriptor_of(r: GuestRange, slot: u32) -> kvm_userspace_memory_region {
    kvm_userspace_memory_region {
        slot,
        flags: 0,
        guest_phys_addr: r.guest_addr,
        memory_size: r.len,
        userspace_addr: r.host_addr,
    }
}

/// The guest ranges of two descriptors share no address.
pub open spec fn guest_disjoint(a: kvm_userspace_memory_region, b: kvm_userspace_memory_region) -> bool {
    a.guest_phys_addr + a.memory_size <= b.guest_phys_addr
        || b.guest_phys_addr + b.memory_size <= a.guest_phys_addr
}

/// `d` may join the regions `t`: its slot is free and its guest range
/// overlaps none of theirs.
pub open spec fn can_add(t: Seq<kvm_userspace_memory_region>, d: kvm_userspace_memory_region) -> bool {
    forall|k: int| 0 <= k < t.len() ==> (#[trigger] t[k]).slot != d.slot && guest_disjoint(t[k], d)
}

/// Each descriptor of `ds` may join `t` together with the ones before it.
pub open spec fn can_add_all(t: Seq<kvm_userspace_memory_region>, ds: Seq<kvm_userspace_memory_region>) -> bool
    decreases ds.len(),
{
    if ds.len() == 0 {
        true
    } else {
        can_add_all(t, ds.drop_last()) && can_add(t + ds.drop_last(), ds.last())
    }
}

/// The memory regions installed in one VM, with slots unique and guest
/// ranges disjoint.
pub struct SlotTable {
    regions: Vec<kvm_userspace_memory_region>,
}

/// The descriptors for every range of `s`, the `i`-th under slot
/// `first_slot + i`. Fails with `RegistrationError` when the slots would run
/// past the largest slot number.
pub fn region_descriptors(s: &GuestAddressSpace, first_slot: u32) -> (r: Result<Vec<kvm_userspace_memory_region>, VmmError>)
    ensures
        r is Ok <==> first_slot + s@.len() <= u32::MAX + 1,
        r matches Err(e) ==> e == VmmError::RegistrationError,
        r matches Ok(v) ==> {
            &&& v@.len() == s@.len()
            &&& forall|i: int| 0 <= i < v@.len() ==> #[trigger] v@[i] == descriptor_of(s@[i], (first_slot + i) as u32)
        },
{
    let n = s.num_ranges();
    if n as u64 > u32::MAX as u64 + 1 - first_slot as u64 {
        return Err(VmmError::RegistrationError);
    }
    let mut v: Vec<kvm_userspace_memory_region> = Vec::new();
    let mut i: usize = 0;
    while i < n
        invariant
            n == s@.len(),
            first_slot + n <= u32::MAX + 1,
            0 <= i <= n,
            v@.len() == i,
            forall|k: int| 0 <= k < i ==> #[trigger] v@[k] == descriptor_of(s@[k], (first_slot + k) as u32),
        decreases n - i,
    {
        let r = s.range(i);
        v.push(kvm_userspace_memory_region {
            slot: (first_slot as u64 + i as u64) as u32,
            flags: 0,
            guest_phys_addr: r.guest_addr,
            memory_size: r.len,
            userspace_addr: r.host_addr,
        });
        i = i + 1;
    }
    Ok(v)
}

impl SlotTable {
    /// The installed regions, in the order they were registered.
    pub closed spec fn view(&self) -> Seq<kvm_userspace_memory_region> {
        self.regions@
    }

    /// A table with no region.
    pub fn new() -> (r: SlotTable)
        ensures
            r@ == Seq::<kvm_userspace_memory_region>::empty(),
    {
        SlotTable { regions: Vec::new() }
    }

    /// Number of installed regions.
    pub fn len(&self) -> (r: usize)
        ensures
            r == self@.len(),
    {
        self.regions.len()
    }

    /// The region at `i`.
    pub fn get(&self, i: usize) -> (r: kvm_userspace_memory_region)
        requires
            i < self@.len(),
        ensures
            r == self@[i as int],
    {
        self.regions[i]
    }

    /// Records `d` as installed. Fails with `RegistrationError`, leaving the
    /// table as it was, when its slot is taken or its guest range overlaps
    /// an installed one.
    pub fn register(&mut self, d: kvm_userspace_memory_region) -> (r: Result<(), VmmError>)
        ensures
            r is Ok <==> can_add(old(self)@, d),
            r is Ok ==> final(self)@ == old(self)@.push(d),
            r is Err ==> final(self)@ == old(self)@ && r == Err::<(), VmmError>(VmmError::RegistrationError),
    {
        let n = self.regions.len();
        let mut i: usize = 0;
        while i < n
            invariant
                n == self@.len(),
                0 <= i <= n,
                forall|k: int| 0 <= k < i ==> (#[trigger] self@[k]).slot != d.slot && guest_disjoint(self@[k], d),
            decreases n - i,
        {
            let e = self.regions[i];
            let apart = (e.guest_phys_addr as u128) + (e.memory_size as u128) <= d.guest_phys_addr as u128
                || (d.guest_phys_addr as u128) + (d.memory_size as u128) <= e.guest_phys_addr as u128;
            if e.slot == d.slot || !apart {
                return Err(VmmError::RegistrationError);
            }
            i = i + 1;
        }
        self.regions.push(d);
        Ok(())
    }

    /// Records every descriptor of `ds`, in order, or none of them: on
    /// failure with `RegistrationError` the table is left as it was.
    pub fn register_all(&mut self, ds: &Vec<kvm_userspace_memory_region>) -> (r: Result<(), VmmError>)
        ensures
            r is Ok <==> can_add_all(old(self)@, ds@),
            r is Ok ==> final(self)@ == old(self)@ + ds@,
            r is Err ==> final(self)@ == old(self)@ && r == Err::<(), VmmError>(VmmError::RegistrationError),
    {
        let ghost start = self@;
        let n0 = self.regions.len();
        let n = ds.len();
        let mut i: usize = 0;
        while i < n
            invariant
                n == ds@.len(),
                n0 == start.len(),
                start == old(self)@,
                0 <= i <= n,
                self@ == start + ds@.subrange(0, i as int),
                can_add_all(start, ds@.subrange(0, i as int)),
            decreases n - i,
        {
            let d = ds[i];
            proof {
                assert(ds@.subrange(0, i + 1).drop_last() =~= ds@.subrange(0, i as int));
                assert(ds@.subrange(0, i + 1).last() == d);
            }
            match self.register(d) {
                Ok(()) => {},
                Err(e) => {
                    proof {
                        if can_add_all(start, ds@) {
                            lemma_can_add_all_prefix(start, ds@, i as int + 1);
                        }
                    }
                    self.regions.truncate(n0);
                    assert(self@ =~= start);
                    return Err(e);
                },
            }
            assert(self@ =~= start + ds@.subrange(0, i + 1));
            i = i + 1;
        }
        assert(ds@.subrange(0, n as int) =~= ds@);
        Ok(())
    }
}

/// Whatever may be added as a whole may be added in part.
proof fn lemma_can_add_all_prefix(t: Seq<kvm_userspace_memory_region>, ds: Seq<kvm_userspace_memory_region>, k: int)
    requires
        0 <= k <= ds.len(),
        can_add_all(t, ds),
    ensures
        can_add_all(t, ds.subrange(0, k)),
    decreases ds.len(),
{
    if k < ds.len() {
        lemma_can_add_all_prefix(t, ds.drop_last(), k);
        assert(ds.drop_last().subrange(0, k) =~= ds.subrange(0, k));
    } else {
        assert(ds.subrange(0, k) =~= ds);
    }
}

/// Once a region is installed, a second region under the same slot is
/// refused.
pub proof fn lemma_same_slot_refused(t: Seq<kvm_userspace_memory_region>, a: kvm_userspace_memory_region, b: kvm_userspace_memory_region)
    requires
        a.slot == b.slot,
    ensures
        !can_add(t.push(a), b),
{
    assert(t.push(a)[t.len() as int] == a);
}

/// Regions with distinct slots and disjoint guest ranges may be installed one
/// after the other, whenever each alone may be.
pub proof fn lemma_disjoint_slots_accepted(t: Seq<kvm_userspace_memory_region>, a: kvm_userspace_memory_region, b: kvm_userspace_memory_region)
    requires
        can_add(t, a),
        can_add(t, b),
        a.slot != b.slot,
        guest_disjoint(a, b),
    ensures
        can_add(t.push(a), b),
{
    assert forall|k: int| 0 <= k < t.push(a).len() implies (#[trigger] t.push(a)[k]).slot != b.slot && guest_disjoint(t.push(a)[k], b) by {
        if k < t.len() {
            assert(t.push(a)[k] == t[k]);
        }
    }
}

} // verus!

verus! {

/// Once a batch of regions is installed, a batch whose first region reuses
/// the slot of the first installed one is refused as a whole.
pub proof fn lemma_repeated_batch_refused(
    t: Seq<kvm_userspace_memory_region>,
    first: Seq<kvm_userspace_memory_region>,
    again: Seq<kvm_userspace_memory_region>,
)
    requires
        first.len() > 0,
        again.len() > 0,
        first[0].slot == again[0].slot,
    ensures
        !can_add_all(t + first, again),
{
    if can_add_all(t + first, again) {
        lemma_can_add_all_prefix(t + first, again, 1);
        let one = again.subrange(0, 1);
        assert(one.drop_last() =~= Seq::<kvm_userspace_memory_region>::empty());
        assert((t + first) + one.drop_last() =~= t + first);
        assert((t + first)[t.len() as int] == first[0]);
    }
}

} // verus!

verus! {

/// Two batches of regions that may each be installed, and whose slots and
/// guest ranges are pairwise distinct and disjoint, may be installed one
/// after the other.
pub proof fn lemma_disjoint_batches_accepted(
    t: Seq<kvm_userspace_memory_region>,
    a: Seq<kvm_userspace_memory_region>,
    b: Seq<kvm_userspace_memory_region>,
)
    requires
        can_add_all(t, a),
        can_add_all(t, b),
        forall|i: int, j: int| 0 <= i < a.len() && 0 <= j < b.len()
            ==> (#[trigger] a[i]).slot != (#[trigger] b[j]).slot && guest_disjoint(a[i], b[j]),
    ensures
        can_add_all(t + a, b),
    decreases b.len(),
{
    if b.len() > 0 {
        let bl = b.drop_last();
        lemma_can_add_all_prefix(t, b, bl.len() as int);
        assert(b.subrange(0, bl.len() as int) =~= bl);
        assert forall|i: int, j: int| 0 <= i < a.len() && 0 <= j < bl.len()
            implies (#[trigger] a[i]).slot != (#[trigger] bl[j]).slot && guest_disjoint(a[i], bl[j]) by {
            assert(bl[j] == b[j]);
        }
        lemma_disjoint_batches_accepted(t, a, bl);
        let d = b.last();
        let u = (t + a) + bl;
        assert forall|k: int| 0 <= k < u.len() implies (#[trigger] u[k]).slot != d.slot && guest_disjoint(u[k], d) by {
            if k < t.len() {
                assert(u[k] == (t + bl)[k]);
            } else if k < t.len() + a.len() {
                assert(u[k] == a[k - t.len()]);
                assert(d == b[b.len() - 1]);
            } else {
                assert(u[k] == (t + bl)[k - a.len()]);
            }
        }
    }
}

} // verus!
