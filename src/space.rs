use vstd::prelude::*;
use std::io::Cursor;
use linux_loader::loader::{elf::Elf, KernelLoader};
use vm_memory::{GuestAddress, GuestMemoryMmap};
use crate::loader::elf_entry;
use crate::backing::{host_address, map_guest_memory};
use crate::error::VmmError;

verus! {

/// One contiguous range of guest physical memory and the host address of
/// the allocation that backs it.
#[derive(Debug, Clone, Copy, PartialEq, Eq, Structural)]
pub struct GuestRange {
    pub guest_addr: u64,
    pub len: u64,
    pub host_addr: u64,
}

/// A requested range is usable: it is not empty and its end is a valid
/// address.
pub open spec fn range_ok(r: (u64, u64)) -> bool {
    r.1 > 0 && r.0 + r.1 <= u64::MAX
}

/// Two requested ranges share no address.
pub open spec fn disjoint(a: (u64, u64), b: (u64, u64)) -> bool {
    a.0 + a.1 <= b.0 || b.0 + b.1 <= a.0
}

/// Every range is usable and no two of them overlap, in whatever order they
/// come.
pub open spec fn layout_ok(s: Seq<(u64, u64)>) -> bool {
    &&& forall|i: int| 0 <= i < s.len() ==> #[trigger] range_ok(s[i])
    &&& forall|i: int, j: int|
        0 <= i < j < s.len() ==> #[trigger] disjoint(s[i], s[j])
}

/// The ranges come in ascending order of guest address.
pub open spec fn ascending(s: Seq<(u64, u64)>) -> bool {
    forall|i: int, j: int| 0 <= i < j < s.len() ==> #[trigger] s[i].0 <= #[trigger] s[j].0
}

/// The ranges of `ranges`, ordered by guest address.
pub fn sorted_layout(ranges: &Vec<(u64, u64)>) -> (r: Vec<(u64, u64)>)
    ensures
        r@.to_multiset() == ranges@.to_multiset(),
        ascending(r@),
{
    let n = ranges.len();
    let mut out: Vec<(u64, u64)> = Vec::new();
    let mut i: usize = 0;
    assert(ranges@.take(0) =~= out@);
    while i < n
        invariant
            n == ranges@.len(),
            0 <= i <= n,
            out@.to_multiset() == ranges@.take(i as int).to_multiset(),
            ascending(out@),
        decreases n - i,
    {
        let x = ranges[i];
        let m = out.len();
        let mut p: usize = 0;
        while p < m && out[p].0 < x.0
            invariant
                m == out@.len(),
                0 <= p <= m,
                forall|k: int| 0 <= k < p ==> #[trigger] out@[k].0 < x.0,
            decreases m - p,
        {
            p = p + 1;
        }
        proof {
            if p < m {
                assert(out@[p as int].0 >= x.0);
            }
            vstd::seq_lib::to_multiset_insert(out@, p as int, x);
            assert(ranges@.take(i + 1) =~= ranges@.take(i as int).push(x));
            vstd::seq_lib::to_multiset_insert(ranges@.take(i as int), i as int, x);
            assert(ranges@.take(i as int).insert(i as int, x) =~= ranges@.take(i as int).push(x));
        }
        let ghost before = out@;
        out.insert(p, x);
        proof {
            assert forall|a: int, b: int| 0 <= a < b < out@.len() implies #[trigger] out@[a].0 <= #[trigger] out@[b].0 by {
                if b < p {
                } else if a < p && b == p {
                } else if a < p && b > p {
                    assert(out@[b] == before[b - 1]);
                    if p < m {
                        assert(before[p as int].0 >= x.0);
                        assert(before[p as int].0 <= before[b - 1].0);
                    }
                } else if a == p {
                    assert(out@[b] == before[b - 1]);
                    assert(before[p as int].0 >= x.0);
                    assert(before[p as int].0 <= before[b - 1].0);
                } else {
                    assert(out@[a] == before[a - 1]);
                    assert(out@[b] == before[b - 1]);
                }
            }
        }
        i = i + 1;
    }
    assert(ranges@.take(n as int) =~= ranges@);
    out
}

/// Host allocations of `l1` bytes at `h1` and `l2` bytes at `h2` share no
/// address.
pub open spec fn hosts_apart(h1: u64, l1: u64, h2: u64, l2: u64) -> bool {
    h1 + l1 <= h2 || h2 + l2 <= h1
}

/// The host allocations given for a layout: one per range, each ending at
/// a valid host address, no two of them overlapping.
pub open spec fn backing_ok(s: Seq<(u64, u64)>, hosts: Seq<u64>) -> bool {
    &&& hosts.len() == s.len()
    &&& forall|i: int| 0 <= i < s.len() ==> hosts[i] + (#[trigger] s[i]).1 <= u64::MAX
    &&& forall|i: int, j: int|
        0 <= i < j < s.len() ==> #[trigger] hosts_apart(hosts[i], s[i].1, hosts[j], s[j].1)
}

/// The guest-side part of a range.
pub open spec fn span(r: GuestRange) -> (u64, u64) {
    (r.guest_addr, r.len)
}

/// `a` lies in the guest range `r`.
pub open spec fn contains(r: GuestRange, a: int) -> bool {
    r.guest_addr <= a < r.guest_addr + r.len
}

/// The host address that backs guest address `a` in range `r`.
pub open spec fn host_of(r: GuestRange, a: int) -> int {
    r.host_addr + (a - r.guest_addr)
}

/// The guest-side parts of a sequence of ranges.
pub open spec fn spans(s: Seq<GuestRange>) -> Seq<(u64, u64)> {
    s.map_values(|r: GuestRange| span(r))
}

/// A set of disjoint guest ranges, each backed by a host allocation that the
/// space owns; the only way to turn a guest address into a host address.
pub struct GuestAddressSpace {
    ranges: Vec<GuestRange>,
    mem: GuestMemoryMmap,
}

/// Checks that `ranges` is a layout that can be allocated: no range empty,
/// none ending past the last address, no two overlapping.
pub fn check_layout(ranges: &Vec<(u64, u64)>) -> (r: Result<(), VmmError>)
    ensures
        r is Ok <==> layout_ok(ranges@),
        r is Err ==> r == Err::<(), VmmError>(VmmError::AllocationError),
{
    let n = ranges.len();
    let mut i: usize = 0;
    while i < n
        invariant
            n == ranges@.len(),
            0 <= i <= n,
            forall|k: int| 0 <= k < i ==> #[trigger] range_ok(ranges@[k]),
            forall|k: int, j: int| 0 <= k < j < n && k < i ==> #[trigger] disjoint(ranges@[k], ranges@[j]),
        decreases n - i,
    {
        let (g, l) = ranges[i];
        if l == 0 || g > u64::MAX - l {
            assert(!range_ok(ranges@[i as int]));
            return Err(VmmError::AllocationError);
        }
        let mut j: usize = i + 1;
        while j < n
            invariant
                n == ranges@.len(),
                0 <= i < j <= n,
                ranges@[i as int] == (g, l),
                range_ok(ranges@[i as int]),
                forall|m: int| i < m < j ==> #[trigger] disjoint(ranges@[i as int], ranges@[m]),
            decreases n - j,
        {
            let (h, m) = ranges[j];
            if !(g + l <= h || (h as u128) + (m as u128) <= g as u128) {
                assert(!disjoint(ranges@[i as int], ranges@[j as int]));
                return Err(VmmError::AllocationError);
            }
            j = j + 1;
        }
        i = i + 1;
    }
    Ok(())
}

/// Pairs each range of a valid layout with the host address of its
/// allocation. Fails with `AllocationError` exactly when the layout is not
/// valid or the allocations do not match it.
pub fn backed_ranges(ranges: &Vec<(u64, u64)>, hosts: &Vec<u64>) -> (r: Result<Vec<GuestRange>, VmmError>)
    ensures
        r is Ok <==> layout_ok(ranges@) && backing_ok(ranges@, hosts@),
        r matches Err(e) ==> e == VmmError::AllocationError,
        r matches Ok(v) ==> {
            &&& layout_ok(spans(v@))
            &&& v@.len() == ranges@.len()
            &&& forall|i: int| 0 <= i < v@.len() ==> (#[trigger] v@[i]) == (GuestRange {
                guest_addr: ranges@[i].0,
                len: ranges@[i].1,
                host_addr: hosts@[i],
            })
        },
{
    check_layout(ranges)?;
    if hosts.len() != ranges.len() {
        return Err(VmmError::AllocationError);
    }
    let n = ranges.len();
    let mut out: Vec<GuestRange> = Vec::new();
    let mut i: usize = 0;
    while i < n
        invariant
            n == ranges@.len(),
            n == hosts@.len(),
            0 <= i <= n,
            out@.len() == i,
            forall|k: int| 0 <= k < i ==> hosts@[k] + (#[trigger] ranges@[k]).1 <= u64::MAX,
            forall|k: int, j: int|
                0 <= k < j < i ==> #[trigger] hosts_apart(hosts@[k], ranges@[k].1, hosts@[j], ranges@[j].1),
            forall|k: int| 0 <= k < i ==> (#[trigger] out@[k]) == (GuestRange {
                guest_addr: ranges@[k].0,
                len: ranges@[k].1,
                host_addr: hosts@[k],
            }),
        decreases n - i,
    {
        let (g, l) = ranges[i];
        let h = hosts[i];
        if h > u64::MAX - l {
            return Err(VmmError::AllocationError);
        }
        let mut k: usize = 0;
        while k < i
            invariant
                n == ranges@.len(),
                n == hosts@.len(),
                0 <= k <= i < n,
                h == hosts@[i as int],
                l == ranges@[i as int].1,
                forall|q: int| 0 <= q < k ==> #[trigger] hosts_apart(hosts@[q], ranges@[q].1, h, l),
            decreases i - k,
        {
            let hk = hosts[k];
            let lk = ranges[k].1;
            if !((hk as u128) + (lk as u128) <= h as u128 || (h as u128) + (l as u128) <= hk as u128) {
                assert(!hosts_apart(hosts@[k as int], ranges@[k as int].1, hosts@[i as int], ranges@[i as int].1));
                return Err(VmmError::AllocationError);
            }
            k = k + 1;
        }
        out.push(GuestRange { guest_addr: g, len: l, host_addr: h });
        i = i + 1;
    }
    assert(spans(out@) =~= ranges@);
    Ok(out)
}

/// Whether linux-loader's ELF loader succeeds on `image` with kernel offset
/// `offset` over guest memory laid out as `layout`.
pub uninterp spec fn elf_loads(layout: Seq<(u64, u64)>, image: Seq<u8>, offset: u64) -> bool;

/// Relies on linux-loader's `Elf::load` with a kernel offset and no high
/// memory start: it copies the image's loadable segments into the space's
/// memory; whether it succeeds depends on the image, the layout and the
/// offset alone, and on success its load address is the offset plus the
/// header's entry field, read from the 64-byte header it has read in full.
#[verifier::external_body]
pub(crate) fn load_elf(space: &GuestAddressSpace, image: &Vec<u8>, offset: u64) -> (r: Result<u64, linux_loader::loader::Error>)
    ensures
        r is Ok <==> elf_loads(spans(space@), image@, offset),
        r matches Ok(a) ==> image@.len() >= 64 && a == offset + elf_entry(image@),
{
    Elf::load(&space.mem, Some(GuestAddress(offset)), &mut Cursor::new(image.as_slice()), None).map(|res| res.kernel_load.0)
}

impl GuestAddressSpace {
    /// The ranges of the space, in the order they were requested.
    pub closed spec fn view(&self) -> Seq<GuestRange> {
        self.ranges@
    }

    /// The ranges are usable, ascending and disjoint, and the host
    /// allocations end at valid host addresses and do not overlap.
    pub open spec fn wf(&self) -> bool {
        &&& layout_ok(spans(self@))
        &&& forall|i: int| 0 <= i < self@.len() ==> (#[trigger] self@[i]).host_addr + self@[i].len <= u64::MAX
        &&& forall|i: int, j: int| 0 <= i < j < self@.len()
            ==> #[trigger] hosts_apart(self@[i].host_addr, self@[i].len, self@[j].host_addr, self@[j].len)
    }

    /// Maps host memory for every range of `ranges` (handed to vm-memory in
    /// ascending order, which it requires) and builds the space over it,
    /// keeping the ranges in the caller's order. Fails with `AllocationError` when the layout is not valid,
    /// and also when the host cannot provide the memory.
    pub fn create(ranges: &Vec<(u64, u64)>) -> (r: Result<GuestAddressSpace, VmmError>)
        ensures
            !layout_ok(ranges@) ==> r is Err,
            r matches Err(e) ==> e == VmmError::AllocationError,
            r matches Ok(s) ==> s.wf() && spans(s@) == ranges@,
    {
        check_layout(ranges)?;
        let sorted = sorted_layout(ranges);
        let mem = match map_guest_memory(&sorted) {
            Ok(m) => m,
            Err(_) => return Err(VmmError::AllocationError),
        };
        let n = ranges.len();
        let mut hosts: Vec<u64> = Vec::new();
        let mut i: usize = 0;
        while i < n
            invariant
                n == ranges@.len(),
                0 <= i <= n,
                hosts@.len() == i,
            decreases n - i,
        {
            match host_address(&mem, ranges[i].0) {
                Ok(h) => hosts.push(h),
                Err(_) => return Err(VmmError::AllocationError),
            }
            i = i + 1;
        }
        let rs = backed_ranges(ranges, &hosts)?;
        let s = GuestAddressSpace { ranges: rs, mem };
        assert(spans(s@) =~= ranges@);
        Ok(s)
    }

    /// The host memory behind the space.
    pub fn memory(&self) -> &GuestMemoryMmap {
        &self.mem
    }

    /// Number of ranges in the space.
    pub fn num_ranges(&self) -> (r: usize)
        ensures
            r == self@.len(),
    {
        self.ranges.len()
    }

    /// The range at `i`.
    pub fn range(&self, i: usize) -> (r: GuestRange)
        requires
            i < self@.len(),
        ensures
            r == self@[i as int],
    {
        self.ranges[i]
    }

    /// Translates a guest physical address into the host address that backs
    /// it. Fails with `OutOfRange` exactly when no range contains it.
    pub fn translate(&self, gpa: u64) -> (r: Result<u64, VmmError>)
        requires
            self.wf(),
        ensures
            r matches Ok(h) ==> exists|i: int|
                0 <= i < self@.len() && contains(#[trigger] self@[i], gpa as int)
                    && h == host_of(self@[i], gpa as int),
            forall|i: int| 0 <= i < self@.len() && #[trigger] contains(self@[i], gpa as int)
                ==> r == Ok::<u64, VmmError>(host_of(self@[i], gpa as int) as u64),
            r is Err <==> forall|i: int| 0 <= i < self@.len() ==> !contains(#[trigger] self@[i], gpa as int),
            r is Err ==> r == Err::<u64, VmmError>(VmmError::OutOfRange),
    {
        let n = self.ranges.len();
        let mut i: usize = 0;
        while i < n
            invariant
                n == self@.len(),
                0 <= i <= n,
                self.wf(),
                forall|k: int| 0 <= k < i ==> !contains(#[trigger] self@[k], gpa as int),
            decreases n - i,
        {
            let r = self.ranges[i];
            if r.guest_addr <= gpa && gpa - r.guest_addr < r.len {
                assert(self@[i as int].host_addr + self@[i as int].len <= u64::MAX);
                let h = r.host_addr + (gpa - r.guest_addr);
                assert(contains(self@[i as int], gpa as int));
                proof {
                    assert forall|j: int| 0 <= j < self@.len() && #[trigger] contains(self@[j], gpa as int) implies j == i by {
                        lemma_translation_unique(self, gpa as int, i as int, j);
                    }
                }
                return Ok(h);
            }
            i = i + 1;
        }
        Err(VmmError::OutOfRange)
    }
}

} // verus!

verus! {

/// In a well-formed space at most one range contains any guest address, so
/// `translate` has exactly one possible answer for it.
pub proof fn lemma_translation_unique(s: &GuestAddressSpace, gpa: int, i: int, j: int)
    requires
        s.wf(),
        0 <= i < s@.len(),
        0 <= j < s@.len(),
        contains(s@[i], gpa),
        contains(s@[j], gpa),
    ensures
        i == j,
        host_of(s@[i], gpa) == host_of(s@[j], gpa),
{
    let m = spans(s@);
    if i < j {
        assert(disjoint(m[i], m[j]));
    } else if j < i {
        assert(disjoint(m[j], m[i]));
    }
}

/// Distinct guest addresses of a well-formed space are backed by distinct
/// host addresses: no two guest addresses alias.
pub proof fn lemma_no_alias(s: &GuestAddressSpace, g1: int, g2: int, i: int, j: int)
    requires
        s.wf(),
        0 <= i < s@.len(),
        0 <= j < s@.len(),
        contains(s@[i], g1),
        contains(s@[j], g2),
        g1 != g2,
    ensures
        host_of(s@[i], g1) != host_of(s@[j], g2),
{
    if i < j {
        assert(hosts_apart(s@[i].host_addr, s@[i].len, s@[j].host_addr, s@[j].len));
    } else if j < i {
        assert(hosts_apart(s@[j].host_addr, s@[j].len, s@[i].host_addr, s@[i].len));
    }
}

/// A translated address always lies inside the host allocation of the range
/// that holds the guest address.
pub proof fn lemma_translation_in_allocation(s: &GuestAddressSpace, gpa: int, i: int)
    requires
        s.wf(),
        0 <= i < s@.len(),
        contains(s@[i], gpa),
    ensures
        s@[i].host_addr <= host_of(s@[i], gpa) < s@[i].host_addr + s@[i].len,
        host_of(s@[i], gpa) <= u64::MAX,
{
}

} // verus!
