use vstd::prelude::*;
use crate::error::VmmError;
use crate::space::{elf_loads, load_elf, spans, GuestAddressSpace};
use crate::vcpu::GuestEntryPoint;

verus! {

/// Size of an ELF64 file header.
pub const ELF64_HEADER_LEN: usize = 64;

/// Offset of the entry-point field (`e_entry`) in an ELF64 header.
pub const ELF64_ENTRY_OFFSET: usize = 24;

/// The header starts with the ELF magic and declares a 64-bit,
/// little-endian file.
pub open spec fn is_elf64_le(img: Seq<u8>) -> bool {
    &&& img.len() >= ELF64_HEADER_LEN
    &&& img[0] == 0x7f && img[1] == 0x45 && img[2] == 0x4c && img[3] == 0x46
    &&& img[4] == 2
    &&& img[5] == 1
}

/// The unsigned integer that the bytes `s` encode, least significant first.
pub open spec fn le_value(s: Seq<u8>) -> nat
    decreases s.len(),
{
    if s.len() == 0 {
        0
    } else {
        (s[0] + 256 * le_value(s.subrange(1, s.len() as int))) as nat
    }
}

/// 256 to the power `n`.
pub open spec fn pow256(n: nat) -> nat
    decreases n,
{
    if n == 0 {
        1
    } else {
        256 * pow256((n - 1) as nat)
    }
}

/// The entry-point offset that an ELF64 header declares.
pub open spec fn elf_entry(img: Seq<u8>) -> nat {
    le_value(img.subrange(ELF64_ENTRY_OFFSET as int, ELF64_ENTRY_OFFSET + 8))
}

/// The range `r`, given as (guest address, length), holds the `n` bytes
/// starting at guest address `a`.
pub open spec fn holds(r: (u64, u64), a: int, n: int) -> bool {
    r.0 <= a && a + n <= r.0 + r.1
}

/// Some range of `s` holds guest address `x`.
pub open spec fn covered_at(s: Seq<(u64, u64)>, x: int) -> bool {
    exists|i: int| 0 <= i < s.len() && #[trigger] holds(s[i], x, 1)
}

/// Every byte of the `n` bytes at guest address `a` lies in some range of
/// `s`: adjacent ranges together hold what spans them.
pub open spec fn covered(s: Seq<(u64, u64)>, a: int, n: int) -> bool {
    forall|x: int| a <= x < a + n ==> #[trigger] covered_at(s, x)
}

/// Range `r` holds, from its start, `n` bytes and the byte at offset `e`.
pub open spec fn fits_at_start(r: (u64, u64), n: int, e: int) -> bool {
    holds(r, r.0 as int, n) && holds(r, r.0 + e, 1)
}

/// Index of the first range from `i` on that fits an image of `n` bytes
/// with entry offset `e` at its start, or the number of ranges if none does.
pub open spec fn fit_index(s: Seq<(u64, u64)>, n: int, e: int, i: int) -> int
    decreases s.len() - i,
{
    if i < 0 || i >= s.len() {
        s.len() as int
    } else if fits_at_start(s[i], n, e) {
        i
    } else {
        fit_index(s, n, e, i + 1)
    }
}

/// Where the image goes: the hint, or else the start of the first range
/// that holds the whole image and its entry point.
pub open spec fn load_address(s: Seq<(u64, u64)>, img: Seq<u8>, hint: Option<u64>) -> int {
    match hint {
        Some(a) => a as int,
        None => s[fit_index(s, img.len() as int, elf_entry(img) as int, 0)].0 as int,
    }
}

/// Total number of bytes in the ranges of a layout.
pub open spec fn total_len(s: Seq<(u64, u64)>) -> nat
    decreases s.len(),
{
    if s.len() == 0 {
        0
    } else {
        total_len(s.drop_last()) + s.last().1 as nat
    }
}

/// The result of checking an image against an address space: the format
/// first, then whether the space holds as many bytes as the image, then
/// whether the ranges cover the image and its entry point at the hinted
/// load address or, with no hint, whether one range holds both from its
/// start.
/// An ELF image brings no boot-parameter block.
pub open spec fn load_outcome(s: Seq<(u64, u64)>, img: Seq<u8>, hint: Option<u64>) -> Result<GuestEntryPoint, VmmError> {
    if !is_elf64_le(img) {
        Err(VmmError::UnsupportedFormat)
    } else if total_len(s) < img.len() {
        Err(VmmError::ImageTooLarge)
    } else {
        let a = load_address(s, img, hint);
        let e = a + elf_entry(img);
        let placed = match hint {
            Some(h) => covered(s, a, img.len() as int) && covered(s, e, 1),
            None => fit_index(s, img.len() as int, elf_entry(img) as int, 0) < s.len(),
        };
        if placed {
            Ok(GuestEntryPoint { instruction_address: e as u64, boot_params: None })
        } else {
            Err(VmmError::RelocationError)
        }
    }
}

proof fn lemma_pow256_pos(n: nat)
    ensures
        pow256(n) >= 1,
    decreases n,
{
    if n > 0 {
        lemma_pow256_pos((n - 1) as nat);
    }
}

proof fn lemma_le_value_bound(s: Seq<u8>)
    ensures
        le_value(s) < pow256(s.len()),
    decreases s.len(),
{
    if s.len() > 0 {
        lemma_le_value_bound(s.subrange(1, s.len() as int));
    }
}

/// Reads the little-endian `u64` stored at `off`.
pub fn read_le_u64(b: &Vec<u8>, off: usize) -> (r: u64)
    requires
        off + 8 <= b@.len(),
    ensures
        r == le_value(b@.subrange(off as int, off + 8)),
{
    let mut v: u64 = 0;
    let mut j: usize = 8;
    proof {
        reveal_with_fuel(pow256, 9);
    }
    assert(pow256(8) == 0x1_0000_0000_0000_0000);
    let total = b.len();
    while j > 0
        invariant
            off + 8 <= b@.len(),
            total == b@.len(),
            0 <= j <= 8,
            v == le_value(b@.subrange(off + j, off + 8)),
            pow256((8 - j) as nat) * pow256(j as nat) == pow256(8),
            pow256(8) == 0x1_0000_0000_0000_0000,
        decreases j,
    {
        let ghost rest = b@.subrange(off + j, off + 8);
        let ghost cur = b@.subrange(off + j - 1, off + 8);
        proof {
            lemma_le_value_bound(rest);
            lemma_pow256_pos((j - 1) as nat);
            assert(cur.subrange(1, cur.len() as int) =~= rest);
            assert(pow256((8 - j + 1) as nat) == 256 * pow256((8 - j) as nat));
            assert(pow256(j as nat) == 256 * pow256((j - 1) as nat));
            assert(pow256((8 - j + 1) as nat) * pow256((j - 1) as nat) == pow256(8)) by (nonlinear_arith)
                requires
                    pow256((8 - j) as nat) * pow256(j as nat) == pow256(8),
                    pow256((8 - j + 1) as nat) == 256 * pow256((8 - j) as nat),
                    pow256(j as nat) == 256 * pow256((j - 1) as nat),
            ;
            assert(pow256((8 - j + 1) as nat) <= pow256(8)) by (nonlinear_arith)
                requires
                    pow256((8 - j + 1) as nat) * pow256((j - 1) as nat) == pow256(8),
                    pow256((j - 1) as nat) >= 1,
            ;
        }
        assert(v < pow256((8 - j) as nat));
        assert(256 * v + 255 < 0x1_0000_0000_0000_0000);
        v = (b[off + (j - 1)] as u64) + 256 * v;
        j = j - 1;
    }
    v
}

/// Checks that `image` is a 64-bit little-endian ELF file that fits the
/// address space at `hint` (or at the start of the first range), and gives
/// the guest address of its first instruction.
pub fn check_image(space: &GuestAddressSpace, image: &Vec<u8>, hint: Option<u64>) -> (r: Result<GuestEntryPoint, VmmError>)
    requires
        space.wf(),
    ensures
        r == load_outcome(spans(space@), image@, hint),
{
    let s = Ghost(spans(space@));
    if image.len() < ELF64_HEADER_LEN || image[0] != 0x7f || image[1] != 0x45 || image[2] != 0x4c
        || image[3] != 0x46 || image[4] != 2 || image[5] != 1 {
        return Err(VmmError::UnsupportedFormat);
    }
    let n = space.num_ranges();
    let len = image.len();
    let mut acc: u128 = 0;
    let mut i: usize = 0;
    while i < n && acc < len as u128
        invariant
            n == s@.len(),
            s@ == spans(space@),
            0 <= i <= n,
            acc == total_len(s@.take(i as int)),
            acc <= len + u64::MAX,
        decreases n - i,
    {
        assert(s@[i as int] == crate::space::span(space@[i as int]));
        assert(s@.take(i + 1).drop_last() =~= s@.take(i as int));
        acc = acc + space.range(i).len as u128;
        i = i + 1;
    }
    if acc < len as u128 {
        assert(s@.take(n as int) =~= s@);
        return Err(VmmError::ImageTooLarge);
    }
    proof {
        lemma_total_len_prefix(s@, i as int);
    }
    assert(n > 0);
    let off = read_le_u64(image, ELF64_ENTRY_OFFSET);
    let a: u64 = match hint {
        Some(h) => h,
        None => {
            let mut i: usize = 0;
            while i < n
                invariant
                    n == s@.len(),
                    s@ == spans(space@),
                    space.wf(),
                    0 <= i <= n,
                    off == elf_entry(image@),
                    len == image@.len(),
                    fit_index(s@, len as int, off as int, 0) == fit_index(s@, len as int, off as int, i as int),
                    is_elf64_le(image@),
                    !(total_len(s@) < len),
                    hint is None,
                decreases n - i,
            {
                let r = space.range(i);
                assert(s@[i as int] == crate::space::span(space@[i as int]));
                assert(crate::space::range_ok(s@[i as int]));
                let room = r.len;
                if (len as u128) <= room as u128 && (off as u128) < room as u128 {
                    assert(fits_at_start(s@[i as int], len as int, off as int));
                    assert(fit_index(s@, len as int, off as int, i as int) == i);
                    assert(load_address(s@, image@, hint) == r.guest_addr);
                    assert(r.guest_addr + off <= u64::MAX);
                    return Ok(GuestEntryPoint { instruction_address: r.guest_addr + off, boot_params: None });
                }
                i = i + 1;
            }
            assert(fit_index(s@, len as int, off as int, n as int) == n);
            return Err(VmmError::RelocationError);
        },
    };
    if (a as u128) + (off as u128) > u64::MAX as u128 {
        proof {
            if covered(s@, a + off, 1) {
                assert(covered_at(s@, a + off));
                let k = choose|k: int| 0 <= k < s@.len() && #[trigger] holds(s@[k], a + off, 1);
                assert(crate::space::range_ok(s@[k]));
            }
        }
        return Err(VmmError::RelocationError);
    }
    if covers(space, a, len as u64) && covers(space, a + off, 1) {
        return Ok(GuestEntryPoint { instruction_address: a + off, boot_params: None });
    }
    Err(VmmError::RelocationError)
}

/// Whether the ranges of `space` cover the `n` bytes at guest address `a`.
pub fn covers(space: &GuestAddressSpace, a: u64, n: u64) -> (r: bool)
    requires
        space.wf(),
    ensures
        r == covered(spans(space@), a as int, n as int),
{
    let s = Ghost(spans(space@));
    let nr = space.num_ranges();
    let end: u128 = a as u128 + n as u128;
    let mut cur: u128 = a as u128;
    while cur < end
        invariant
            s@ == spans(space@),
            space.wf(),
            nr == s@.len(),
            a <= cur,
            end == a + n,
            forall|x: int| a <= x < cur ==> #[trigger] covered_at(s@, x),
        decreases end - cur,
    {
        let mut i: usize = 0;
        let mut found = false;
        while i < nr && !found
            invariant
                s@ == spans(space@),
                nr == s@.len(),
                0 <= i <= nr,
                found ==> i < nr && holds(s@[i as int], cur as int, 1),
                forall|k: int| 0 <= k < i ==> !(#[trigger] holds(s@[k], cur as int, 1)),
            decreases nr - i + (if found { 0int } else { 1int }),
        {
            let r = space.range(i);
            assert(s@[i as int] == crate::space::span(space@[i as int]));
            if (r.guest_addr as u128) <= cur && cur < (r.guest_addr as u128) + (r.len as u128) {
                found = true;
            } else {
                i = i + 1;
            }
        }
        if !found {
            assert(!covered_at(s@, cur as int));
            return false;
        }
        let r = space.range(i);
        assert(s@[i as int] == crate::space::span(space@[i as int]));
        let next: u128 = (r.guest_addr as u128) + (r.len as u128);
        assert forall|x: int| a <= x < next implies #[trigger] covered_at(s@, x) by {
            if x >= cur {
                assert(holds(s@[i as int], x, 1));
            }
        }
        assert(next > cur);
        cur = if next > end { end } else { next };
    }
    true
}

/// The result of a load whose check gave `checked` and whose copy, when the
/// check passed, succeeded exactly when `loaded`.
pub open spec fn load_result(checked: Result<GuestEntryPoint, VmmError>, loaded: bool) -> Result<GuestEntryPoint, VmmError> {
    match checked {
        Ok(e) => if loaded {
            Ok(e)
        } else {
            Err(VmmError::RelocationError)
        },
        Err(x) => Err(x),
    }
}

/// What loading returns once the image has been checked (`checked`) and,
/// when the check passed, the loader has copied its segments (`loaded`) or
/// failed to: a failed copy is a `RelocationError`.
pub fn finish_load(checked: Result<GuestEntryPoint, VmmError>, loaded: bool) -> (r: Result<GuestEntryPoint, VmmError>)
    ensures
        r == load_result(checked, loaded),
{
    match checked {
        Ok(e) => if loaded {
            Ok(e)
        } else {
            Err(VmmError::RelocationError)
        },
        Err(x) => Err(x),
    }
}

/// Checks `image` as `check_image` does and, when it passes, has
/// linux-loader copy its loadable segments into the space at the load
/// address. Fails with the check's error, or with `RelocationError` when
/// the segments cannot be placed in guest memory.
pub fn load_kernel(space: &GuestAddressSpace, image: &Vec<u8>, hint: Option<u64>) -> (r: Result<GuestEntryPoint, VmmError>)
    requires
        space.wf(),
    ensures
        load_outcome(spans(space@), image@, hint) is Err ==> r == load_outcome(spans(space@), image@, hint),
        load_outcome(spans(space@), image@, hint) is Ok ==> r == load_result(
            load_outcome(spans(space@), image@, hint),
            elf_loads(spans(space@), image@, load_address(spans(space@), image@, hint) as u64),
        ),
{
    let checked = check_image(space, image, hint);
    if checked.is_err() {
        return checked;
    }
    let entry = match checked {
        Ok(e) => e,
        Err(_) => return checked,
    };
    let off = read_le_u64(image, ELF64_ENTRY_OFFSET);
    proof {
        let sp = spans(space@);
        assert forall|k: int| 0 <= k < sp.len() implies #[trigger] sp[k].0 + sp[k].1 <= u64::MAX by {
            assert(crate::space::range_ok(sp[k]));
        }
        lemma_fit_index(sp, image@.len() as int, elf_entry(image@) as int, 0);
        if hint is Some {
            let x = load_address(sp, image@, hint) + off;
            assert(covered_at(sp, x));
            let k = choose|k: int| 0 <= k < sp.len() && #[trigger] holds(sp[k], x, 1);
            assert(sp[k].0 + sp[k].1 <= u64::MAX);
        }
        assert(entry.instruction_address == load_address(sp, image@, hint) + off);
    }
    let a: u64 = entry.instruction_address - off;
    let loaded = load_elf(space, image, a).is_ok();
    finish_load(checked, loaded)
}

/// The first fitting range found from `i` on fits, and lies at or after `i`.
proof fn lemma_fit_index(s: Seq<(u64, u64)>, n: int, e: int, i: int)
    requires
        0 <= i,
    ensures
        fit_index(s, n, e, i) <= s.len(),
        fit_index(s, n, e, i) < s.len() ==> i <= fit_index(s, n, e, i) && fits_at_start(s[fit_index(s, n, e, i)], n, e),
    decreases s.len() - i,
{
    if i < s.len() && !fits_at_start(s[i], n, e) {
        lemma_fit_index(s, n, e, i + 1);
    }
}

/// The bytes of a prefix of a layout never exceed those of the whole.
proof fn lemma_total_len_prefix(s: Seq<(u64, u64)>, i: int)
    requires
        0 <= i <= s.len(),
    ensures
        total_len(s.take(i)) <= total_len(s),
    decreases s.len(),
{
    if i < s.len() {
        lemma_total_len_prefix(s.drop_last(), i);
        assert(s.drop_last().take(i) =~= s.take(i));
    } else {
        assert(s.take(i) =~= s);
    }
}

} // verus!

verus! {

/// A well-formed image of `n` bytes, whose entry point lies inside it,
/// placed at the start of a range of at least `n` bytes, is accepted, and
/// its entry point lies in that range.
pub proof fn lemma_minimal_image_loads(s: Seq<(u64, u64)>, img: Seq<u8>, i: int)
    requires
        is_elf64_le(img),
        elf_entry(img) < img.len(),
        0 <= i < s.len(),
        s[i].1 >= img.len(),
        s[i].0 + s[i].1 <= u64::MAX,
    ensures
        load_outcome(s, img, Some(s[i].0)) matches Ok(e)
            && holds(s[i], e.instruction_address as int, 1)
            && e.instruction_address == s[i].0 + elf_entry(img),
{
    lemma_total_len_prefix(s, i + 1);
    assert(s.take(i + 1).drop_last() =~= s.take(i));
    assert forall|x: int| s[i].0 <= x < s[i].0 + img.len() implies #[trigger] covered_at(s, x) by {
        assert(holds(s[i], x, 1));
    }
}

/// A well-formed image longer than the whole space is refused as too large.
pub proof fn lemma_oversized_image_refused(s: Seq<(u64, u64)>, img: Seq<u8>, hint: Option<u64>)
    requires
        is_elf64_le(img),
        total_len(s) < img.len(),
    ensures
        load_outcome(s, img, hint) == Err::<GuestEntryPoint, VmmError>(VmmError::ImageTooLarge),
{
}

} // verus!

verus! {

/// With no hint, a well-formed image that some range holds from its start,
/// entry point included, is accepted, and its entry point lies in a range
/// that holds the whole image.
pub proof fn lemma_fitting_image_loads_without_hint(s: Seq<(u64, u64)>, img: Seq<u8>, i: int)
    requires
        is_elf64_le(img),
        0 <= i < s.len(),
        fits_at_start(s[i], img.len() as int, elf_entry(img) as int),
        forall|k: int| 0 <= k < s.len() ==> #[trigger] s[k].0 + s[k].1 <= u64::MAX,
    ensures
        load_outcome(s, img, None) matches Ok(ep) && exists|k: int|
            0 <= k < s.len() && fits_at_start(#[trigger] s[k], img.len() as int, elf_entry(img) as int)
                && holds(s[k], ep.instruction_address as int, 1),
{
    lemma_total_len_prefix(s, i + 1);
    assert(s.take(i + 1).drop_last() =~= s.take(i));
    lemma_fit_index(s, img.len() as int, elf_entry(img) as int, 0);
    lemma_fit_index_at_most(s, img.len() as int, elf_entry(img) as int, 0, i);
    let k = fit_index(s, img.len() as int, elf_entry(img) as int, 0);
    assert(s[k].0 + s[k].1 <= u64::MAX);
}

proof fn lemma_fit_index_at_most(s: Seq<(u64, u64)>, n: int, e: int, j: int, i: int)
    requires
        0 <= j <= i < s.len(),
        fits_at_start(s[i], n, e),
    ensures
        fit_index(s, n, e, j) <= i,
    decreases i - j,
{
    if j < i && !fits_at_start(s[j], n, e) {
        lemma_fit_index_at_most(s, n, e, j + 1, i);
    }
}

} // verus!
