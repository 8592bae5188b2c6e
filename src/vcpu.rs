use vstd::prelude::*;
use kvm_bindings::kvm_regs;
use kvm_ioctls::{VcpuFd, VmFd};
use crate::error::VmmError;

verus! {

/// The general-purpose register file of an x86-64 vCPU as the hypervisor
/// reads and writes it; all of its fields are plain integers.
#[verifier::external_type_specification]
pub struct ExKvmRegs(kvm_regs);

/// Bit 1 of RFLAGS is reserved and must read as one; every other flag
/// starts cleared.
pub const RFLAGS_RESERVED: u64 = 0x2;

/// Where the loaded kernel starts executing, and where its boot-parameter
/// block lies, if it has one.
#[derive(Debug, Clone, Copy, PartialEq, Eq, Structural)]
pub struct GuestEntryPoint {
    pub instruction_address: u64,
    pub boot_params: Option<u64>,
}

/// The register file after initialization: the instruction pointer at the
/// entry point, the flags at their reserved value, the boot-parameter
/// address in RSI when there is one, and every other register as it was.
pub open spec fn initial_regs_spec(regs: kvm_regs, entry: GuestEntryPoint) -> kvm_regs {
    kvm_regs {
        rip: entry.instruction_address,
        rflags: RFLAGS_RESERVED,
        rsi: match entry.boot_params {
            Some(p) => p,
            None => regs.rsi,
        },
        ..regs
    }
}

/// Computes the register file that a freshly created vCPU must be given so
/// that it starts at `entry`.
pub fn initial_regs(regs: &kvm_regs, entry: &GuestEntryPoint) -> (r: kvm_regs)
    ensures
        r == initial_regs_spec(*regs, *entry),
        r.rip == entry.instruction_address,
        r.rflags == RFLAGS_RESERVED,
{
    let rsi = match entry.boot_params {
        Some(p) => p,
        None => regs.rsi,
    };
    kvm_regs {
        rax: regs.rax,
        rbx: regs.rbx,
        rcx: regs.rcx,
        rdx: regs.rdx,
        rsi,
        rdi: regs.rdi,
        rsp: regs.rsp,
        rbp: regs.rbp,
        r8: regs.r8,
        r9: regs.r9,
        r10: regs.r10,
        r11: regs.r11,
        r12: regs.r12,
        r13: regs.r13,
        r14: regs.r14,
        r15: regs.r15,
        rip: entry.instruction_address,
        rflags: RFLAGS_RESERVED,
    }
}

/// A KVM virtual machine (kvm-ioctls).
#[verifier::external_type_specification]
#[verifier::external_body]
pub struct ExVmFd(VmFd);

/// A KVM virtual CPU (kvm-ioctls).
#[verifier::external_type_specification]
#[verifier::external_body]
pub struct ExVcpuFd(VcpuFd);

/// The OS error that a failed KVM ioctl reports (kvm-ioctls).
#[verifier::external_type_specification]
#[verifier::external_body]
pub struct ExKvmError(kvm_ioctls::Error);

/// Relies on `VmFd::create_vcpu`: asks KVM for the vCPU numbered `id`;
/// whether the host grants it is not up to the caller.
#[verifier::external_body]
fn create_vcpu(vm: &VmFd, id: u64) -> (r: Result<VcpuFd, kvm_ioctls::Error>) {
    vm.create_vcpu(id)
}

/// Relies on `VcpuFd::get_regs`: reads the vCPU's general-purpose
/// registers from KVM.
#[verifier::external_body]
fn get_regs(vcpu: &VcpuFd) -> (r: Result<kvm_regs, kvm_ioctls::Error>) {
    vcpu.get_regs()
}

/// Relies on `VcpuFd::set_regs`: writes the vCPU's general-purpose
/// registers through KVM.
#[verifier::external_body]
fn set_regs(vcpu: &VcpuFd, regs: &kvm_regs) -> (r: Result<(), kvm_ioctls::Error>) {
    vcpu.set_regs(regs)
}

/// The registers that initialization must leave behind for `entry`.
pub open spec fn starts_at(regs: kvm_regs, entry: GuestEntryPoint) -> bool {
    &&& regs.rip == entry.instruction_address
    &&& regs.rflags == RFLAGS_RESERVED
    &&& (entry.boot_params matches Some(p) ==> regs.rsi == p)
}

/// Checks that the registers read back from a vCPU (`back`) are exactly
/// those written to it (`wanted`); any difference is a
/// `RegisterWriteError`.
pub fn check_readback(wanted: &kvm_regs, back: &kvm_regs) -> (r: Result<(), VmmError>)
    ensures
        r is Ok <==> *back == *wanted,
        r is Err ==> r == Err::<(), VmmError>(VmmError::RegisterWriteError),
{
    if back.rax == wanted.rax && back.rbx == wanted.rbx && back.rcx == wanted.rcx && back.rdx == wanted.rdx
        && back.rsi == wanted.rsi && back.rdi == wanted.rdi && back.rsp == wanted.rsp && back.rbp == wanted.rbp
        && back.r8 == wanted.r8 && back.r9 == wanted.r9 && back.r10 == wanted.r10 && back.r11 == wanted.r11
        && back.r12 == wanted.r12 && back.r13 == wanted.r13 && back.r14 == wanted.r14 && back.r15 == wanted.r15
        && back.rip == wanted.rip && back.rflags == wanted.rflags {
        Ok(())
    } else {
        Err(VmmError::RegisterWriteError)
    }
}

/// Creates vCPU 0 of `vm` and sets it up to start at `entry`: the
/// registers it had on creation, changed as `initial_regs` says, are
/// written and read back. On success it returns the vCPU and the registers
/// as read back, which are exactly those written. Creation failing is a
/// `VcpuCreationError`; a register access failing, or the read-back
/// registers differing from those written, is a `RegisterWriteError`.
pub fn setup_vcpu(vm: &VmFd, entry: &GuestEntryPoint) -> (r: Result<(VcpuFd, kvm_regs), VmmError>)
    ensures
        r matches Ok((_, regs)) ==> starts_at(regs, *entry)
            && exists|created: kvm_regs| regs == initial_regs_spec(created, *entry),
        r matches Err(e) ==> e == VmmError::VcpuCreationError || e == VmmError::RegisterWriteError,
{
    let vcpu = match create_vcpu(vm, 0) {
        Ok(v) => v,
        Err(_) => return Err(VmmError::VcpuCreationError),
    };
    let regs = match get_regs(&vcpu) {
        Ok(r) => r,
        Err(_) => return Err(VmmError::RegisterWriteError),
    };
    let wanted = initial_regs(&regs, entry);
    if set_regs(&vcpu, &wanted).is_err() {
        return Err(VmmError::RegisterWriteError);
    }
    let back = match get_regs(&vcpu) {
        Ok(r) => r,
        Err(_) => return Err(VmmError::RegisterWriteError),
    };
    check_readback(&wanted, &back)?;
    assert(back == initial_regs_spec(regs, *entry));
    Ok((vcpu, back))
}

} // verus!
