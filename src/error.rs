use vstd::prelude::*;

verus! {

/// Every failure the monitor can report, one variant per category.
#[derive(Debug, Clone, Copy, PartialEq, Eq, Structural)]
pub enum VmmError {
    /// A range of the requested layout is empty, overlaps another, or could
    /// not be backed by host memory.
    AllocationError,
    /// The hypervisor (or the slot table) rejected a memory region.
    RegistrationError,
    /// The image is not a recognized executable format.
    UnsupportedFormat,
    /// The image needs more memory than the address space holds.
    ImageTooLarge,
    /// The image cannot be placed at the requested address within the space.
    RelocationError,
    /// The vCPU could not be created.
    VcpuCreationError,
    /// The initial register state could not be written.
    RegisterWriteError,
    /// The hypervisor reported an unrecoverable condition while running.
    VcpuRunError,
    /// A guest address lies outside every range of the address space.
    OutOfRange,
}

/// Process exit status after a clean halt or shutdown.
pub const EXIT_OK: i32 = 0;

/// Process exit status for a failure while setting up guest memory.
pub const EXIT_MEMORY_SETUP: i32 = 1;

/// Process exit status for a failure while loading the kernel image.
pub const EXIT_IMAGE_LOAD: i32 = 2;

/// Process exit status for a failure while initializing the vCPU.
pub const EXIT_VCPU_INIT: i32 = 3;

/// Process exit status for a fatal error reported while the vCPU ran.
pub const EXIT_RUN_ERROR: i32 = 4;

/// The exit status that identifies the category of an error.
pub open spec fn exit_code_spec(e: VmmError) -> i32 {
    match e {
        VmmError::AllocationError | VmmError::RegistrationError | VmmError::OutOfRange => EXIT_MEMORY_SETUP,
        VmmError::UnsupportedFormat | VmmError::ImageTooLarge | VmmError::RelocationError => EXIT_IMAGE_LOAD,
        VmmError::VcpuCreationError | VmmError::RegisterWriteError => EXIT_VCPU_INIT,
        VmmError::VcpuRunError => EXIT_RUN_ERROR,
    }
}

impl VmmError {
    /// The process exit status for this error: never zero, and the same
    /// for every error of one category (memory setup, image load, vCPU
    /// initialization, run).
    pub fn exit_code(&self) -> (r: i32)
        ensures
            r == exit_code_spec(*self),
            r != EXIT_OK,
    {
        match self {
            VmmError::AllocationError | VmmError::RegistrationError | VmmError::OutOfRange => EXIT_MEMORY_SETUP,
            VmmError::UnsupportedFormat | VmmError::ImageTooLarge | VmmError::RelocationError => EXIT_IMAGE_LOAD,
            VmmError::VcpuCreationError | VmmError::RegisterWriteError => EXIT_VCPU_INIT,
            VmmError::VcpuRunError => EXIT_RUN_ERROR,
        }
    }
}

} // verus!
