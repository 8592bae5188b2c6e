//! Core of a minimal KVM virtual-machine monitor: the guest address space
//! over memory mapped with vm-memory, the memory regions handed to KVM, the
//! kernel-image check and its loading with linux-loader, the initial vCPU
//! register state, and the exit-dispatch state machine of the run loop.
pub mod backing;
pub mod dispatch;
pub mod error;
pub mod loader;
pub mod region;
pub mod space;
pub mod vcpu;
pub mod vmm;
