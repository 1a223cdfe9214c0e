//! The verified core of a minimal type-1 hypervisor for a 64-bit RISC-V
//! core with the hardware virtualization extension: the physical bump
//! allocator, the two-stage guest page table with its mapping walk, the
//! per-guest register/CSR context, and the trap-cause dispatcher. The
//! assembly world switch, the trap-vector trampoline and console output sit
//! outside, in the host driver around this library.

use vstd::prelude::*;

pub mod allocator;
pub mod guest_page_table;
pub mod trap;
pub mod vcpu;

verus! {

/// The two recoverable-at-the-boundary faults the hypervisor core can report.
/// Both are fatal to the machine: the driver that receives one prints a
/// diagnostic and halts instead of re-entering the guest.
#[derive(Clone, Copy, PartialEq, Eq, Structural, Debug)]
pub enum HvError {
    /// A reservation would have run past the end of the physical heap extent.
    OutOfMemory,
    /// A guest-physical page that is already mapped was mapped a second time.
    AlreadyMapped,
}

} // verus!
