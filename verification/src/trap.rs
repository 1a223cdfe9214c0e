use vstd::prelude::*;
use crate::vcpu::VCpu;

verus! {

/// Trap cause code of an environment call issued from guest (virtual)
/// supervisor mode: the one cause the hypervisor handles.
pub const SCAUSE_ECALL_FROM_VS: u64 = 10;

/// Firmware-call extension id of the console-putchar service.
pub const SBI_EXT_PUTCHAR: u64 = 1;

/// The architected trap causes the dispatcher can name, plus `Unknown` for
/// any code outside the table.
#[derive(Debug, Clone, Copy, PartialEq, Eq, Structural)]
pub enum TrapCause {
    InstructionAddressMisaligned,
    InstructionAccessFault,
    IllegalInstruction,
    Breakpoint,
    LoadAddressMisaligned,
    LoadAccessFault,
    StoreAddressMisaligned,
    StoreAccessFault,
    EcallFromUOrVu,
    EcallFromHs,
    EcallFromVs,
    EcallFromM,
    InstructionPageFault,
    LoadPageFault,
    StorePageFault,
    InstructionGuestPageFault,
    LoadGuestPageFault,
    VirtualInstruction,
    StoreGuestPageFault,
    UserSoftwareInterrupt,
    SupervisorSoftwareInterrupt,
    HypervisorSoftwareInterrupt,
    MachineSoftwareInterrupt,
    UserTimerInterrupt,
    SupervisorTimerInterrupt,
    HypervisorTimerInterrupt,
    MachineTimerInterrupt,
    UserExternalInterrupt,
    SupervisorExternalInterrupt,
    HypervisorExternalInterrupt,
    MachineExternalInterrupt,
    Unknown,
}

/// The exhaustive cause table: which architected cause a raw cause-register
/// value names.
pub open spec fn spec_classify(scause: u64) -> TrapCause {
    if scause == 0 {
        TrapCause::InstructionAddressMisaligned
    } else if scause == 1 {
        TrapCause::InstructionAccessFault
    } else if scause == 2 {
        TrapCause::IllegalInstruction
    } else if scause == 3 {
        TrapCause::Breakpoint
    } else if scause == 4 {
        TrapCause::LoadAddressMisaligned
    } else if scause == 5 {
        TrapCause::LoadAccessFault
    } else if scause == 6 {
        TrapCause::StoreAddressMisaligned
    } else if scause == 7 {
        TrapCause::StoreAccessFault
    } else if scause == 8 {
        TrapCause::EcallFromUOrVu
    } else if scause == 9 {
        TrapCause::EcallFromHs
    } else if scause == 10 {
        TrapCause::EcallFromVs
    } else if scause == 11 {
        TrapCause::EcallFromM
    } else if scause == 12 {
        TrapCause::InstructionPageFault
    } else if scause == 13 {
        TrapCause::LoadPageFault
    } else if scause == 15 {
        TrapCause::StorePageFault
    } else if scause == 20 {
        TrapCause::InstructionGuestPageFault
    } else if scause == 21 {
        TrapCause::LoadGuestPageFault
    } else if scause == 22 {
        TrapCause::VirtualInstruction
    } else if scause == 23 {
        TrapCause::StoreGuestPageFault
    } else if scause == 0x8000_0000_0000_0000 {
        TrapCause::UserSoftwareInterrupt
    } else if scause == 0x8000_0000_0000_0001 {
        TrapCause::SupervisorSoftwareInterrupt
    } else if scause == 0x8000_0000_0000_0002 {
        TrapCause::HypervisorSoftwareInterrupt
    } else if scause == 0x8000_0000_0000_0003 {
        TrapCause::MachineSoftwareInterrupt
    } else if scause == 0x8000_0000_0000_0004 {
        TrapCause::UserTimerInterrupt
    } else if scause == 0x8000_0000_0000_0005 {
        TrapCause::SupervisorTimerInterrupt
    } else if scause == 0x8000_0000_0000_0006 {
        TrapCause::HypervisorTimerInterrupt
    } else if scause == 0x8000_0000_0000_0007 {
        TrapCause::MachineTimerInterrupt
    } else if scause == 0x8000_0000_0000_0008 {
        TrapCause::UserExternalInterrupt
    } else if scause == 0x8000_0000_0000_0009 {
        TrapCause::SupervisorExternalInterrupt
    } else if scause == 0x8000_0000_0000_000a {
        TrapCause::HypervisorExternalInterrupt
    } else if scause == 0x8000_0000_0000_000b {
        TrapCause::MachineExternalInterrupt
    } else {
        TrapCause::Unknown
    }
}

/// Names the architected cause for a raw cause-register value.
pub fn classify(scause: u64) -> (r: TrapCause)
    ensures
        r == spec_classify(scause),
{
    if scause == 0 {
        TrapCause::InstructionAddressMisaligned
    } else if scause == 1 {
        TrapCause::InstructionAccessFault
    } else if scause == 2 {
        TrapCause::IllegalInstruction
    } else if scause == 3 {
        TrapCause::Breakpoint
    } else if scause == 4 {
        TrapCause::LoadAddressMisaligned
    } else if scause == 5 {
        TrapCause::LoadAccessFault
    } else if scause == 6 {
        TrapCause::StoreAddressMisaligned
    } else if scause == 7 {
        TrapCause::StoreAccessFault
    } else if scause == 8 {
        TrapCause::EcallFromUOrVu
    } else if scause == 9 {
        TrapCause::EcallFromHs
    } else if scause == 10 {
        TrapCause::EcallFromVs
    } else if scause == 11 {
        TrapCause::EcallFromM
    } else if scause == 12 {
        TrapCause::InstructionPageFault
    } else if scause == 13 {
        TrapCause::LoadPageFault
    } else if scause == 15 {
        TrapCause::StorePageFault
    } else if scause == 20 {
        TrapCause::InstructionGuestPageFault
    } else if scause == 21 {
        TrapCause::LoadGuestPageFault
    } else if scause == 22 {
        TrapCause::VirtualInstruction
    } else if scause == 23 {
        TrapCause::StoreGuestPageFault
    } else if scause == 0x8000_0000_0000_0000 {
        TrapCause::UserSoftwareInterrupt
    } else if scause == 0x8000_0000_0000_0001 {
        TrapCause::SupervisorSoftwareInterrupt
    } else if scause == 0x8000_0000_0000_0002 {
        TrapCause::HypervisorSoftwareInterrupt
    } else if scause == 0x8000_0000_0000_0003 {
        TrapCause::MachineSoftwareInterrupt
    } else if scause == 0x8000_0000_0000_0004 {
        TrapCause::UserTimerInterrupt
    } else if scause == 0x8000_0000_0000_0005 {
        TrapCause::SupervisorTimerInterrupt
    } else if scause == 0x8000_0000_0000_0006 {
        TrapCause::HypervisorTimerInterrupt
    } else if scause == 0x8000_0000_0000_0007 {
        TrapCause::MachineTimerInterrupt
    } else if scause == 0x8000_0000_0000_0008 {
        TrapCause::UserExternalInterrupt
    } else if scause == 0x8000_0000_0000_0009 {
        TrapCause::SupervisorExternalInterrupt
    } else if scause == 0x8000_0000_0000_000a {
        TrapCause::HypervisorExternalInterrupt
    } else if scause == 0x8000_0000_0000_000b {
        TrapCause::MachineExternalInterrupt
    } else {
        TrapCause::Unknown
    }
}

/// What the dispatcher decided: either resume the guest (emitting at most
/// one console byte first), or halt the hypervisor with the diagnostic the
/// driver prints. After a `Fatal` outcome the guest is never entered again.
#[derive(Debug, Clone, Copy, PartialEq, Eq, Structural)]
pub enum TrapOutcome {
    /// Re-enter the guest; `putchar` carries the byte the one emulated
    /// console call asked to print, if that call was made.
    Resume { putchar: Option<u8> },
    /// Halt: the cause, the trapping program counter and the trap value.
    Fatal { cause: TrapCause, sepc: u64, stval: u64 },
}

/// Decodes one trap taken from the guest, given the three trap-diagnostic
/// CSR values the gateway read.
///
/// Only an environment call from guest supervisor mode is handled: the saved
/// resume counter moves past the call instruction and the guest resumes,
/// with the call emulated (a console byte emitted) exactly when it asked for
/// the putchar extension. No saved register changes. Every other cause is
/// fatal and leaves the context untouched.
pub fn handle_trap(vcpu: &mut VCpu, scause: u64, sepc: u64, stval: u64) -> (r: TrapOutcome)
    requires
        scause == SCAUSE_ECALL_FROM_VS ==> sepc + 4 <= u64::MAX,
    ensures
        scause == SCAUSE_ECALL_FROM_VS ==> *final(vcpu) == (VCpu {
            sepc: (sepc + 4) as u64,
            ..*old(vcpu)
        }),
        scause == SCAUSE_ECALL_FROM_VS ==> r == (TrapOutcome::Resume {
            putchar: if old(vcpu).a7 == SBI_EXT_PUTCHAR {
                Some(old(vcpu).a0 as u8)
            } else {
                None
            },
        }),
        scause != SCAUSE_ECALL_FROM_VS ==> *final(vcpu) == *old(vcpu) && r
            == (TrapOutcome::Fatal { cause: spec_classify(scause), sepc, stval }),
{
    if scause == SCAUSE_ECALL_FROM_VS {
        let putchar = if vcpu.a7 == SBI_EXT_PUTCHAR {
            Some(vcpu.a0 as u8)
        } else {
            None
        };
        vcpu.sepc = sepc + 4;
        TrapOutcome::Resume { putchar }
    } else {
        TrapOutcome::Fatal { cause: classify(scause), sepc, stval }
    }
}

} // verus!
