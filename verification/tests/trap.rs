use hypervisor::allocator::BumpAllocator;
use hypervisor::guest_page_table::GuestPageTable;
use hypervisor::trap::{classify, handle_trap, TrapCause, TrapOutcome};
use hypervisor::vcpu::VCpu;

fn boot_vcpu(entry: u64) -> VCpu {
    let mut a = BumpAllocator::new();
    a.init(0x8000_0000, 0x8100_0000);
    let gpt = GuestPageTable::new(&mut a);
    VCpu::new(&gpt, &mut a, entry)
}

#[test]
fn classify_names_every_architected_cause() {
    let table: [(u64, TrapCause); 31] = [
        (0, TrapCause::InstructionAddressMisaligned),
        (1, TrapCause::InstructionAccessFault),
        (2, TrapCause::IllegalInstruction),
        (3, TrapCause::Breakpoint),
        (4, TrapCause::LoadAddressMisaligned),
        (5, TrapCause::LoadAccessFault),
        (6, TrapCause::StoreAddressMisaligned),
        (7, TrapCause::StoreAccessFault),
        (8, TrapCause::EcallFromUOrVu),
        (9, TrapCause::EcallFromHs),
        (10, TrapCause::EcallFromVs),
        (11, TrapCause::EcallFromM),
        (12, TrapCause::InstructionPageFault),
        (13, TrapCause::LoadPageFault),
        (15, TrapCause::StorePageFault),
        (20, TrapCause::InstructionGuestPageFault),
        (21, TrapCause::LoadGuestPageFault),
        (22, TrapCause::VirtualInstruction),
        (23, TrapCause::StoreGuestPageFault),
        (0x8000_0000_0000_0000, TrapCause::UserSoftwareInterrupt),
        (0x8000_0000_0000_0001, TrapCause::SupervisorSoftwareInterrupt),
        (0x8000_0000_0000_0002, TrapCause::HypervisorSoftwareInterrupt),
        (0x8000_0000_0000_0003, TrapCause::MachineSoftwareInterrupt),
        (0x8000_0000_0000_0004, TrapCause::UserTimerInterrupt),
        (0x8000_0000_0000_0005, TrapCause::SupervisorTimerInterrupt),
        (0x8000_0000_0000_0006, TrapCause::HypervisorTimerInterrupt),
        (0x8000_0000_0000_0007, TrapCause::MachineTimerInterrupt),
        (0x8000_0000_0000_0008, TrapCause::UserExternalInterrupt),
        (0x8000_0000_0000_0009, TrapCause::SupervisorExternalInterrupt),
        (0x8000_0000_0000_000a, TrapCause::HypervisorExternalInterrupt),
        (0x8000_0000_0000_000b, TrapCause::MachineExternalInterrupt),
    ];
    for (code, cause) in table {
        assert_eq!(classify(code), cause);
    }
    assert_eq!(classify(14), TrapCause::Unknown);
    assert_eq!(classify(24), TrapCause::Unknown);
    assert_eq!(classify(0x1234), TrapCause::Unknown);
    assert_eq!(classify(0x8000_0000_0000_000c), TrapCause::Unknown);
}

#[test]
fn vcpu_new_selects_guest_mode_and_zeroes_registers() {
    let mut a = BumpAllocator::new();
    a.init(0x8000_0000, 0x8100_0000);
    let gpt = GuestPageTable::new(&mut a);
    let vcpu = VCpu::new(&gpt, &mut a, 0x10_0000);
    assert_eq!(vcpu.hstatus, (2u64 << 32) | (1 << 7));
    assert_eq!(vcpu.sstatus, 1 << 8);
    assert_eq!(vcpu.hgatp, gpt.hgatp());
    assert_eq!(vcpu.sepc, 0x10_0000);
    assert_eq!(vcpu.host_sp % 4096, 0);
    assert_eq!(vcpu.host_sp, a.next);
    assert_eq!(vcpu.a0, 0);
    assert_eq!(vcpu.a7, 0);
    assert_eq!(vcpu.ra, 0);
    assert_eq!(vcpu.sp, 0);
    assert_eq!(vcpu.t6, 0);
    assert_eq!(vcpu.s11, 0);
}

#[test]
fn guest_putchar_call_emits_byte_and_advances_resume_counter() {
    let entry = 0x10_0000u64;
    let mut vcpu = boot_vcpu(entry);
    vcpu.a7 = 1;
    vcpu.a6 = 0;
    vcpu.a0 = 0x41;
    let before = vcpu;
    let out = handle_trap(&mut vcpu, 10, entry, 0);
    assert_eq!(out, TrapOutcome::Resume { putchar: Some(0x41) });
    // sepc moved past the call instruction; every other register is exactly
    // what the guest trapped with
    let expected = VCpu { sepc: entry + 4, ..before };
    assert_eq!(vcpu, expected);
}

#[test]
fn guest_ecall_with_other_extension_resumes_without_output() {
    let entry = 0x10_0000u64;
    let mut vcpu = boot_vcpu(entry);
    vcpu.a7 = 2;
    vcpu.a0 = 0x41;
    let out = handle_trap(&mut vcpu, 10, entry, 0);
    assert_eq!(out, TrapOutcome::Resume { putchar: None });
    assert_eq!(vcpu.sepc, entry + 4);
}

#[test]
fn unmodeled_cause_is_fatal_and_never_resumes() {
    let entry = 0x10_0000u64;
    let mut vcpu = boot_vcpu(entry);
    let before = vcpu;
    let out = handle_trap(&mut vcpu, 0x1234, entry, 0xdead);
    match out {
        TrapOutcome::Fatal { cause, sepc, stval } => {
            assert_eq!(cause, TrapCause::Unknown);
            assert_eq!(sepc, entry);
            assert_eq!(stval, 0xdead);
        }
        TrapOutcome::Resume { .. } => panic!("an unmodeled cause must halt, not resume"),
    }
    assert_eq!(vcpu, before);
}

#[test]
fn recognized_but_unhandled_cause_is_fatal_with_its_name() {
    let mut vcpu = boot_vcpu(0x10_0000);
    let before = vcpu;
    let out = handle_trap(&mut vcpu, 13, 0x10_0040, 0x7777);
    assert_eq!(
        out,
        TrapOutcome::Fatal { cause: TrapCause::LoadPageFault, sepc: 0x10_0040, stval: 0x7777 }
    );
    assert_eq!(vcpu, before);
}
