use vstd::prelude::*;
use crate::allocator::{alloc_pages, fits, spec_round_up, BumpAllocator, PAGE_SIZE};
use crate::guest_page_table::GuestPageTable;

verus! {

/// Size of the dedicated host stack each guest context owns; the trap
/// gateway switches to its top on every exit from the guest.
pub const HOST_STACK_SIZE: u64 = 524288;

/// Saved register and CSR context for one guest: the full general-purpose
/// register file plus the hypervisor-level CSR snapshot the world switch
/// loads before dropping into guest mode.
#[derive(Debug, Clone, Copy, PartialEq, Eq, Structural)]
pub struct VCpu {
    /// Selects guest virtual-supervisor execution for the next trap return.
    pub hstatus: u64,
    /// Translation-root descriptor, derived from the guest's page table.
    pub hgatp: u64,
    /// Selects the privilege the trap return lands in.
    pub sstatus: u64,
    /// Program counter the guest resumes at.
    pub sepc: u64,
    /// Top of the host stack, restored by the trap gateway on guest exit.
    pub host_sp: u64,
    pub ra: u64,
    pub sp: u64,
    pub gp: u64,
    pub tp: u64,
    pub t0: u64,
    pub t1: u64,
    pub t2: u64,
    pub s0: u64,
    pub s1: u64,
    pub a0: u64,
    pub a1: u64,
    pub a2: u64,
    pub a3: u64,
    pub a4: u64,
    pub a5: u64,
    pub a6: u64,
    pub a7: u64,
    pub s2: u64,
    pub s3: u64,
    pub s4: u64,
    pub s5: u64,
    pub s6: u64,
    pub s7: u64,
    pub s8: u64,
    pub s9: u64,
    pub s10: u64,
    pub s11: u64,
    pub t3: u64,
    pub t4: u64,
    pub t5: u64,
    pub t6: u64,
}

impl VCpu {
    /// Builds the initial context for a guest that enters at `guest_entry`
    /// under the given page table: virtual-supervisor mode selected, a fresh
    /// host stack allocated, and every guest-visible register zeroed.
    pub fn new(table: &GuestPageTable, palloc: &mut BumpAllocator, guest_entry: u64) -> (r: VCpu)
        requires
            table.wf(),
            old(palloc).active,
            old(palloc).wf(),
            fits(*old(palloc), HOST_STACK_SIZE as int, PAGE_SIZE as int),
        ensures
            final(palloc).active,
            final(palloc).wf(),
            final(palloc).end == old(palloc).end,
            final(palloc).next >= old(palloc).next,
            final(palloc).next == r.host_sp,
            r.hstatus == (2u64 << 32) | (1u64 << 7),
            r.sstatus == 1u64 << 8,
            r.hgatp == (9u64 << 60) | (table.tables@[0].addr >> 12),
            r.sepc == guest_entry,
            r.host_sp == spec_round_up(old(palloc).next as int, PAGE_SIZE as int)
                + HOST_STACK_SIZE,
            r.ra == 0 && r.sp == 0 && r.gp == 0 && r.tp == 0,
            r.t0 == 0 && r.t1 == 0 && r.t2 == 0 && r.t3 == 0 && r.t4 == 0 && r.t5 == 0 && r.t6
                == 0,
            r.s0 == 0 && r.s1 == 0 && r.s2 == 0 && r.s3 == 0 && r.s4 == 0 && r.s5 == 0 && r.s6
                == 0 && r.s7 == 0 && r.s8 == 0 && r.s9 == 0 && r.s10 == 0 && r.s11 == 0,
            r.a0 == 0 && r.a1 == 0 && r.a2 == 0 && r.a3 == 0 && r.a4 == 0 && r.a5 == 0 && r.a6
                == 0 && r.a7 == 0,
    {
        // came-from-virtual-supervisor and return-to-virtual-supervisor bits
        let mut hstatus: u64 = 0;
        hstatus = hstatus | (2u64 << 32);
        hstatus = hstatus | (1u64 << 7);
        // return to supervisor privilege on the trap-return instruction
        let sstatus: u64 = 1u64 << 8;
        let stack_base = match alloc_pages(palloc, HOST_STACK_SIZE) {
            Ok(addr) => addr,
            Err(_) => {
                proof {
                    assert(false);
                }
                0
            },
        };
        let host_sp = stack_base + HOST_STACK_SIZE;
        proof {
            assert(0u64 | (2u64 << 32) | (1u64 << 7) == (2u64 << 32) | (1u64 << 7)) by (bit_vector);
        }
        VCpu {
            hstatus,
            hgatp: table.hgatp(),
            sstatus,
            sepc: guest_entry,
            host_sp,
            ra: 0,
            sp: 0,
            gp: 0,
            tp: 0,
            t0: 0,
            t1: 0,
            t2: 0,
            s0: 0,
            s1: 0,
            a0: 0,
            a1: 0,
            a2: 0,
            a3: 0,
            a4: 0,
            a5: 0,
            a6: 0,
            a7: 0,
            s2: 0,
            s3: 0,
            s4: 0,
            s5: 0,
            s6: 0,
            s7: 0,
            s8: 0,
            s9: 0,
            s10: 0,
            s11: 0,
            t3: 0,
            t4: 0,
            t5: 0,
            t6: 0,
        }
    }
}

} // verus!
