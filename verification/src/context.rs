//! Register save/load and mode-switch primitives.
//!
//! A thread's full execution context is a fixed-order file of 17 machine
//! words: r0-r12, the stack pointer, the link register, one reserved word
//! where a program counter would sit, and the processor status word. On a
//! real board these routines are a handful of instructions; here the machine
//! context is an explicit value, so what each routine moves where is stated
//! and proved. A thread resumes through its link register: the reserved
//! program-counter word is written on fork but never consulted by `load`.

use vstd::prelude::*;

use crate::bits::{spec_bit, spec_field};

verus! {

/// Words in a register file.
pub const NUM_REGS: usize = 17;

/// Index of the argument register (r0).
pub const REG_ARG: usize = 0;

/// Index of the stack pointer (r13).
pub const REG_SP: usize = 13;

/// Index of the link register (r14).
pub const REG_LR: usize = 14;

/// Index of the reserved program-counter word; written on fork, never read.
pub const REG_PC: usize = 15;

/// Index of the processor status word.
pub const REG_CPSR: usize = 16;

/// Mode field of the status word for unprivileged thread execution.
pub const MODE_USER: u32 = 0x10;

/// Mode field of the status word for the privileged scheduler context.
pub const MODE_SVC: u32 = 0x13;

/// Bit of the status word that masks the interrupt line when set.
pub const IRQ_MASK_BIT: u8 = 7;

/// The execution context a thread sees: general-purpose registers r0-r12,
/// stack pointer, link register and processor status word.
pub struct Cpu {
    pub gp: Vec<u32>,
    pub sp: u32,
    pub lr: u32,
    pub cpsr: u32,
}

/// Mathematical model of an execution context.
#[verifier::ext_equal]
pub struct CpuModel {
    pub gp: Seq<u32>,
    pub sp: u32,
    pub lr: u32,
    pub cpsr: u32,
}

impl CpuModel {
    /// There are exactly thirteen general-purpose registers, r0-r12.
    pub open spec fn wf(self) -> bool {
        self.gp.len() == 13
    }
}

impl View for Cpu {
    type V = CpuModel;

    open spec fn view(&self) -> CpuModel {
        CpuModel { gp: self.gp@, sp: self.sp, lr: self.lr, cpsr: self.cpsr }
    }
}

impl Cpu {
    /// There are exactly thirteen general-purpose registers, r0-r12.
    pub open spec fn wf(self) -> bool {
        self@.wf()
    }
}

/// A register file holds exactly `NUM_REGS` words.
pub open spec fn regfile_wf(r: Seq<u32>) -> bool {
    r.len() == NUM_REGS
}

/// The register file that capturing `cpu` into a buffer `dest` produces:
/// r0-r12, sp and lr in order, the reserved word kept from the buffer, and
/// the status word last.
pub open spec fn spec_save(cpu: CpuModel, dest: Seq<u32>) -> Seq<u32> {
    Seq::new(
        NUM_REGS as nat,
        |i: int|
            if 0 <= i < 13 {
                cpu.gp[i]
            } else if i == REG_SP {
                cpu.sp
            } else if i == REG_LR {
                cpu.lr
            } else if i == REG_PC {
                dest[i]
            } else {
                cpu.cpsr
            },
    )
}

/// The execution context that loading the register file `r` installs.
pub open spec fn spec_load(r: Seq<u32>) -> CpuModel {
    CpuModel {
        gp: Seq::new(13, |i: int| r[i]),
        sp: r[REG_SP as int],
        lr: r[REG_LR as int],
        cpsr: r[REG_CPSR as int],
    }
}

/// Captures the calling context into `dest`: r0-r12, sp, lr and the status
/// word, in the fixed file order. The reserved program-counter word of the
/// buffer is left as it was.
pub fn save_registers(cpu: &Cpu, dest: &mut Vec<u32>)
    requires
        cpu.wf(),
        regfile_wf(old(dest)@),
    ensures
        final(dest)@ == spec_save(cpu@, old(dest)@),
{
    let mut i: usize = 0;
    while i < 13
        invariant
            i <= 13,
            cpu.wf(),
            dest@.len() == NUM_REGS,
            forall|j: int| 0 <= j < i ==> dest@[j] == cpu.gp@[j],
            forall|j: int| i <= j < NUM_REGS ==> dest@[j] == old(dest)@[j],
        decreases 13 - i,
    {
        let w = cpu.gp[i];
        dest.set(i, w);
        i += 1;
    }
    dest.set(REG_SP, cpu.sp);
    dest.set(REG_LR, cpu.lr);
    dest.set(REG_CPSR, cpu.cpsr);
    proof {
        assert(dest@ =~= spec_save(cpu@, old(dest)@));
    }
}

/// Installs the register file `r` as the running context: status word first
/// (mode and mask take effect before the banked registers), then r0-r12, the
/// stack pointer and the link register. On a real board the final indirect
/// branch through the link register resumes the target thread, so this
/// routine's result is the context execution continues in, at the address in
/// its `lr`.
pub fn load_registers(r: &Vec<u32>) -> (cpu: Cpu)
    requires
        regfile_wf(r@),
    ensures
        cpu@ == spec_load(r@),
        cpu.wf(),
{
    let mut gp: Vec<u32> = Vec::new();
    let mut i: usize = 0;
    while i < 13
        invariant
            i <= 13,
            r@.len() == NUM_REGS,
            gp@.len() == i,
            forall|j: int| 0 <= j < i ==> gp@[j] == r@[j],
        decreases 13 - i,
    {
        let w = r[i];
        gp.push(w);
        i += 1;
    }
    let cpu = Cpu { gp, sp: r[REG_SP], lr: r[REG_LR], cpsr: r[REG_CPSR] };
    proof {
        assert(cpu@.gp =~= spec_load(r@).gp);
        assert(cpu@ =~= spec_load(r@));
    }
    cpu
}

/// A context captured and then loaded from the same buffer is restored
/// exactly: every general-purpose register, the stack pointer, the link
/// register and the status word come back unchanged, so execution resumes
/// right after the capture.
pub proof fn lemma_save_load_roundtrip(cpu: CpuModel, dest: Seq<u32>)
    requires
        cpu.wf(),
        regfile_wf(dest),
    ensures
        spec_load(spec_save(cpu, dest)) == cpu,
{
    assert(spec_load(spec_save(cpu, dest)).gp =~= cpu.gp);
    assert(spec_load(spec_save(cpu, dest)) =~= cpu);
}

/// Loading a register file and capturing the resulting context back over the
/// same buffer reproduces the file word for word, the reserved word included.
pub proof fn lemma_load_save_roundtrip(r: Seq<u32>)
    requires
        regfile_wf(r),
    ensures
        spec_save(spec_load(r), r) == r,
{
    assert(spec_save(spec_load(r), r) =~= r);
}

/// The status word after moving to the privileged scheduler context: mode
/// field set to supervisor, interrupt line masked, every other bit kept.
pub open spec fn spec_scheduler_cpsr(cpsr: u32) -> u32 {
    ((cpsr & !0x9fu32) | 0x93u32) as u32
}

/// Moves the processor into the privileged scheduler context and masks the
/// interrupt line, as a prerequisite for touching scheduler state. Only the
/// status word changes: the mode field becomes supervisor and the mask bit is
/// set; all other bits, the flags included, are preserved.
pub fn switch_to_scheduler(cpsr: u32) -> (r: u32)
    ensures
        r == spec_scheduler_cpsr(cpsr),
        spec_field(r, 4, 0) == MODE_SVC,
        spec_bit(r, IRQ_MASK_BIT),
        forall|j: u8| 7 < j < 32 ==> spec_bit(r, j) == spec_bit(cpsr, j),
        spec_bit(r, 5) == spec_bit(cpsr, 5) && spec_bit(r, 6) == spec_bit(cpsr, 6),
{
    let r = (cpsr & !0x9fu32) | 0x93;
    proof {
        assert(r == ((cpsr & !0x9fu32) | 0x93u32) ==> spec_field(r, 4, 0) == 0x13u32) by (bit_vector);
        assert(r == ((cpsr & !0x9fu32) | 0x93u32) ==> spec_bit(r, 7) && spec_bit(r, 5) == spec_bit(
            cpsr,
            5,
        ) && spec_bit(r, 6) == spec_bit(cpsr, 6)) by (bit_vector);
        assert forall|j: u8| 7 < j < 32 implies spec_bit(r, j) == spec_bit(cpsr, j) by {
            assert(7 < j < 32 && r == ((cpsr & !0x9fu32) | 0x93u32) ==> spec_bit(r, j) == spec_bit(
                cpsr,
                j,
            )) by (bit_vector);
        }
    }
    r
}

} // verus!
