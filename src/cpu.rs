use crate::decode::{j_imm_of, j_offset, lemma_j_imm_value, opcode_of, rd_of, Insn};
use crate::memory::{read_word, span_mapped, Memory};
use vstd::prelude::*;

verus! {

/// The length of an instruction in bytes.
pub const INSN_LEN: u32 = 4;

/// The opcode of jump-and-link.
pub const OPCODE_JAL: u8 = 0x6f;

/// `a + b` modulo 2^32.
pub open spec fn add_mod(a: u32, b: u32) -> u32 {
    ((a as int + b as int) % 0x1_0000_0000) as u32
}

/// What one step did, when it ran an instruction.
#[derive(Debug, Clone, Copy, PartialEq, Eq, Structural)]
pub enum Event {
    /// A jump-and-link to `pc + offset` that saved the return address in `rd`,
    /// unless `rd` is register 0.
    Jump { rd: usize, offset: u32 },
    /// An instruction whose opcode no family handles; execution falls through
    /// to the next instruction.
    InvalidOpcode { opcode: u8, pc: u32, insn: u32 },
}

/// Why a step could not run an instruction. The CPU halts on it.
#[derive(Debug, Clone, Copy, PartialEq, Eq, Structural)]
pub enum Fault {
    /// The four bytes at the program counter do not lie in one segment, or
    /// not in the backing store.
    FetchOutOfBounds { pc: u32 },
}

/// The architectural state of a CPU.
pub struct CpuState {
    pub regs: Seq<u32>,
    pub pc: u32,
    pub halted: bool,
}

/// The effect of one step on `s`, over a memory of segments `m` and backing
/// store `b`, with what the step reports.
pub open spec fn step_spec(m: Map<u64, (u64, u64)>, b: Seq<u8>, s: CpuState) -> (CpuState, Result<Event, Fault>) {
    match read_word(m, b, s.pc as u64) {
        None => (CpuState { halted: true, ..s }, Err(Fault::FetchOutOfBounds { pc: s.pc })),
        Some(w) => if opcode_of(w) == OPCODE_JAL {
            let rd = rd_of(w);
            let regs = if rd == 0 { s.regs } else { s.regs.update(rd as int, add_mod(s.pc, INSN_LEN)) };
            (
                CpuState { regs, pc: add_mod(s.pc, j_imm_of(w)), halted: false },
                Ok(Event::Jump { rd, offset: j_imm_of(w) }),
            )
        } else {
            (
                CpuState { regs: s.regs, pc: add_mod(s.pc, INSN_LEN), halted: false },
                Ok(Event::InvalidOpcode { opcode: opcode_of(w), pc: s.pc, insn: w }),
            )
        },
    }
}

/// Why a run returned.
#[derive(Debug, Clone, Copy, PartialEq, Eq, Structural)]
pub enum Stop {
    /// The step budget ran out, or the CPU had halted already.
    Paused,
    /// An instruction with an unhandled opcode was skipped; the runner decides
    /// whether to report it and go on, or to stop.
    InvalidOpcode { opcode: u8, pc: u32, insn: u32 },
    /// A step faulted and the CPU halted.
    Fault(Fault),
}

/// Steps from `s` until `fuel` steps have run, an unhandled opcode was
/// skipped, or a step faulted.
pub open spec fn run_spec(m: Map<u64, (u64, u64)>, b: Seq<u8>, s: CpuState, fuel: nat) -> (CpuState, Stop)
    decreases fuel,
{
    if fuel == 0 || s.halted {
        (s, Stop::Paused)
    } else {
        let (next, r) = step_spec(m, b, s);
        match r {
            Err(f) => (next, Stop::Fault(f)),
            Ok(Event::InvalidOpcode { opcode, pc, insn }) => (next, Stop::InvalidOpcode { opcode, pc, insn }),
            Ok(Event::Jump { .. }) => run_spec(m, b, next, (fuel - 1) as nat),
        }
    }
}

/// An instruction whose opcode is not jump-and-link changes no register, moves
/// the program counter to the next instruction, and is reported once as an
/// invalid opcode with the opcode, the program counter and the word.
pub proof fn lemma_unrecognized_falls_through(m: Map<u64, (u64, u64)>, b: Seq<u8>, s: CpuState, w: u32)
    requires
        read_word(m, b, s.pc as u64) == Some(w),
        opcode_of(w) != OPCODE_JAL,
    ensures
        step_spec(m, b, s).0.regs == s.regs,
        step_spec(m, b, s).0.pc == add_mod(s.pc, 4),
        step_spec(m, b, s).1 == Ok::<Event, Fault>(Event::InvalidOpcode { opcode: opcode_of(w), pc: s.pc, insn: w }),
{
}

/// A jump-and-link with offset +8 and a destination register other than 0
/// saves `pc + 4` there and moves the program counter to `pc + 8`.
pub proof fn lemma_jump_links(m: Map<u64, (u64, u64)>, b: Seq<u8>, s: CpuState, w: u32)
    requires
        s.regs.len() == 32,
        read_word(m, b, s.pc as u64) == Some(w),
        opcode_of(w) == OPCODE_JAL,
        j_offset(w) == 8,
        rd_of(w) != 0,
    ensures
        step_spec(m, b, s).0.regs[rd_of(w) as int] == add_mod(s.pc, 4),
        step_spec(m, b, s).0.pc == add_mod(s.pc, 8),
        forall|i: int| 0 <= i < 32 && i != rd_of(w) ==> step_spec(m, b, s).0.regs[i] == s.regs[i],
{
    lemma_j_imm_value(w);
    assert(rd_of(w) < 32) by {
        assert((w >> 7) & 0x1f < 32) by (bit_vector);
    }
}

/// A step never changes register 0: it holds zero before and after.
pub proof fn lemma_x0_stays_zero(m: Map<u64, (u64, u64)>, b: Seq<u8>, s: CpuState)
    requires
        s.regs.len() == 32,
        s.regs[0] == 0,
    ensures
        step_spec(m, b, s).0.regs.len() == 32,
        step_spec(m, b, s).0.regs[0] == 0,
{
    if let Some(w) = read_word(m, b, s.pc as u64) {
        assert(rd_of(w) < 32) by {
            assert((w >> 7) & 0x1f < 32) by (bit_vector);
        }
    }
}

/// A jump-and-link moves the program counter by its signed offset, modulo
/// 2^32; backward when the offset is negative, so offset -4 from `pc >= 4`
/// lands on `pc - 4`.
pub proof fn lemma_jump_target(m: Map<u64, (u64, u64)>, b: Seq<u8>, s: CpuState, w: u32)
    requires
        read_word(m, b, s.pc as u64) == Some(w),
        opcode_of(w) == OPCODE_JAL,
    ensures
        step_spec(m, b, s).0.pc as int == (s.pc as int + j_offset(w)) % 0x1_0000_0000,
        j_offset(w) == -4 && s.pc >= 4 ==> step_spec(m, b, s).0.pc == s.pc - 4,
        j_offset(w) < 0 && s.pc as int + j_offset(w) >= 0 ==> step_spec(m, b, s).0.pc < s.pc,
{
    lemma_j_imm_value(w);
}

/// A fetch whose four bytes do not lie in one segment faults and halts the
/// CPU, leaving registers and program counter as they were.
pub proof fn lemma_fetch_outside_faults(m: Map<u64, (u64, u64)>, b: Seq<u8>, s: CpuState)
    requires
        !span_mapped(m, s.pc as u64),
    ensures
        read_word(m, b, s.pc as u64) is None,
        step_spec(m, b, s).1 == Err::<Event, Fault>(Fault::FetchOutOfBounds { pc: s.pc }),
        step_spec(m, b, s).0.halted,
        step_spec(m, b, s).0.regs == s.regs,
        step_spec(m, b, s).0.pc == s.pc,
{
}

/// A jump-and-link to itself that links into `x1` is a fixed point: however
/// many steps run, the program counter stays put and `x1` holds `pc + 4`.
pub proof fn lemma_self_jump_is_stable(m: Map<u64, (u64, u64)>, b: Seq<u8>, s: CpuState, w: u32, fuel: nat)
    requires
        s.regs.len() == 32,
        !s.halted,
        read_word(m, b, s.pc as u64) == Some(w),
        opcode_of(w) == OPCODE_JAL,
        rd_of(w) == 1,
        j_offset(w) == 0,
        fuel >= 1,
    ensures
        run_spec(m, b, s, fuel).1 == Stop::Paused,
        run_spec(m, b, s, fuel).0.pc == s.pc,
        run_spec(m, b, s, fuel).0.regs == s.regs.update(1, add_mod(s.pc, 4)),
    decreases fuel,
{
    lemma_j_imm_value(w);
    let next = step_spec(m, b, s).0;
    assert(next.pc == s.pc);
    if fuel > 1 {
        lemma_self_jump_is_stable(m, b, next, w, (fuel - 1) as nat);
        assert(next.regs.update(1, add_mod(s.pc, 4)) =~= s.regs.update(1, add_mod(s.pc, 4)));
    }
}

/// A RISC-V CPU: 32 general-purpose registers, register 0 wired to zero, and
/// the program counter, over its memory.
pub struct CPU {
    mem: Memory,
    regs: Vec<u32>,
    pc: u32,
    halted: bool,
}

impl CPU {
    pub closed spec fn state(&self) -> CpuState {
        CpuState { regs: self.regs@, pc: self.pc, halted: self.halted }
    }

    pub closed spec fn memory(&self) -> Memory {
        self.mem
    }

    /// Register 0 holds zero, and the memory's segments do not overlap.
    pub closed spec fn wf(&self) -> bool {
        &&& self.regs@.len() == 32
        &&& self.regs@[0] == 0
        &&& self.mem.wf()
    }

    /// A running CPU over `mem`, all registers zero, about to fetch at `pc`.
    pub fn new(mem: Memory, pc: u32) -> (r: CPU)
        requires
            mem.wf(),
        ensures
            r.wf(),
            r.memory() == mem,
            r.state().regs == Seq::new(32, |i: int| 0u32),
            r.state().pc == pc,
            !r.state().halted,
    {
        let mut regs: Vec<u32> = Vec::new();
        while regs.len() < 32
            invariant
                regs@.len() <= 32,
                forall|i: int| 0 <= i < regs@.len() ==> regs@[i] == 0,
            decreases 32 - regs@.len(),
        {
            regs.push(0);
        }
        assert(regs@ =~= Seq::new(32, |i: int| 0u32));
        CPU { mem, regs, pc, halted: false }
    }

    /// Fetches, decodes and executes the instruction at the program counter.
    /// A fetch outside the segments halts the CPU and is reported as a fault.
    pub fn exec(&mut self) -> (r: Result<Event, Fault>)
        requires
            old(self).wf(),
            !old(self).state().halted,
        ensures
            final(self).wf(),
            final(self).memory() == old(self).memory(),
            (final(self).state(), r) == step_spec(
                old(self).memory().segments(),
                old(self).memory().backing(),
                old(self).state(),
            ),
    {
        let raw_insn = match self.mem.read_u32(self.pc as u64) {
            Some(w) => w,
            None => {
                self.halted = true;
                return Err(Fault::FetchOutOfBounds { pc: self.pc });
            },
        };
        let insn = Insn(raw_insn);
        let opc = insn.get_opcode();
        let mut pc = self.pc.wrapping_add(INSN_LEN);
        let r = if opc == OPCODE_JAL {
            let rd = insn.get_rd();
            let offset = insn.get_j_imm();
            if rd != 0 {
                self.regs.set(rd, pc);
            }
            pc = self.pc.wrapping_add(offset);
            Event::Jump { rd, offset }
        } else {
            Event::InvalidOpcode { opcode: opc, pc: self.pc, insn: raw_insn }
        };
        self.pc = pc;
        Ok(r)
    }

    /// Whether the CPU has halted.
    pub fn halted(&self) -> (r: bool)
        ensures
            r == self.state().halted,
    {
        self.halted
    }

    /// The program counter.
    pub fn pc(&self) -> (r: u32)
        ensures
            r == self.state().pc,
    {
        self.pc
    }

    /// The value of register `i`.
    pub fn reg(&self, i: usize) -> (r: u32)
        requires
            self.wf(),
            i < 32,
        ensures
            r == self.state().regs[i as int],
    {
        self.regs[i]
    }
}

/// Runs `cpu` for at most `max_steps` instructions, returning early on a
/// skipped instruction or a fault.
pub fn run(cpu: &mut CPU, max_steps: u64) -> (r: Stop)
    requires
        old(cpu).wf(),
    ensures
        final(cpu).wf(),
        final(cpu).memory() == old(cpu).memory(),
        (final(cpu).state(), r) == run_spec(
            old(cpu).memory().segments(),
            old(cpu).memory().backing(),
            old(cpu).state(),
            max_steps as nat,
        ),
{
    let ghost mem = cpu.memory();
    let ghost m = mem.segments();
    let ghost b = mem.backing();
    let ghost goal = run_spec(m, b, cpu.state(), max_steps as nat);
    let mut left: u64 = max_steps;
    while left > 0 && !cpu.halted()
        invariant
            cpu.wf(),
            cpu.memory() == mem,
            mem == old(cpu).memory(),
            m == mem.segments(),
            b == mem.backing(),
            goal == run_spec(m, b, old(cpu).state(), max_steps as nat),
            run_spec(m, b, cpu.state(), left as nat) == goal,
        decreases left,
    {
        let step = cpu.exec();
        match step {
            Err(fault) => {
                return Stop::Fault(fault);
            },
            Ok(Event::InvalidOpcode { opcode, pc, insn }) => {
                return Stop::InvalidOpcode { opcode, pc, insn };
            },
            Ok(Event::Jump { .. }) => {},
        }
        left = left - 1;
    }
    Stop::Paused
}

} // verus!
