//! A hart together with the store that holds its program.

use crate::hart::{execute_spec, fetch_spec, step_spec, Hart, HartView, StepOutcome};
use crate::instruction::{InstructionBytes, InstructionException};
use crate::memory::{Memory, MemoryView};
use vstd::prelude::*;

verus! {

/// Default DRAM size (128 MiB). A fresh CPU has its stack pointer here.
pub const DRAM_SIZE: u64 = 1024 * 1024 * 128;

/// The index of the stack pointer among the registers.
pub const STACK_POINTER: usize = 2;

/// The observable state of a CPU: that of its hart and that of its store.
pub struct CpuView {
    pub hart: HartView,
    pub memory: MemoryView,
}

impl CpuView {
    /// The state of a fresh CPU that holds `code`: every register zero but
    /// the stack pointer, the program counter zero, the code from address
    /// zero on.
    pub open spec fn initial(code: Seq<u8>) -> CpuView {
        CpuView {
            hart: HartView::initial(Seq::new(32, |i: int| 0u64).update(2, DRAM_SIZE), 0),
            memory: MemoryView { base: 0, bytes: code },
        }
    }
}

/// The state in which at most `limit` steps end: stepping stops at the first
/// step that fails.
pub open spec fn run_spec(h: HartView, m: MemoryView, limit: nat) -> StepOutcome
    decreases limit,
{
    if limit == 0 {
        StepOutcome { hart: h, memory: m, result: Ok(()) }
    } else {
        let first = step_spec(h, m);
        if first.result.is_err() {
            first
        } else {
            run_spec(first.hart, first.memory, (limit - 1) as nat)
        }
    }
}

/// The number of steps that succeed among at most `limit` steps.
pub open spec fn run_count(h: HartView, m: MemoryView, limit: nat) -> nat
    decreases limit,
{
    if limit == 0 {
        0
    } else {
        let first = step_spec(h, m);
        if first.result.is_err() {
            0
        } else {
            1 + run_count(first.hart, first.memory, (limit - 1) as nat)
        }
    }
}

/// An emulated 64-bit RISC-V CPU: one hart and its store.
pub struct CPU {
    hart: Hart,
    dram: Memory,
}

impl View for CPU {
    type V = CpuView;

    closed spec fn view(&self) -> CpuView {
        CpuView { hart: self.hart@, memory: self.dram@ }
    }
}

impl CPU {
    /// A CPU whose store holds `code` from address zero on. The stack
    /// pointer is at the end of the DRAM; every other register and the
    /// program counter are zero.
    pub fn new(code: Vec<u8>) -> (cpu: CPU)
        ensures
            cpu@ == CpuView::initial(code@),
    {
        let mut regs: [u64; 32] = [0; 32];
        regs[STACK_POINTER] = DRAM_SIZE;
        assert(regs@ =~= Seq::new(32, |i: int| 0u64).update(2, DRAM_SIZE));
        CPU { hart: Hart::new(regs, 0), dram: Memory::new(0, code) }
    }

    /// Reads a register. Register 0 reads as zero.
    pub fn reg(&self, index: usize) -> (r: u64)
        requires
            index < 32,
        ensures
            r == self@.hart.regs[index as int],
            index == 0 ==> r == 0,
    {
        self.hart.reg(index)
    }

    /// The registers as a reader sees them.
    pub fn registers(&self) -> (r: [u64; 32])
        ensures
            r@ == self@.hart.regs,
    {
        self.hart.registers()
    }

    /// The program counter.
    pub fn pc(&self) -> (r: u64)
        ensures
            r == self@.hart.pc,
    {
        self.hart.pc()
    }

    /// The exception that stopped the hart, if one did.
    pub fn trap(&self) -> (r: Option<InstructionException>)
        ensures
            r == self@.hart.trap,
    {
        self.hart.trap()
    }

    /// The store.
    pub fn dram(&self) -> (r: &Memory)
        ensures
            r@ == self@.memory,
    {
        &self.dram
    }

    /// Reads the 32-bit instruction at the program counter, in
    /// little-endian order.
    pub fn fetch(&self) -> (r: Result<u32, InstructionException>)
        ensures
            match fetch_spec(self@.hart, self@.memory) {
                Ok(word) => r == Ok::<u32, InstructionException>(word.0),
                Err(e) => r == Err::<u32, InstructionException>(e),
            },
    {
        match self.hart.fetch(&self.dram) {
            Ok(word) => Ok(word.0),
            Err(e) => Err(e),
        }
    }

    /// Decodes a 32-bit instruction and executes it.
    pub fn execute(&mut self, instruction: u32) -> (r: Result<(), InstructionException>)
        ensures
            (StepOutcome { hart: final(self)@.hart, memory: final(self)@.memory, result: r })
                == execute_spec(old(self)@.hart, old(self)@.memory, InstructionBytes(instruction)),
    {
        self.hart.execute(InstructionBytes(instruction), &mut self.dram)
    }

    /// Runs one cycle: fetch, decode, execute.
    pub fn step(&mut self) -> (r: Result<(), InstructionException>)
        ensures
            (StepOutcome { hart: final(self)@.hart, memory: final(self)@.memory, result: r })
                == step_spec(old(self)@.hart, old(self)@.memory),
    {
        self.hart.step(&mut self.dram)
    }

    /// Steps until a step fails, at most `limit` times. Returns the number
    /// of steps that succeeded, and the exception if one stopped the run.
    pub fn run(&mut self, limit: u64) -> (r: (u64, Result<(), InstructionException>))
        ensures
            (StepOutcome { hart: final(self)@.hart, memory: final(self)@.memory, result: r.1 })
                == run_spec(old(self)@.hart, old(self)@.memory, limit as nat),
            r.0 == run_count(old(self)@.hart, old(self)@.memory, limit as nat),
    {
        let mut done: u64 = 0;
        while done < limit
            invariant
                done <= limit,
                run_spec(old(self)@.hart, old(self)@.memory, limit as nat) == run_spec(
                    self@.hart,
                    self@.memory,
                    (limit - done) as nat,
                ),
                run_count(old(self)@.hart, old(self)@.memory, limit as nat) == done + run_count(
                    self@.hart,
                    self@.memory,
                    (limit - done) as nat,
                ),
            decreases limit - done,
        {
            match self.step() {
                Err(e) => {
                    return (done, Err(e));
                },
                Ok(()) => {
                    done += 1;
                },
            }
        }
        (done, Ok(()))
    }
}

} // verus!
