//! The hart: a register file, a program counter, and the step function.
//!
//! What an instruction does is given by the `*_spec` functions of this file,
//! which map the state before an instruction to the state after it. The
//! executable functions are proved to compute exactly that.

use crate::alu::{
    add64, branch, branch_spec, extend, extend_spec, load_kind, load_kind_spec, op, op_imm,
    op_imm_spec, op_spec, shift_imm, shift_imm_spec, sign_extend, sign_extend_spec, store_width,
    store_width_spec,
};
use crate::instruction::{
    BFormat, IFormat, ISType, Instruction, InstructionBytes, InstructionException,
    InstructionProcessor, JFormat, RFormat, SFormat, UFormat, OPCODE_AUIPC, OPCODE_BRANCH,
    OPCODE_JAL, OPCODE_JALR, OPCODE_LOAD, OPCODE_LUI, OPCODE_OP, OPCODE_OP_IMM, OPCODE_STORE,
};
use crate::memory::{lemma_pow256_values, Memory, MemoryView};
use vstd::prelude::*;

verus! {

/// Whether an instruction set the program counter itself.
#[derive(Clone, Copy, Debug, PartialEq, Eq, Structural)]
pub enum CounterState {
    /// The instruction set the program counter: it must not be advanced.
    Updated,
    /// The instruction left the program counter alone: it is to be advanced
    /// past the instruction.
    NotUpdated,
}

/// The observable state of a hart.
pub struct HartView {
    /// The 32 registers as a reader sees them; register 0 is zero.
    pub regs: Seq<u64>,
    /// The program counter.
    pub pc: u64,
    /// The exception that stopped the hart, if one did.
    pub trap: Option<InstructionException>,
}

impl HartView {
    /// There are 32 registers, and register 0 reads as zero.
    pub open spec fn wf(self) -> bool {
        self.regs.len() == 32 && self.regs[0] == 0
    }

    /// The state of a fresh hart: the given registers, with register 0
    /// reading as zero whatever was given for it.
    pub open spec fn initial(regs: Seq<u64>, pc: u64) -> HartView {
        HartView { regs: regs.update(0, 0), pc, trap: None }
    }

    /// The state after `value` is written to register `rd`. A write to
    /// register 0 changes nothing.
    pub open spec fn write(self, rd: int, value: u64) -> HartView {
        if rd == 0 {
            self
        } else {
            HartView { regs: self.regs.update(rd, value), ..self }
        }
    }

    /// The state after the program counter is set to `target`.
    pub open spec fn jump(self, target: u64) -> HartView {
        HartView { pc: target, ..self }
    }

    /// The state after the hart is stopped by `exception`.
    pub open spec fn trapped(self, exception: InstructionException) -> HartView {
        HartView { trap: Some(exception), ..self }
    }
}

/// What dispatching one instruction yields: the states after it, and either
/// the signal for the program counter or the exception.
pub struct Outcome {
    pub hart: HartView,
    pub memory: MemoryView,
    pub result: Result<CounterState, InstructionException>,
}

impl Outcome {
    /// The instruction completed and left the program counter alone.
    pub open spec fn advance(hart: HartView, memory: MemoryView) -> Outcome {
        Outcome { hart, memory, result: Ok(CounterState::NotUpdated) }
    }

    /// The instruction completed and set the program counter to `target`.
    pub open spec fn redirect(hart: HartView, memory: MemoryView, target: u64) -> Outcome {
        Outcome { hart: hart.jump(target), memory, result: Ok(CounterState::Updated) }
    }

    /// The instruction failed and changed nothing.
    pub open spec fn fault(
        hart: HartView,
        memory: MemoryView,
        exception: InstructionException,
    ) -> Outcome {
        Outcome { hart, memory, result: Err(exception) }
    }

    /// The instruction completed with `value` for register `rd`, if there is
    /// a value; else it is illegal.
    pub open spec fn write_back(
        hart: HartView,
        memory: MemoryView,
        rd: int,
        value: Option<u64>,
    ) -> Outcome {
        match value {
            Some(v) => Outcome::advance(hart.write(rd, v), memory),
            None => Outcome::fault(hart, memory, InstructionException::IllegalInstruction),
        }
    }
}

/// What one step yields: the states after it and whether it succeeded.
pub struct StepOutcome {
    pub hart: HartView,
    pub memory: MemoryView,
    pub result: Result<(), InstructionException>,
}

/// The address `offset` away from `base`, modulo `2^64`.
pub open spec fn address(base: u64, offset: i32) -> u64 {
    add64(base, sign_extend_spec(offset))
}

/// A register-register instruction writes the result of its operation to
/// `rd`. It is illegal if its opcode is not that of the register-register
/// operations, if a register index is not below 32, or if its function codes
/// name no operation.
pub open spec fn process_r_spec(h: HartView, m: MemoryView, i: RFormat) -> Outcome {
    if i.opcode != OPCODE_OP || i.rs1 >= 32 || i.rs2 >= 32 || i.rd >= 32 {
        Outcome::fault(h, m, InstructionException::IllegalInstruction)
    } else {
        Outcome::write_back(
            h,
            m,
            i.rd as int,
            op_spec(i.funct3, i.funct7, h.regs[i.rs1 as int], h.regs[i.rs2 as int]),
        )
    }
}

/// A load reads `width` bytes at `rs1 + imm` and writes them, extended, to
/// `rd`. The address must be a multiple of the width, else the load is an
/// alignment fault; the bytes must lie in the store, else it is a memory
/// access fault.
pub open spec fn load_spec(h: HartView, m: MemoryView, i: IFormat) -> Outcome {
    match load_kind_spec(i.funct3) {
        None => Outcome::fault(h, m, InstructionException::IllegalInstruction),
        Some((width, signed)) => {
            let addr = address(h.regs[i.rs1 as int], i.imm);
            if addr % (width as u64) != 0 {
                Outcome::fault(h, m, InstructionException::AlignmentFault)
            } else if !m.contains(addr, width as nat) {
                Outcome::fault(h, m, InstructionException::MemoryAccessFault)
            } else {
                Outcome::advance(
                    h.write(
                        i.rd as int,
                        extend_spec(m.load(addr, width as nat) as u64, width as nat, signed),
                    ),
                    m,
                )
            }
        },
    }
}

/// The target of a jump-and-link-register: `rs1 + imm` with its lowest bit
/// cleared.
pub open spec fn jalr_target(h: HartView, i: IFormat) -> u64 {
    let sum = address(h.regs[i.rs1 as int], i.imm);
    (sum - sum % 2) as u64
}

/// A jump-and-link-register sets the program counter to its target and
/// writes the address of the next instruction to `rd`. A target that is not
/// a multiple of 4 is an alignment fault.
pub open spec fn jalr_spec(h: HartView, m: MemoryView, i: IFormat) -> Outcome {
    if i.funct3 != 0 {
        Outcome::fault(h, m, InstructionException::IllegalInstruction)
    } else if jalr_target(h, i) % 4 != 0 {
        Outcome::fault(h, m, InstructionException::AlignmentFault)
    } else {
        Outcome::redirect(h.write(i.rd as int, add64(h.pc, 4)), m, jalr_target(h, i))
    }
}

/// An I-format instruction is, by its opcode, a register-immediate
/// operation, a load, or a jump-and-link-register. It is illegal under any
/// other opcode, or if a register index is not below 32.
pub open spec fn process_i_spec(h: HartView, m: MemoryView, i: IFormat) -> Outcome {
    if i.rs1 >= 32 || i.rd >= 32 {
        Outcome::fault(h, m, InstructionException::IllegalInstruction)
    } else if i.opcode == OPCODE_OP_IMM {
        let a = h.regs[i.rs1 as int];
        if i.funct3 == 1 || i.funct3 == 5 {
            Outcome::write_back(h, m, i.rd as int, shift_imm_spec(ISType::spec_from_i(i), a))
        } else {
            Outcome::write_back(
                h,
                m,
                i.rd as int,
                op_imm_spec(i.funct3, a, sign_extend_spec(i.imm)),
            )
        }
    } else if i.opcode == OPCODE_LOAD {
        load_spec(h, m, i)
    } else if i.opcode == OPCODE_JALR {
        jalr_spec(h, m, i)
    } else {
        Outcome::fault(h, m, InstructionException::IllegalInstruction)
    }
}

/// A store writes the `width` low bytes of `rs2` at `rs1 + imm`. The address
/// must be a multiple of the width, else the store is an alignment fault;
/// the bytes must lie in the store, else it is a memory access fault.
pub open spec fn store_spec(h: HartView, m: MemoryView, i: SFormat) -> Outcome {
    match store_width_spec(i.funct3) {
        None => Outcome::fault(h, m, InstructionException::IllegalInstruction),
        Some(width) => {
            let addr = address(h.regs[i.rs1 as int], i.imm);
            if addr % (width as u64) != 0 {
                Outcome::fault(h, m, InstructionException::AlignmentFault)
            } else if !m.contains(addr, width as nat) {
                Outcome::fault(h, m, InstructionException::MemoryAccessFault)
            } else {
                Outcome::advance(h, m.store(addr, width as nat, h.regs[i.rs2 as int]))
            }
        },
    }
}

/// An S-format instruction is, by its opcode, a store or a shift by
/// immediate. It is illegal under any other opcode, or if a register index
/// is not below 32.
pub open spec fn process_s_spec(h: HartView, m: MemoryView, i: SFormat) -> Outcome {
    if i.rs1 >= 32 || i.rs2 >= 32 {
        Outcome::fault(h, m, InstructionException::IllegalInstruction)
    } else if i.opcode == OPCODE_OP_IMM {
        let shift = ISType::spec_from_s(i);
        Outcome::write_back(h, m, shift.rd as int, shift_imm_spec(shift, h.regs[i.rs1 as int]))
    } else if i.opcode == OPCODE_STORE {
        store_spec(h, m, i)
    } else {
        Outcome::fault(h, m, InstructionException::IllegalInstruction)
    }
}

/// A branch compares `rs1` with `rs2`. If it is not taken it leaves the
/// program counter alone. If it is taken it sets the program counter to
/// `pc + imm`; a target that is not a multiple of 4 is an alignment fault.
pub open spec fn process_b_spec(h: HartView, m: MemoryView, i: BFormat) -> Outcome {
    if i.opcode != OPCODE_BRANCH || i.rs1 >= 32 || i.rs2 >= 32 {
        Outcome::fault(h, m, InstructionException::IllegalInstruction)
    } else {
        match branch_spec(i.funct3, h.regs[i.rs1 as int], h.regs[i.rs2 as int]) {
            None => Outcome::fault(h, m, InstructionException::IllegalInstruction),
            Some(false) => Outcome::advance(h, m),
            Some(true) => if address(h.pc, i.imm) % 4 != 0 {
                Outcome::fault(h, m, InstructionException::AlignmentFault)
            } else {
                Outcome::redirect(h, m, address(h.pc, i.imm))
            },
        }
    }
}

/// A load-upper-immediate writes `imm` to `rd`; an
/// add-upper-immediate-to-pc writes `pc + imm` to `rd`.
pub open spec fn process_u_spec(h: HartView, m: MemoryView, i: UFormat) -> Outcome {
    if i.rd >= 32 {
        Outcome::fault(h, m, InstructionException::IllegalInstruction)
    } else if i.opcode == OPCODE_LUI {
        Outcome::advance(h.write(i.rd as int, sign_extend_spec(i.imm)), m)
    } else if i.opcode == OPCODE_AUIPC {
        Outcome::advance(h.write(i.rd as int, address(h.pc, i.imm)), m)
    } else {
        Outcome::fault(h, m, InstructionException::IllegalInstruction)
    }
}

/// A jump-and-link sets the program counter to `pc + imm` and writes the
/// address of the next instruction to `rd`. A target that is not a multiple
/// of 4 is an alignment fault.
pub open spec fn process_j_spec(h: HartView, m: MemoryView, i: JFormat) -> Outcome {
    if i.opcode != OPCODE_JAL || i.rd >= 32 {
        Outcome::fault(h, m, InstructionException::IllegalInstruction)
    } else if address(h.pc, i.imm) % 4 != 0 {
        Outcome::fault(h, m, InstructionException::AlignmentFault)
    } else {
        Outcome::redirect(h.write(i.rd as int, add64(h.pc, 4)), m, address(h.pc, i.imm))
    }
}

/// What dispatching a decoded instruction yields. An inert instruction
/// completes and changes nothing.
///
/// The definition is hidden from the solver until it is revealed;
/// [`lemma_dispatch_effect`] says what holds of every instruction.
#[verifier::opaque]
pub open spec fn dispatch_spec(h: HartView, m: MemoryView, instruction: Instruction) -> Outcome {
    match instruction {
        Instruction::R(i) => process_r_spec(h, m, i),
        Instruction::I(i) => process_i_spec(h, m, i),
        Instruction::S(i) => process_s_spec(h, m, i),
        Instruction::B(i) => process_b_spec(h, m, i),
        Instruction::U(i) => process_u_spec(h, m, i),
        Instruction::J(i) => process_j_spec(h, m, i),
        Instruction::NOP(_) => Outcome::advance(h, m),
    }
}

/// What dispatching an instruction can do. If it fails it changes neither
/// the hart nor the store. If it succeeds it keeps register 0 at zero and
/// the hart runnable as before; it either leaves the program counter alone
/// or sets it to a multiple of 4.
pub proof fn lemma_dispatch_effect(h: HartView, m: MemoryView, instruction: Instruction)
    ensures
        ({
            let end = dispatch_spec(h, m, instruction);
            &&& h.wf() ==> end.hart.wf()
            &&& end.hart.trap == h.trap
            &&& match end.result {
                Ok(CounterState::Updated) => end.hart.pc % 4 == 0,
                Ok(CounterState::NotUpdated) => end.hart.pc == h.pc,
                Err(_) => end.hart == h && end.memory == m,
            }
        }),
{
    reveal(dispatch_spec);
    match instruction {
        Instruction::R(_) => {},
        Instruction::I(_) => {},
        Instruction::S(_) => {},
        Instruction::B(_) => {},
        Instruction::U(_) => {},
        Instruction::J(_) => {},
        Instruction::NOP(_) => {},
    }
}

/// How a step ends after dispatch. On success the program counter moves on
/// by 4 unless the instruction set it. On failure the hart is stopped by the
/// exception, and the registers, program counter and store are those from
/// before the instruction.
pub open spec fn retire_spec(h: HartView, m: MemoryView, outcome: Outcome) -> StepOutcome {
    match outcome.result {
        Ok(CounterState::Updated) => StepOutcome {
            hart: outcome.hart,
            memory: outcome.memory,
            result: Ok(()),
        },
        Ok(CounterState::NotUpdated) => StepOutcome {
            hart: outcome.hart.jump(add64(outcome.hart.pc, 4)),
            memory: outcome.memory,
            result: Ok(()),
        },
        Err(e) => StepOutcome { hart: h.trapped(e), memory: m, result: Err(e) },
    }
}

/// What executing one instruction word yields. A stopped hart reports its
/// exception again and does nothing. A word that does not decode stops the
/// hart with an illegal-instruction exception.
pub open spec fn execute_spec(h: HartView, m: MemoryView, word: InstructionBytes) -> StepOutcome {
    match h.trap {
        Some(e) => StepOutcome { hart: h, memory: m, result: Err(e) },
        None => match Instruction::decode_spec(word) {
            Err(e) => StepOutcome { hart: h.trapped(e), memory: m, result: Err(e) },
            Ok(instruction) => retire_spec(h, m, dispatch_spec(h, m, instruction)),
        },
    }
}

/// What fetching at the program counter yields: the little-endian word in
/// the four bytes there. A program counter that is not a multiple of 4 is an
/// alignment fault; four bytes that do not all lie in the store are a fetch
/// fault.
pub open spec fn fetch_spec(h: HartView, m: MemoryView) -> Result<
    InstructionBytes,
    InstructionException,
> {
    if h.pc % 4 != 0 {
        Err(InstructionException::AlignmentFault)
    } else if !m.contains(h.pc, 4) {
        Err(InstructionException::FetchFault)
    } else {
        Ok(InstructionBytes(m.load(h.pc, 4) as u32))
    }
}

/// What one step yields: fetch, then execute. A stopped hart reports its
/// exception again and does nothing; a failed fetch stops the hart.
pub open spec fn step_spec(h: HartView, m: MemoryView) -> StepOutcome {
    match h.trap {
        Some(e) => StepOutcome { hart: h, memory: m, result: Err(e) },
        None => match fetch_spec(h, m) {
            Err(e) => StepOutcome { hart: h.trapped(e), memory: m, result: Err(e) },
            Ok(word) => execute_spec(h, m, word),
        },
    }
}

/// A RISC-V hardware thread: 32 registers of 64 bits and a program counter.
pub struct Hart {
    /// The registers as stored. What is stored in register 0 is never read.
    regs: [u64; 32],
    /// The program counter.
    pc: u64,
    /// The exception that stopped the hart, if one did.
    trap: Option<InstructionException>,
}

impl View for Hart {
    type V = HartView;

    closed spec fn view(&self) -> HartView {
        HartView {
            regs: Seq::new(
                32,
                |i: int|
                    if i == 0 {
                        0u64
                    } else {
                        self.regs@[i]
                    },
            ),
            pc: self.pc,
            trap: self.trap,
        }
    }
}

impl Hart {
    /// Whatever a hart holds, it shows 32 registers, and register 0 reads as
    /// zero.
    pub proof fn lemma_view_wf(&self)
        ensures
            self@.wf(),
    {
    }

    /// A runnable hart with the given registers and program counter.
    /// Register 0 reads as zero whatever `regs` holds for it.
    pub fn new(regs: [u64; 32], pc: u64) -> (hart: Hart)
        ensures
            hart@ == HartView::initial(regs@, pc),
    {
        let hart = Hart { regs, pc, trap: None };
        assert(hart@.regs =~= regs@.update(0, 0));
        hart
    }

    /// Reads a register. Register 0 reads as zero.
    pub fn reg(&self, index: usize) -> (r: u64)
        requires
            index < 32,
        ensures
            r == self@.regs[index as int],
            index == 0 ==> r == 0,
    {
        if index == 0 {
            0
        } else {
            self.regs[index]
        }
    }

    /// The registers as a reader sees them.
    pub fn registers(&self) -> (r: [u64; 32])
        ensures
            r@ == self@.regs,
    {
        let mut r = self.regs;
        r[0] = 0;
        assert(r@ =~= self@.regs);
        r
    }

    /// The program counter.
    pub fn pc(&self) -> (r: u64)
        ensures
            r == self@.pc,
    {
        self.pc
    }

    /// The exception that stopped the hart, if one did.
    pub fn trap(&self) -> (r: Option<InstructionException>)
        ensures
            r == self@.trap,
    {
        self.trap
    }

    /// Whether the hart can still step.
    pub fn is_runnable(&self) -> (r: bool)
        ensures
            r == self@.trap.is_none(),
    {
        self.trap.is_none()
    }

    /// Writes a register. What is written to register 0 is never read.
    fn write_reg(&mut self, rd: usize, value: u64)
        requires
            rd < 32,
        ensures
            final(self)@ == old(self)@.write(rd as int, value),
    {
        self.regs[rd] = value;
        assert(self@.regs =~= old(self)@.write(rd as int, value).regs);
    }

    /// Completes an instruction that yields `value` for register `rd`, or
    /// none.
    fn write_back(&mut self, rd: usize, value: Option<u64>) -> (r: Result<
        CounterState,
        InstructionException,
    >)
        requires
            rd < 32,
        ensures
            match value {
                Some(v) => r == Ok::<CounterState, InstructionException>(CounterState::NotUpdated)
                    && final(self)@ == old(self)@.write(rd as int, v),
                None => r == Err::<CounterState, InstructionException>(
                    InstructionException::IllegalInstruction,
                ) && final(self)@ == old(self)@,
            },
    {
        match value {
            Some(v) => {
                self.write_reg(rd, v);
                Ok(CounterState::NotUpdated)
            },
            None => Err(InstructionException::IllegalInstruction),
        }
    }
}

impl Hart {
    /// The address `offset` away from the value of register `rs1`.
    fn address_from(&self, rs1: usize, offset: i32) -> (r: u64)
        requires
            rs1 < 32,
        ensures
            r == address(self@.regs[rs1 as int], offset),
    {
        self.reg(rs1).wrapping_add(sign_extend(offset))
    }

    /// Executes a load.
    fn load(&mut self, instruction: IFormat, memory: &Memory) -> (r: Result<
        CounterState,
        InstructionException,
    >)
        requires
            instruction.rs1 < 32,
            instruction.rd < 32,
        ensures
            (Outcome { hart: final(self)@, memory: memory@, result: r }) == load_spec(
                old(self)@,
                memory@,
                instruction,
            ),
    {
        match load_kind(instruction.funct3) {
            None => Err(InstructionException::IllegalInstruction),
            Some((width, signed)) => {
                let addr = self.address_from(instruction.rs1, instruction.imm);
                if addr % (width as u64) != 0 {
                    return Err(InstructionException::AlignmentFault);
                }
                match memory.load(addr, width) {
                    Err(e) => Err(e),
                    Ok(value) => {
                        self.write_reg(instruction.rd, extend(value, width, signed));
                        Ok(CounterState::NotUpdated)
                    },
                }
            },
        }
    }

    /// Executes a jump-and-link-register.
    fn jalr(&mut self, instruction: IFormat) -> (r: Result<CounterState, InstructionException>)
        requires
            instruction.rs1 < 32,
            instruction.rd < 32,
        ensures
            forall|m: MemoryView|
                (Outcome { hart: final(self)@, memory: m, result: r }) == #[trigger] jalr_spec(
                    old(self)@,
                    m,
                    instruction,
                ),
    {
        if instruction.funct3 != 0 {
            return Err(InstructionException::IllegalInstruction);
        }
        let sum = self.address_from(instruction.rs1, instruction.imm);
        let target: u64 = sum - sum % 2;
        if target % 4 != 0 {
            return Err(InstructionException::AlignmentFault);
        }
        let link = self.pc.wrapping_add(4);
        self.write_reg(instruction.rd, link);
        self.pc = target;
        Ok(CounterState::Updated)
    }

    /// Executes a store.
    fn store(&mut self, instruction: SFormat, memory: &mut Memory) -> (r: Result<
        CounterState,
        InstructionException,
    >)
        requires
            instruction.rs1 < 32,
            instruction.rs2 < 32,
        ensures
            (Outcome { hart: final(self)@, memory: final(memory)@, result: r }) == store_spec(
                old(self)@,
                old(memory)@,
                instruction,
            ),
    {
        match store_width(instruction.funct3) {
            None => Err(InstructionException::IllegalInstruction),
            Some(width) => {
                let addr = self.address_from(instruction.rs1, instruction.imm);
                if addr % (width as u64) != 0 {
                    return Err(InstructionException::AlignmentFault);
                }
                match memory.store(addr, width, self.reg(instruction.rs2)) {
                    Err(e) => Err(e),
                    Ok(()) => Ok(CounterState::NotUpdated),
                }
            },
        }
    }
}

impl InstructionProcessor for Hart {
    type InstructionResult = Result<CounterState, InstructionException>;

    /// Executes a register-register instruction.
    fn process_r(&mut self, instruction: RFormat, memory: &mut Memory) -> (r: Result<
        CounterState,
        InstructionException,
    >)
        ensures
            (Outcome { hart: final(self)@, memory: final(memory)@, result: r }) == process_r_spec(
                old(self)@,
                old(memory)@,
                instruction,
            ),
    {
        if instruction.opcode != OPCODE_OP || instruction.rs1 >= 32 || instruction.rs2 >= 32
            || instruction.rd >= 32 {
            return Err(InstructionException::IllegalInstruction);
        }
        let a = self.reg(instruction.rs1);
        let b = self.reg(instruction.rs2);
        self.write_back(instruction.rd, op(instruction.funct3, instruction.funct7, a, b))
    }

    /// Executes a register-immediate operation, a load or a
    /// jump-and-link-register.
    fn process_i(&mut self, instruction: IFormat, memory: &mut Memory) -> (r: Result<
        CounterState,
        InstructionException,
    >)
        ensures
            (Outcome { hart: final(self)@, memory: final(memory)@, result: r }) == process_i_spec(
                old(self)@,
                old(memory)@,
                instruction,
            ),
    {
        if instruction.rs1 >= 32 || instruction.rd >= 32 {
            return Err(InstructionException::IllegalInstruction);
        }
        if instruction.opcode == OPCODE_OP_IMM {
            let a = self.reg(instruction.rs1);
            if instruction.funct3 == 1 || instruction.funct3 == 5 {
                self.write_back(instruction.rd, shift_imm(ISType::from(instruction), a))
            } else {
                self.write_back(
                    instruction.rd,
                    op_imm(instruction.funct3, a, sign_extend(instruction.imm)),
                )
            }
        } else if instruction.opcode == OPCODE_LOAD {
            self.load(instruction, memory)
        } else if instruction.opcode == OPCODE_JALR {
            self.jalr(instruction)
        } else {
            Err(InstructionException::IllegalInstruction)
        }
    }

    /// Executes a store or a shift by immediate.
    fn process_s(&mut self, instruction: SFormat, memory: &mut Memory) -> (r: Result<
        CounterState,
        InstructionException,
    >)
        ensures
            (Outcome { hart: final(self)@, memory: final(memory)@, result: r }) == process_s_spec(
                old(self)@,
                old(memory)@,
                instruction,
            ),
    {
        if instruction.rs1 >= 32 || instruction.rs2 >= 32 {
            return Err(InstructionException::IllegalInstruction);
        }
        if instruction.opcode == OPCODE_OP_IMM {
            let shift = ISType::from(instruction);
            let a = self.reg(instruction.rs1);
            self.write_back(shift.rd, shift_imm(shift, a))
        } else if instruction.opcode == OPCODE_STORE {
            self.store(instruction, memory)
        } else {
            Err(InstructionException::IllegalInstruction)
        }
    }

    /// Executes a conditional branch.
    fn process_b(&mut self, instruction: BFormat, memory: &mut Memory) -> (r: Result<
        CounterState,
        InstructionException,
    >)
        ensures
            (Outcome { hart: final(self)@, memory: final(memory)@, result: r }) == process_b_spec(
                old(self)@,
                old(memory)@,
                instruction,
            ),
    {
        if instruction.opcode != OPCODE_BRANCH || instruction.rs1 >= 32 || instruction.rs2 >= 32 {
            return Err(InstructionException::IllegalInstruction);
        }
        let a = self.reg(instruction.rs1);
        let b = self.reg(instruction.rs2);
        match branch(instruction.funct3, a, b) {
            None => Err(InstructionException::IllegalInstruction),
            Some(false) => Ok(CounterState::NotUpdated),
            Some(true) => {
                let target = self.pc.wrapping_add(sign_extend(instruction.imm));
                if target % 4 != 0 {
                    return Err(InstructionException::AlignmentFault);
                }
                self.pc = target;
                Ok(CounterState::Updated)
            },
        }
    }

    /// Executes a load-upper-immediate or an add-upper-immediate-to-pc.
    fn process_u(&mut self, instruction: UFormat, memory: &mut Memory) -> (r: Result<
        CounterState,
        InstructionException,
    >)
        ensures
            (Outcome { hart: final(self)@, memory: final(memory)@, result: r }) == process_u_spec(
                old(self)@,
                old(memory)@,
                instruction,
            ),
    {
        if instruction.rd >= 32 {
            return Err(InstructionException::IllegalInstruction);
        }
        if instruction.opcode == OPCODE_LUI {
            self.write_reg(instruction.rd, sign_extend(instruction.imm));
            Ok(CounterState::NotUpdated)
        } else if instruction.opcode == OPCODE_AUIPC {
            let value = self.pc.wrapping_add(sign_extend(instruction.imm));
            self.write_reg(instruction.rd, value);
            Ok(CounterState::NotUpdated)
        } else {
            Err(InstructionException::IllegalInstruction)
        }
    }

    /// Executes a jump-and-link.
    fn process_j(&mut self, instruction: JFormat, memory: &mut Memory) -> (r: Result<
        CounterState,
        InstructionException,
    >)
        ensures
            (Outcome { hart: final(self)@, memory: final(memory)@, result: r }) == process_j_spec(
                old(self)@,
                old(memory)@,
                instruction,
            ),
    {
        if instruction.opcode != OPCODE_JAL || instruction.rd >= 32 {
            return Err(InstructionException::IllegalInstruction);
        }
        let target = self.pc.wrapping_add(sign_extend(instruction.imm));
        if target % 4 != 0 {
            return Err(InstructionException::AlignmentFault);
        }
        let link = self.pc.wrapping_add(4);
        self.write_reg(instruction.rd, link);
        self.pc = target;
        Ok(CounterState::Updated)
    }
}

impl Hart {
    /// Hands a decoded instruction to the operation of its format. An inert
    /// instruction completes and changes nothing.
    pub fn dispatch(&mut self, instruction: Instruction, memory: &mut Memory) -> (r: Result<
        CounterState,
        InstructionException,
    >)
        ensures
            (Outcome { hart: final(self)@, memory: final(memory)@, result: r }) == dispatch_spec(
                old(self)@,
                old(memory)@,
                instruction,
            ),
    {
        proof {
            reveal(dispatch_spec);
        }
        match instruction {
            Instruction::R(i) => self.process_r(i, memory),
            Instruction::I(i) => self.process_i(i, memory),
            Instruction::S(i) => self.process_s(i, memory),
            Instruction::B(i) => self.process_b(i, memory),
            Instruction::U(i) => self.process_u(i, memory),
            Instruction::J(i) => self.process_j(i, memory),
            Instruction::NOP(_) => Ok(CounterState::NotUpdated),
        }
    }

    /// Stops the hart with `exception` and reports it.
    fn raise(&mut self, exception: InstructionException) -> (r: Result<(), InstructionException>)
        ensures
            final(self)@ == old(self)@.trapped(exception),
            r == Err::<(), InstructionException>(exception),
    {
        self.trap = Some(exception);
        Err(exception)
    }

    /// Fetches the instruction word at the program counter: four bytes, in
    /// little-endian order.
    pub fn fetch(&self, memory: &Memory) -> (r: Result<InstructionBytes, InstructionException>)
        ensures
            r == fetch_spec(self@, memory@),
    {
        if self.pc % 4 != 0 {
            return Err(InstructionException::AlignmentFault);
        }
        proof {
            lemma_pow256_values();
        }
        match memory.load(self.pc, 4) {
            Err(_) => Err(InstructionException::FetchFault),
            Ok(word) => Ok(InstructionBytes(word as u32)),
        }
    }

    /// Decodes and executes one instruction word, then moves the program
    /// counter on by 4 unless the instruction set it. A failure stops the
    /// hart and leaves the registers, the program counter and the store as
    /// they were.
    pub fn execute(&mut self, word: InstructionBytes, memory: &mut Memory) -> (r: Result<
        (),
        InstructionException,
    >)
        ensures
            (StepOutcome { hart: final(self)@, memory: final(memory)@, result: r })
                == execute_spec(old(self)@, old(memory)@, word),
    {
        if let Some(e) = self.trap {
            return Err(e);
        }
        let instruction = match Instruction::try_from(word) {
            Err(e) => {
                return self.raise(e);
            },
            Ok(instruction) => instruction,
        };
        self.regs[0] = 0;
        proof {
            assert(self@.regs =~= old(self)@.regs);
            lemma_dispatch_effect(self@, memory@, instruction);
        }
        match self.dispatch(instruction, memory) {
            Ok(CounterState::Updated) => Ok(()),
            Ok(CounterState::NotUpdated) => {
                self.pc = self.pc.wrapping_add(4);
                Ok(())
            },
            Err(e) => self.raise(e),
        }
    }

    /// Runs one cycle: fetch, decode, dispatch, advance. A stopped hart
    /// reports its exception again and does nothing.
    pub fn step(&mut self, memory: &mut Memory) -> (r: Result<(), InstructionException>)
        ensures
            (StepOutcome { hart: final(self)@, memory: final(memory)@, result: r }) == step_spec(
                old(self)@,
                old(memory)@,
            ),
    {
        if let Some(e) = self.trap {
            return Err(e);
        }
        match self.fetch(memory) {
            Err(e) => self.raise(e),
            Ok(word) => self.execute(word, memory),
        }
    }
}

} // verus!
