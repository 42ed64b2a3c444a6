//! What holds of the decoder and of the step function on every input.

use crate::alu::{add64, branch_spec, signed64, sll, sra, srl, wrap64};
use crate::cpu::run_spec;
use crate::hart::{
    address, dispatch_spec, execute_spec, fetch_spec, lemma_dispatch_effect, process_i_spec,
    retire_spec, step_spec, HartView, StepOutcome,
};
use crate::instruction::{
    bits, classify_spec, imm_i, imm_s, lemma_field_ranges, lemma_immediates, BFormat, IFormat,
    ISType, Instruction, InstructionBytes, InstructionException, JFormat, RFormat, SFormat,
    UFormat, OPCODE_JALR,
};
use crate::memory::{
    le_bytes, lemma_le_bytes_len, lemma_le_value_of_bytes, pow256, MemoryView,
};
use vstd::arithmetic::div_mod::{
    lemma_div_is_ordered_by_denominator, lemma_fundamental_div_mod,
    lemma_fundamental_div_mod_converse, lemma_mul_mod_noop_right,
};
use vstd::arithmetic::power2::{lemma2_to64, lemma_pow2_pos, lemma_pow2_unfold, pow2};
use vstd::bits::lemma_u64_shr_is_div;
use vstd::prelude::*;

verus! {

/// The offset of a branch and the offset of a jump are even, whatever the
/// word.
pub proof fn lemma_offsets_even(word: InstructionBytes)
    ensures
        BFormat::spec_from(word).imm % 2 == 0,
        JFormat::spec_from(word).imm % 2 == 0,
{
    lemma_immediates(word.0);
}

/// The low twelve bits of an upper immediate are zero, whatever the word.
pub proof fn lemma_upper_immediate_low_bits(word: InstructionBytes)
    ensures
        UFormat::spec_from(word).imm % 0x1000 == 0,
{
    lemma_immediates(word.0);
}

/// A shift by immediate reads the same whether its word is taken apart
/// directly, through the I layout, or through the S layout under which the
/// classifier files it.
pub proof fn lemma_shift_layouts_agree(word: InstructionBytes)
    ensures
        ISType::spec_from_i(IFormat::spec_from(word)) == ISType::spec_from(word),
        ISType::spec_from_s(SFormat::spec_from(word)) == ISType::spec_from(word),
{
    let w = word.0;
    lemma_field_ranges(w);
    lemma_immediates(w);
    let i = IFormat::spec_from(word).imm;
    let s = SFormat::spec_from(word).imm;
    assert(((i as u32) / 32) % 128 == bits(w, 31, 25) && (i as u32) % 32 == bits(w, 24, 20))
        by (bit_vector)
        requires
            i == imm_i(w),
    ;
    assert(((s as u32) / 32) % 128 == bits(w, 31, 25) && (s as u32) % 32 == bits(w, 11, 7))
        by (bit_vector)
        requires
            s == imm_s(w),
    ;
}

/// Encoding what a word decodes to gives the word back.
pub proof fn lemma_encode_decoded(word: InstructionBytes)
    ensures
        Instruction::decode_spec(word).is_ok() ==> Instruction::decode_spec(
            word,
        ).unwrap().encode_spec() == Some(word),
{
    RFormat::lemma_encode_decode(word);
    IFormat::lemma_encode_decode(word);
    SFormat::lemma_encode_decode(word);
    BFormat::lemma_encode_decode(word);
    UFormat::lemma_encode_decode(word);
    JFormat::lemma_encode_decode(word);
}

/// Decoding the word of an instruction gives the instruction back, if the
/// classifier's table files its opcode and secondary opcode under the
/// instruction's format.
pub proof fn lemma_decode_encoded(instruction: Instruction, word: InstructionBytes)
    requires
        instruction.encode_spec() == Some(word),
        classify_spec(bits(word.0, 6, 0) as u32, bits(word.0, 14, 12) as u32) == Some(
            instruction.format_spec(),
        ),
    ensures
        Instruction::decode_spec(word) == Ok::<Instruction, InstructionException>(instruction),
{
    match instruction {
        Instruction::R(i) => i.lemma_decode_encode(),
        Instruction::I(i) => i.lemma_decode_encode(),
        Instruction::S(i) => i.lemma_decode_encode(),
        Instruction::B(i) => i.lemma_decode_encode(),
        Instruction::U(i) => i.lemma_decode_encode(),
        Instruction::J(i) => i.lemma_decode_encode(),
        Instruction::NOP(_) => {},
    }
}

/// What executing a word can do. If it fails, the registers, the program
/// counter and the store are as they were, and the hart holds the exception
/// that is reported. If it succeeds, the hart was runnable and stays so,
/// register 0 stays at zero, and the program counter has either moved on by
/// 4 or been set to a multiple of 4.
pub proof fn lemma_execute_effect(h: HartView, m: MemoryView, word: InstructionBytes)
    ensures
        ({
            let end = execute_spec(h, m, word);
            &&& h.wf() ==> end.hart.wf()
            &&& match end.result {
                Ok(_) => {
                    &&& h.trap.is_none()
                    &&& end.hart.trap.is_none()
                    &&& end.hart.pc == add64(h.pc, 4) || end.hart.pc % 4 == 0
                },
                Err(e) => {
                    &&& end.hart.regs == h.regs
                    &&& end.hart.pc == h.pc
                    &&& end.hart.trap == Some(e)
                    &&& end.memory == m
                },
            }
        }),
{
    if h.trap.is_none() {
        match Instruction::decode_spec(word) {
            Ok(instruction) => lemma_dispatch_effect(h, m, instruction),
            Err(_) => {},
        }
    }
}

/// What a step can do: what executing a word can do, and a step succeeds
/// only from a program counter that is a multiple of 4 and ends at one.
pub proof fn lemma_step_effect(h: HartView, m: MemoryView)
    ensures
        ({
            let end = step_spec(h, m);
            &&& h.wf() ==> end.hart.wf()
            &&& match end.result {
                Ok(_) => {
                    &&& h.trap.is_none()
                    &&& end.hart.trap.is_none()
                    &&& h.pc % 4 == 0
                    &&& end.hart.pc % 4 == 0
                },
                Err(e) => {
                    &&& end.hart.regs == h.regs
                    &&& end.hart.pc == h.pc
                    &&& end.hart.trap == Some(e)
                    &&& end.memory == m
                },
            }
        }),
{
    if h.trap.is_none() {
        match fetch_spec(h, m) {
            Ok(word) => lemma_execute_effect(h, m, word),
            Err(_) => {},
        }
    }
}

/// Register 0 reads as zero after any number of steps, whatever the
/// instructions name as their destination.
pub proof fn lemma_run_keeps_zero(h: HartView, m: MemoryView, limit: nat)
    requires
        h.wf(),
    ensures
        run_spec(h, m, limit).hart.wf(),
    decreases limit,
{
    if limit > 0 {
        lemma_step_effect(h, m);
        let first = step_spec(h, m);
        if first.result.is_ok() {
            lemma_run_keeps_zero(first.hart, first.memory, (limit - 1) as nat);
        }
    }
}

/// A stopped hart stays as it is, however often it is stepped.
pub proof fn lemma_stopped_hart_stays(h: HartView, m: MemoryView, limit: nat)
    requires
        h.trap.is_some(),
        limit > 0,
    ensures
        run_spec(h, m, limit) == (StepOutcome { hart: h, memory: m, result: Err(h.trap.unwrap()) }),
{
}

/// A word whose opcode the classifier's table lacks stops the hart with an
/// illegal-instruction exception and changes nothing else.
pub proof fn lemma_unknown_opcode(h: HartView, m: MemoryView, word: InstructionBytes)
    requires
        h.trap.is_none(),
        classify_spec(bits(word.0, 6, 0) as u32, bits(word.0, 14, 12) as u32).is_none(),
    ensures
        execute_spec(h, m, word) == (StepOutcome {
            hart: h.trapped(InstructionException::IllegalInstruction),
            memory: m,
            result: Err(InstructionException::IllegalInstruction),
        }),
{
}

/// The opcode with all seven bits set is not in the classifier's table.
pub proof fn lemma_all_ones_opcode_unknown(funct3: u32)
    ensures
        classify_spec(0x7f, funct3).is_none(),
{
}

/// A branch that is not taken moves the program counter on by 4; a branch
/// that is taken sets it to the program counter of the branch plus the
/// offset. Either way the registers and the store stay as they were.
pub proof fn lemma_branch_counter(
    h: HartView,
    m: MemoryView,
    word: InstructionBytes,
    branch: BFormat,
)
    requires
        h.trap.is_none(),
        Instruction::decode_spec(word) == Ok::<Instruction, InstructionException>(
            Instruction::B(branch),
        ),
        execute_spec(h, m, word).result.is_ok(),
    ensures
        branch.rs1 < 32 && branch.rs2 < 32,
        branch_spec(branch.funct3, h.regs[branch.rs1 as int], h.regs[branch.rs2 as int])
            == Some(false) ==> execute_spec(h, m, word).hart.pc == add64(h.pc, 4),
        branch_spec(branch.funct3, h.regs[branch.rs1 as int], h.regs[branch.rs2 as int])
            == Some(true) ==> execute_spec(h, m, word).hart.pc == address(h.pc, branch.imm),
        branch_spec(
            branch.funct3,
            h.regs[branch.rs1 as int],
            h.regs[branch.rs2 as int],
        ).is_some(),
        execute_spec(h, m, word).hart.regs == h.regs,
        execute_spec(h, m, word).memory == m,
{
    reveal(dispatch_spec);
}

/// A jump-and-link-register through register 0 with offset 0 goes to address
/// 0 and writes the address of the next instruction to its destination. The
/// jump itself succeeds wherever the store lies; if address 0 is outside the
/// store, it is the next step that fails, with a fetch fault.
pub proof fn lemma_jalr_to_zero(h: HartView, m: MemoryView, rd: usize)
    requires
        h.wf(),
        h.trap.is_none(),
        rd < 32,
    ensures
        ({
            let jump = IFormat { imm: 0, funct3: 0, rs1: 0, rd, opcode: OPCODE_JALR };
            let end = retire_spec(h, m, process_i_spec(h, m, jump));
            &&& end.result.is_ok()
            &&& end.hart == h.write(rd as int, add64(h.pc, 4)).jump(0)
            &&& end.memory == m
            &&& !m.contains(0, 4) ==> step_spec(end.hart, end.memory).result == Err::<
                (),
                InstructionException,
            >(InstructionException::FetchFault)
        }),
{
}

/// What is stored is what is loaded: the `width` low bytes of the value.
pub proof fn lemma_store_then_load(m: MemoryView, addr: u64, width: nat, value: u64)
    requires
        m.contains(addr, width),
    ensures
        m.store(addr, width, value).contains(addr, width),
        m.store(addr, width, value).load(addr, width) == value as nat % pow256(width),
{
    lemma_le_bytes_len(value as nat, width);
    lemma_le_value_of_bytes(value as nat, width);
    assert(m.store(addr, width, value).read(addr, width) =~= le_bytes(value as nat, width));
}

/// A logical shift right by `n` divides by `2^n`.
pub proof fn lemma_srl_divides(a: u64, n: u64)
    requires
        n < 64,
    ensures
        srl(a, n) == a as nat / pow2(n as nat),
{
    lemma_u64_shr_is_div(a, n);
}

/// An arithmetic shift right by `n` divides the two's-complement reading by
/// `2^n` and rounds toward minus infinity.
pub proof fn lemma_sra_divides(a: u64, n: u64)
    requires
        n < 64,
    ensures
        signed64(sra(a, n)) == signed64(a) / (pow2(n as nat) as int),
{
    let d = pow2(n as nat) as int;
    lemma_pow2_pos(n as nat);
    if a < 0x8000_0000_0000_0000 {
        lemma_u64_shr_is_div(a, n);
        assert(a as int / d <= a) by {
            lemma_div_is_ordered_by_denominator(a as int, 1, d);
        }
    } else {
        let b = !a;
        assert(b == 0xFFFF_FFFF_FFFF_FFFF - a) by (bit_vector)
            requires
                b == !a,
        ;
        let q = b >> n;
        lemma_u64_shr_is_div(b, n);
        assert(!q == 0xFFFF_FFFF_FFFF_FFFF - q) by (bit_vector);
        assert(q <= b) by {
            lemma_div_is_ordered_by_denominator(b as int, 1, d);
        }
        let rem = b as int % d;
        lemma_fundamental_div_mod(b as int, d);
        assert(-(b + 1) == (-q - 1) * d + (d - rem - 1)) by (nonlinear_arith)
            requires
                b == d * q + rem,
        ;
        lemma_fundamental_div_mod_converse(-(b + 1), d, -q - 1, d - rem - 1);
    }
}

/// A shift left by `n` multiplies by `2^n` modulo `2^64`.
pub proof fn lemma_sll_multiplies(a: u64, n: u64)
    requires
        n < 64,
    ensures
        sll(a, n) == wrap64(a * pow2(n as nat)),
    decreases n,
{
    if n == 0 {
        assert(a << 0 == a) by (bit_vector);
        assert(pow2(0) == 1) by {
            lemma2_to64();
        }
    } else {
        let m = (n - 1) as u64;
        let half = a << m;
        lemma_sll_multiplies(a, m);
        assert(a << n == (half * 2) % 0x1_0000_0000_0000_0000) by (bit_vector)
            requires
                0 < n < 64,
                m == n - 1,
                half == a << m,
        ;
        lemma_pow2_unfold(n as nat);
        let p = pow2(m as nat) as int;
        lemma_mul_mod_noop_right(2, a * p, 0x1_0000_0000_0000_0000);
        assert(2 * (a * p) == a * (2 * p)) by (nonlinear_arith);
    }
}

} // verus!
