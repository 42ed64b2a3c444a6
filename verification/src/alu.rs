//! The arithmetic of the base instruction set on 64-bit register values.
//!
//! Each operation is a function from plain values to a plain value, selected
//! by the function codes of the instruction. A combination of function codes
//! that names no operation yields `None`.

use crate::instruction::ISType;
use crate::memory::{lemma_pow256_values, pow256};
use vstd::prelude::*;

verus! {

/// The 64-bit value that is congruent to `x` modulo `2^64`.
pub open spec fn wrap64(x: int) -> u64 {
    (x % 0x1_0000_0000_0000_0000) as u64
}

/// The two's-complement reading of a 64-bit value.
pub open spec fn signed64(x: u64) -> int {
    if x < 0x8000_0000_0000_0000 {
        x as int
    } else {
        x - 0x1_0000_0000_0000_0000
    }
}

/// Addition modulo `2^64`.
pub open spec fn add64(a: u64, b: u64) -> u64 {
    wrap64(a + b)
}

/// Subtraction modulo `2^64`.
pub open spec fn sub64(a: u64, b: u64) -> u64 {
    wrap64(a - b)
}

/// A signed immediate as a 64-bit register value.
pub open spec fn sign_extend_spec(imm: i32) -> u64 {
    wrap64(imm as int)
}

/// Logical shift left by `amount` positions.
pub open spec fn sll(a: u64, amount: u64) -> u64
    recommends
        amount < 64,
{
    a << amount
}

/// Logical shift right by `amount` positions.
pub open spec fn srl(a: u64, amount: u64) -> u64
    recommends
        amount < 64,
{
    a >> amount
}

/// Arithmetic shift right by `amount` positions: the sign bit fills the
/// vacated positions.
pub open spec fn sra(a: u64, amount: u64) -> u64
    recommends
        amount < 64,
{
    if a < 0x8000_0000_0000_0000 {
        a >> amount
    } else {
        !(!a >> amount)
    }
}

/// One if `cond` holds, else zero.
pub open spec fn flag(cond: bool) -> u64 {
    if cond {
        1
    } else {
        0
    }
}

/// A loaded value of `width` bytes as a 64-bit register value: sign-extended
/// from its top bit if `signed`, else zero-extended.
pub open spec fn extend_spec(value: u64, width: nat, signed: bool) -> u64
    recommends
        1 <= width <= 8,
        value < pow256(width),
{
    if signed && 2 * value >= pow256(width) {
        wrap64(value - pow256(width))
    } else {
        value
    }
}

/// The result of a register-register operation, by its function codes:
/// with `funct7` zero, ADD, SLL, SLT, SLTU, XOR, SRL, OR, AND for `funct3`
/// 0 to 7; with `funct7` 0x20, SUB for `funct3` 0 and SRA for `funct3` 5.
/// The shifts take their amount from the low six bits of `b`.
pub open spec fn op_spec(funct3: u32, funct7: u32, a: u64, b: u64) -> Option<u64> {
    if funct7 == 0 {
        if funct3 == 0 {
            Some(add64(a, b))
        } else if funct3 == 1 {
            Some(sll(a, b % 64))
        } else if funct3 == 2 {
            Some(flag(signed64(a) < signed64(b)))
        } else if funct3 == 3 {
            Some(flag(a < b))
        } else if funct3 == 4 {
            Some(a ^ b)
        } else if funct3 == 5 {
            Some(srl(a, b % 64))
        } else if funct3 == 6 {
            Some(a | b)
        } else if funct3 == 7 {
            Some(a & b)
        } else {
            None
        }
    } else if funct7 == 0x20 {
        if funct3 == 0 {
            Some(sub64(a, b))
        } else if funct3 == 5 {
            Some(sra(a, b % 64))
        } else {
            None
        }
    } else {
        None
    }
}

/// The result of a register-immediate operation, by its function code:
/// ADDI, SLTI, SLTIU, XORI, ORI, ANDI for `funct3` 0, 2, 3, 4, 6, 7.
/// `imm` is the immediate, already sign-extended.
pub open spec fn op_imm_spec(funct3: u32, a: u64, imm: u64) -> Option<u64> {
    if funct3 == 0 {
        Some(add64(a, imm))
    } else if funct3 == 2 {
        Some(flag(signed64(a) < signed64(imm)))
    } else if funct3 == 3 {
        Some(flag(a < imm))
    } else if funct3 == 4 {
        Some(a ^ imm)
    } else if funct3 == 6 {
        Some(a | imm)
    } else if funct3 == 7 {
        Some(a & imm)
    } else {
        None
    }
}

/// The number of positions that a shift by immediate moves: the five bits of
/// `shamt`, and as sixth bit the lowest bit of the discriminator.
pub open spec fn shift_amount(shift: ISType) -> u64 {
    (shift.shamt + 32 * (shift.imm % 2)) as u64
}

/// The result of a shift by immediate: SLLI for `funct3` 1, and for `funct3`
/// 5 SRLI or SRAI, told apart by the upper six bits of the discriminator
/// (0 for the logical shifts, 0x10 for the arithmetic one).
pub open spec fn shift_imm_spec(shift: ISType, a: u64) -> Option<u64> {
    if shift.shamt >= 32 || shift.imm >= 128 {
        None
    } else if shift.funct3 == 1 && shift.imm / 2 == 0 {
        Some(sll(a, shift_amount(shift)))
    } else if shift.funct3 == 5 && shift.imm / 2 == 0 {
        Some(srl(a, shift_amount(shift)))
    } else if shift.funct3 == 5 && shift.imm / 2 == 0x10 {
        Some(sra(a, shift_amount(shift)))
    } else {
        None
    }
}

/// Whether a branch is taken, by its function code: BEQ, BNE, BLT, BGE,
/// BLTU, BGEU for `funct3` 0, 1, 4, 5, 6, 7.
pub open spec fn branch_spec(funct3: u32, a: u64, b: u64) -> Option<bool> {
    if funct3 == 0 {
        Some(a == b)
    } else if funct3 == 1 {
        Some(a != b)
    } else if funct3 == 4 {
        Some(signed64(a) < signed64(b))
    } else if funct3 == 5 {
        Some(signed64(a) >= signed64(b))
    } else if funct3 == 6 {
        Some(a < b)
    } else if funct3 == 7 {
        Some(a >= b)
    } else {
        None
    }
}

/// The width in bytes of a load and whether it sign-extends, by its function
/// code: LB, LH, LW, LD, LBU, LHU, LWU for `funct3` 0 to 6.
pub open spec fn load_kind_spec(funct3: u32) -> Option<(usize, bool)> {
    if funct3 == 0 {
        Some((1usize, true))
    } else if funct3 == 1 {
        Some((2usize, true))
    } else if funct3 == 2 {
        Some((4usize, true))
    } else if funct3 == 3 {
        Some((8usize, true))
    } else if funct3 == 4 {
        Some((1usize, false))
    } else if funct3 == 5 {
        Some((2usize, false))
    } else if funct3 == 6 {
        Some((4usize, false))
    } else {
        None
    }
}

/// The width in bytes of a store, by its function code: SB, SH, SW, SD for
/// `funct3` 0 to 3.
pub open spec fn store_width_spec(funct3: u32) -> Option<usize> {
    if funct3 == 0 {
        Some(1usize)
    } else if funct3 == 1 {
        Some(2usize)
    } else if funct3 == 2 {
        Some(4usize)
    } else if funct3 == 3 {
        Some(8usize)
    } else {
        None
    }
}

/// What a cast to `i64` gives: the two's-complement reading.
proof fn lemma_signed_cast(a: u64)
    by (bit_vector)
    ensures
        (a as i64) as int == (if a < 0x8000_0000_0000_0000 {
            a as int
        } else {
            a - 0x1_0000_0000_0000_0000
        }),
{
}

/// What widening an `i32` and casting it to `u64` gives.
proof fn lemma_sign_extend_cast(imm: i32)
    by (bit_vector)
    ensures
        (imm as i64 as u64) as int == (if imm < 0 {
            imm + 0x1_0000_0000_0000_0000
        } else {
            imm as int
        }),
{
}

/// Sign-extends an immediate to a 64-bit register value.
pub fn sign_extend(imm: i32) -> (r: u64)
    ensures
        r == sign_extend_spec(imm),
{
    proof {
        lemma_sign_extend_cast(imm);
    }
    #[verifier::truncate]
    ((imm as i64) as u64)
}

/// Whether `a` is below `b` when both are read as two's-complement numbers.
pub fn signed_less(a: u64, b: u64) -> (r: bool)
    ensures
        r == (signed64(a) < signed64(b)),
{
    proof {
        lemma_signed_cast(a);
        lemma_signed_cast(b);
    }
    (#[verifier::truncate] (a as i64)) < (#[verifier::truncate] (b as i64))
}

/// Shifts `a` right by `amount` positions and fills with the sign bit.
pub fn shift_right_arithmetic(a: u64, amount: u64) -> (r: u64)
    requires
        amount < 64,
    ensures
        r == sra(a, amount),
{
    if a < 0x8000_0000_0000_0000 {
        a >> amount
    } else {
        !(!a >> amount)
    }
}

/// Extends a loaded value of `width` bytes to a 64-bit register value.
pub fn extend(value: u64, width: usize, signed: bool) -> (r: u64)
    requires
        width == 1 || width == 2 || width == 4 || width == 8,
        value < pow256(width as nat),
    ensures
        r == extend_spec(value, width as nat, signed),
{
    proof {
        lemma_pow256_values();
    }
    if !signed {
        value
    } else if width == 1 {
        if value >= 0x80 {
            value + 0xffff_ffff_ffff_ff00
        } else {
            value
        }
    } else if width == 2 {
        if value >= 0x8000 {
            value + 0xffff_ffff_ffff_0000
        } else {
            value
        }
    } else if width == 4 {
        if value >= 0x8000_0000 {
            value + 0xffff_ffff_0000_0000
        } else {
            value
        }
    } else {
        value
    }
}

/// Computes a register-register operation.
pub fn op(funct3: u32, funct7: u32, a: u64, b: u64) -> (r: Option<u64>)
    ensures
        r == op_spec(funct3, funct7, a, b),
{
    match (funct7, funct3) {
        (0, 0) => Some(a.wrapping_add(b)),
        (0, 1) => Some(a << (b % 64)),
        (0, 2) => Some(if signed_less(a, b) { 1 } else { 0 }),
        (0, 3) => Some(if a < b { 1 } else { 0 }),
        (0, 4) => Some(a ^ b),
        (0, 5) => Some(a >> (b % 64)),
        (0, 6) => Some(a | b),
        (0, 7) => Some(a & b),
        (0x20, 0) => Some(a.wrapping_sub(b)),
        (0x20, 5) => Some(shift_right_arithmetic(a, b % 64)),
        _ => None,
    }
}

/// Computes a register-immediate operation on the sign-extended immediate.
pub fn op_imm(funct3: u32, a: u64, imm: u64) -> (r: Option<u64>)
    ensures
        r == op_imm_spec(funct3, a, imm),
{
    match funct3 {
        0 => Some(a.wrapping_add(imm)),
        2 => Some(if signed_less(a, imm) { 1 } else { 0 }),
        3 => Some(if a < imm { 1 } else { 0 }),
        4 => Some(a ^ imm),
        6 => Some(a | imm),
        7 => Some(a & imm),
        _ => None,
    }
}

/// Computes a shift by immediate.
pub fn shift_imm(shift: ISType, a: u64) -> (r: Option<u64>)
    ensures
        r == shift_imm_spec(shift, a),
{
    if shift.shamt >= 32 || shift.imm >= 128 {
        return None;
    }
    let amount: u64 = (shift.shamt + 32 * (shift.imm % 2)) as u64;
    let kind: u32 = shift.imm / 2;
    if shift.funct3 == 1 && kind == 0 {
        Some(a << amount)
    } else if shift.funct3 == 5 && kind == 0 {
        Some(a >> amount)
    } else if shift.funct3 == 5 && kind == 0x10 {
        Some(shift_right_arithmetic(a, amount))
    } else {
        None
    }
}

/// Decides whether a branch is taken.
pub fn branch(funct3: u32, a: u64, b: u64) -> (r: Option<bool>)
    ensures
        r == branch_spec(funct3, a, b),
{
    match funct3 {
        0 => Some(a == b),
        1 => Some(a != b),
        4 => Some(signed_less(a, b)),
        5 => Some(!signed_less(a, b)),
        6 => Some(a < b),
        7 => Some(a >= b),
        _ => None,
    }
}

/// The width in bytes of a load and whether it sign-extends.
pub fn load_kind(funct3: u32) -> (r: Option<(usize, bool)>)
    ensures
        r == load_kind_spec(funct3),
{
    match funct3 {
        0 => Some((1, true)),
        1 => Some((2, true)),
        2 => Some((4, true)),
        3 => Some((8, true)),
        4 => Some((1, false)),
        5 => Some((2, false)),
        6 => Some((4, false)),
        _ => None,
    }
}

/// The width in bytes of a store.
pub fn store_width(funct3: u32) -> (r: Option<usize>)
    ensures
        r == store_width_spec(funct3),
{
    match funct3 {
        0 => Some(1),
        1 => Some(2),
        2 => Some(4),
        3 => Some(8),
        _ => None,
    }
}

} // verus!
